use cellsight::theme::{deserialize, serialize, ColorError, ColorInput, Theme};
use cellsight::theme::{ACCENT, BORDER, PANEL, TEXT};

fn text(s: &str) -> ColorInput {
    ColorInput::Text(s.to_string())
}

const FIELDS: [&str; 10] = [
    "panel", "border", "text", "muted", "accent", "canvas", "accent_btn", "border_btn",
    "surface_btn", "active_btn",
];

/// Reads a theme object the way the theme file format does: every field
/// present, no other field, each colour decoded by the library.
fn theme_from_json(json: &str) -> Result<Theme, String> {
    let value: serde_json::Value = serde_json::from_str(json).map_err(|e| e.to_string())?;
    let object = value.as_object().ok_or("not an object")?;
    if object.keys().any(|k| !FIELDS.contains(&k.as_str())) {
        return Err("unknown field".to_string());
    }
    let mut colors = Vec::new();
    for field in FIELDS {
        let input = match object.get(field).ok_or("missing field")? {
            serde_json::Value::String(s) => ColorInput::Text(s.clone()),
            serde_json::Value::Number(n) => ColorInput::Number(
                n.as_u64().and_then(|v| u32::try_from(v).ok()).ok_or("not a u32")?,
            ),
            _ => return Err("not a color".to_string()),
        };
        colors.push(deserialize(&input).map_err(|e| e.message().to_string())?);
    }
    Ok(Theme {
        panel: colors[0],
        border: colors[1],
        text: colors[2],
        muted: colors[3],
        accent: colors[4],
        canvas: colors[5],
        accent_btn: colors[6],
        border_btn: colors[7],
        surface_btn: colors[8],
        active_btn: colors[9],
    })
}

fn theme_to_json(theme: &Theme) -> String {
    let mut object = serde_json::Map::new();
    for field in FIELDS {
        let color = theme.color(field).unwrap();
        object.insert(field.to_string(), serde_json::Value::String(serialize(color)));
    }
    serde_json::Value::Object(object).to_string()
}

#[test]
fn loads_string_and_numeric_colors() {
    let json = r##"{
        "panel":"#161f20", "border":"0x162018", "text":15791601,
        "muted":"909aa7", "accent":"#3b6244", "canvas":"#0e0f0e",
        "accent_btn":"#1d2e25", "border_btn":"#233b2d",
        "surface_btn":"#181f1b", "active_btn":"#233b2d"
    }"##;
    let theme = theme_from_json(json).unwrap();
    assert_eq!(theme, Theme::default());
}

#[test]
fn rejects_non_rgb_colors() {
    let json = theme_to_json(&Theme::default()).replace("#161f20", "#ff161f20");
    assert!(theme_from_json(&json).is_err());
    assert_eq!(deserialize(&text("#ff161f20")), Err(ColorError::WrongLength));
}

#[test]
fn written_themes_read_back() {
    let theme = Theme::default();
    assert_eq!(theme_from_json(&theme_to_json(&theme)), Ok(theme));
    assert_eq!(serialize(PANEL), "#161f20");
}

#[test]
fn color_values_report_each_error() {
    assert_eq!(deserialize(&text("#12345")), Err(ColorError::WrongLength));
    assert_eq!(deserialize(&text("")), Err(ColorError::WrongLength));
    assert_eq!(deserialize(&text("#12345g")), Err(ColorError::InvalidDigit));
    // Six bytes, five characters: the length check counts bytes.
    assert_eq!(deserialize(&text("é1234")), Err(ColorError::InvalidDigit));
    assert_eq!(deserialize(&ColorInput::Number(0x0100_0000)), Err(ColorError::OutOfRange));
    assert_eq!(deserialize(&ColorInput::Number(0x00ff_ffff)), Ok(0x00ff_ffff));
    assert_eq!(deserialize(&text("0XABCDEF")), Ok(0xabcdef));
    assert_eq!(deserialize(&text("#+fffff")), Err(ColorError::InvalidDigit));
    assert_eq!(deserialize(&text("+fffff")), Err(ColorError::InvalidDigit));
    assert_eq!(deserialize(&text("#0xabcd")), Err(ColorError::InvalidDigit));
    assert_eq!(deserialize(&text("red")), Err(ColorError::WrongLength));
    assert_eq!(deserialize(&text("#ff161f20")), Err(ColorError::WrongLength));
    assert_eq!(ColorError::WrongLength.message(), "color must contain exactly 6 hex digits");
    assert_eq!(ColorError::OutOfRange.message(), "color must be a 24-bit RGB value");
    assert_eq!(ColorError::InvalidDigit.message(), "invalid digit found in string");
}

#[test]
fn serialized_colors_read_back() {
    for value in [0u32, 1, 0xabc, PANEL, TEXT, 0xffffff] {
        let written = serialize(value);
        assert_eq!(written.len(), 7);
        assert_eq!(deserialize(&ColorInput::Text(written)), Ok(value));
    }
    assert_eq!(serialize(0x1234567), "#1234567");
}

#[test]
fn theme_colors_are_found_by_name() {
    let theme = Theme::default();
    assert_eq!(theme.color("panel"), Some(PANEL));
    assert_eq!(theme.color("border"), Some(BORDER));
    assert_eq!(theme.color("accent"), Some(ACCENT));
    assert_eq!(theme.color("active_btn"), Some(0x233b2d));
    assert_eq!(theme.color("Panel"), None);
    assert_eq!(theme.color(""), None);
}
