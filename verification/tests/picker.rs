use cellsight::picker::{color_label, parse_color, ColorEntry, HIGH_CONTRAST_COLORS};

#[test]
fn parses_hex_and_rgb_colors() {
    assert_eq!(parse_color("#5CC8FF"), Some(0x5cc8ff));
    assert_eq!(parse_color("rgb(255, 92, 200)"), Some(0xff5cc8));
    assert_eq!(parse_color("rgb(256, 0, 0)"), None);
    assert_eq!(parse_color("nope"), None);
}

#[test]
fn parse_color_trims_and_accepts_both_rgb_spellings() {
    assert_eq!(parse_color("  #00ff7f \n"), Some(0x00ff7f));
    assert_eq!(parse_color("RGB( 1 ,2,  3 )"), Some(0x010203));
    assert_eq!(parse_color("rgb(+10, 020, 0)"), Some(0x0a1400));
    assert_eq!(parse_color("\u{3000}rgb(0,0,0)\u{a0}"), Some(0));
}

#[test]
fn parse_color_refuses_malformed_values() {
    assert_eq!(parse_color("#5CC8F"), None);
    assert_eq!(parse_color("#5CC8FF0"), None);
    assert_eq!(parse_color("#GGGGGG"), None);
    assert_eq!(parse_color("#é1234"), None);
    assert_eq!(parse_color("rgb(1, 2)"), None);
    assert_eq!(parse_color("rgb(1, 2, 3, 4)"), None);
    assert_eq!(parse_color("rgb(1, 2, 3"), None);
    assert_eq!(parse_color("rgb()"), None);
    assert_eq!(parse_color("rgb(-1, 2, 3)"), None);
    assert_eq!(parse_color("Rgb(1, 2, 3)"), None);
    assert_eq!(parse_color(""), None);
}

#[test]
fn parse_color_follows_from_str_radix_on_a_sign() {
    // `u32::from_str_radix` accepts one leading `+`.
    assert_eq!(parse_color("#+12345"), Some(0x12345));
    assert_eq!(parse_color("#-12345"), None);
}

#[test]
fn color_label_is_upper_case_and_padded() {
    assert_eq!(color_label(0x5cc8ff), "#5CC8FF");
    assert_eq!(color_label(0xff), "#0000FF");
    assert_eq!(color_label(0), "#000000");
    assert_eq!(color_label(0x1234567), "#1234567");
}

#[test]
fn every_palette_label_parses_back() {
    for color in HIGH_CONTRAST_COLORS {
        assert_eq!(parse_color(&color_label(color)), Some(color));
    }
}

#[test]
fn color_entry_edits_and_adopts_colors() {
    let mut entry = ColorEntry { text: String::new(), color: 0 };
    entry.key_down("r", Some("rgb(255,"));
    entry.key_down("space", Some(" 92, 200)"));
    assert_eq!(entry.text, "rgb(255, 92, 200)");
    entry.key_down("enter", None);
    assert_eq!(entry.color, 0xff5cc8);
    assert_eq!(entry.text, "#FF5CC8");
    entry.key_down("backspace", None);
    assert_eq!(entry.text, "#FF5CC");
    entry.key_down("enter", None);
    assert_eq!(entry.color, 0xff5cc8);
    assert_eq!(entry.text, "#FF5CC");
}

#[test]
fn color_entry_refuses_other_characters_and_long_text() {
    let mut entry = ColorEntry { text: String::from("#12"), color: 7 };
    entry.key_down("x", Some("x"));
    assert_eq!(entry.text, "#12");
    entry.key_down("z", Some("3z"));
    assert_eq!(entry.text, "#12");
    entry.key_down("a", Some("aaaaaaaaaaaaaaaaaaaaa"));
    assert_eq!(entry.text, "#12aaaaaaaaaaaaaaaaaaaaa");
    assert_eq!(entry.text.len(), 24);
    entry.key_down("a", Some("a"));
    assert_eq!(entry.text.len(), 24);
    entry.key_down("shift", None);
    assert_eq!(entry.color, 7);
    let mut empty = ColorEntry { text: String::new(), color: 1 };
    empty.key_down("backspace", None);
    assert_eq!(empty.text, "");
}

#[test]
fn color_entry_select_shows_the_color() {
    let mut entry = ColorEntry { text: String::from("junk"), color: 0 };
    entry.select(0xb57cff);
    assert_eq!(entry.color, 0xb57cff);
    assert_eq!(entry.text, "#B57CFF");
}

#[test]
fn picked_color_survives_enter() {
    let mut entry = ColorEntry { text: String::new(), color: 0 };
    for color in HIGH_CONTRAST_COLORS {
        entry.select(color);
        entry.key_down("enter", None);
        assert_eq!(entry.color, color);
        assert_eq!(entry.text, color_label(color));
    }
}

#[test]
fn written_colors_parse_back() {
    for color in [0u32, 0x010203, 0x5cc8ff, 0xff5cc8, 0xffffff] {
        assert_eq!(parse_color(&format!("#{color:06X}")), Some(color));
        assert_eq!(parse_color(&format!("#{color:06x}")), Some(color));
        let text = format!(" rgb({}, {}, {}) ", color >> 16, (color >> 8) & 255, color & 255);
        assert_eq!(parse_color(&text), Some(color));
    }
}
