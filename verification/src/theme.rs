//! The colours of the CellSight shell and how a theme's colour values are
//! written and read back.

use vstd::prelude::*;
use crate::picker::starts_with;
use crate::text::{
    all_hex, chars_of, hex_value, lemma_hex_value_bound, lemma_padded_hex_six,
    lemma_utf8_len_at_least_len, lemma_utf8_len_ascii, padded_hex_text, parse_hex_digits, pow16,
    push_char, push_padded_hex, str_equals, utf8_len, utf8_len_at_most, is_hex_digit,
};

verus! {

pub const PANEL: u32 = 0x161f20;

pub const BORDER: u32 = 0x162018;

pub const TEXT: u32 = 0xf0f5f1;

pub const MUTED: u32 = 0x909aa7;

pub const ACCENT: u32 = 0x3b6244;

pub const CANVAS: u32 = 0x0e0f0e;

pub const ACCENT_BTN: u32 = 0x1d2e25;

pub const BORDER_BTN: u32 = 0x233b2d;

pub const SURFACE_BTN: u32 = 0x181f1b;

pub const ACTIVE_BTN: u32 = 0x233b2d;

/// The largest colour a theme may hold: 24-bit RGB.
pub const MAX_COLOR: u32 = 0x00ff_ffff;

/// All colours used by the CellSight shell, each as `0xRRGGBB`.
#[derive(Clone, Copy, Debug, PartialEq, Eq, Structural)]
pub struct Theme {
    pub panel: u32,
    pub border: u32,
    pub text: u32,
    pub muted: u32,
    pub accent: u32,
    pub canvas: u32,
    pub accent_btn: u32,
    pub border_btn: u32,
    pub surface_btn: u32,
    pub active_btn: u32,
}

/// The built-in theme.
pub open spec fn default_theme() -> Theme {
    Theme {
        panel: PANEL,
        border: BORDER,
        text: TEXT,
        muted: MUTED,
        accent: ACCENT,
        canvas: CANVAS,
        accent_btn: ACCENT_BTN,
        border_btn: BORDER_BTN,
        surface_btn: SURFACE_BTN,
        active_btn: ACTIVE_BTN,
    }
}

impl Default for Theme {
    fn default() -> (t: Self)
        ensures
            t == default_theme(),
    {
        Theme {
            panel: PANEL,
            border: BORDER,
            text: TEXT,
            muted: MUTED,
            accent: ACCENT,
            canvas: CANVAS,
            accent_btn: ACCENT_BTN,
            border_btn: BORDER_BTN,
            surface_btn: SURFACE_BTN,
            active_btn: ACTIVE_BTN,
        }
    }
}

/// The colour a theme gives to a value name, if the name is one of its fields.
pub open spec fn theme_color(t: Theme, name: Seq<char>) -> Option<u32> {
    if name == "panel"@ {
        Some(t.panel)
    } else if name == "border"@ {
        Some(t.border)
    } else if name == "text"@ {
        Some(t.text)
    } else if name == "muted"@ {
        Some(t.muted)
    } else if name == "accent"@ {
        Some(t.accent)
    } else if name == "canvas"@ {
        Some(t.canvas)
    } else if name == "accent_btn"@ {
        Some(t.accent_btn)
    } else if name == "border_btn"@ {
        Some(t.border_btn)
    } else if name == "surface_btn"@ {
        Some(t.surface_btn)
    } else if name == "active_btn"@ {
        Some(t.active_btn)
    } else {
        None
    }
}

/// Each of the ten value names looks up its own field, whatever the theme.
pub proof fn names_find_their_own_fields(t: Theme)
    ensures
        theme_color(t, "panel"@) == Some(t.panel),
        theme_color(t, "border"@) == Some(t.border),
        theme_color(t, "text"@) == Some(t.text),
        theme_color(t, "muted"@) == Some(t.muted),
        theme_color(t, "accent"@) == Some(t.accent),
        theme_color(t, "canvas"@) == Some(t.canvas),
        theme_color(t, "accent_btn"@) == Some(t.accent_btn),
        theme_color(t, "border_btn"@) == Some(t.border_btn),
        theme_color(t, "surface_btn"@) == Some(t.surface_btn),
        theme_color(t, "active_btn"@) == Some(t.active_btn),
{
    reveal_strlit("panel");
    reveal_strlit("border");
    reveal_strlit("text");
    reveal_strlit("muted");
    reveal_strlit("accent");
    reveal_strlit("canvas");
    reveal_strlit("accent_btn");
    reveal_strlit("border_btn");
    reveal_strlit("surface_btn");
    reveal_strlit("active_btn");
    assert("panel"@.len() == 5 && "panel"@[0] == 'p' && "panel"@[2] == 'n');
    assert("border"@.len() == 6 && "border"@[0] == 'b' && "border"@[2] == 'r');
    assert("text"@.len() == 4 && "text"@[0] == 't' && "text"@[2] == 'x');
    assert("muted"@.len() == 5 && "muted"@[0] == 'm' && "muted"@[2] == 't');
    assert("accent"@.len() == 6 && "accent"@[0] == 'a' && "accent"@[2] == 'c');
    assert("canvas"@.len() == 6 && "canvas"@[0] == 'c' && "canvas"@[2] == 'n');
    assert("accent_btn"@.len() == 10 && "accent_btn"@[0] == 'a' && "accent_btn"@[2] == 'c');
    assert("border_btn"@.len() == 10 && "border_btn"@[0] == 'b' && "border_btn"@[2] == 'r');
    assert("surface_btn"@.len() == 11 && "surface_btn"@[0] == 's' && "surface_btn"@[2] == 'r');
    assert("active_btn"@.len() == 10 && "active_btn"@[0] == 'a' && "active_btn"@[2] == 't');
}

/// Changing one colour of a theme changes what its name looks up to the
/// new colour and nothing else: a lookup reads the field it names.
pub proof fn lookup_follows_field_updates(t: Theme, v: u32)
    ensures
        theme_color(Theme { active_btn: v, ..t }, "active_btn"@) == Some(v),
        theme_color(Theme { border_btn: v, ..t }, "border_btn"@) == Some(v),
        theme_color(Theme { surface_btn: v, ..t }, "surface_btn"@) == Some(v),
        theme_color(Theme { accent_btn: v, ..t }, "accent_btn"@) == Some(v),
        theme_color(Theme { panel: v, ..t }, "panel"@) == Some(v),
        theme_color(Theme { border: v, ..t }, "border"@) == Some(v),
        theme_color(Theme { text: v, ..t }, "text"@) == Some(v),
        theme_color(Theme { muted: v, ..t }, "muted"@) == Some(v),
        theme_color(Theme { accent: v, ..t }, "accent"@) == Some(v),
        theme_color(Theme { canvas: v, ..t }, "canvas"@) == Some(v),
        forall|name: Seq<char>|
            name != "active_btn"@ ==> #[trigger] theme_color(Theme { active_btn: v, ..t }, name)
                == theme_color(t, name),
        forall|name: Seq<char>|
            name != "border_btn"@ ==> #[trigger] theme_color(Theme { border_btn: v, ..t }, name)
                == theme_color(t, name),
{
    names_find_their_own_fields(Theme { active_btn: v, ..t });
    names_find_their_own_fields(Theme { border_btn: v, ..t });
    names_find_their_own_fields(Theme { surface_btn: v, ..t });
    names_find_their_own_fields(Theme { accent_btn: v, ..t });
    names_find_their_own_fields(Theme { panel: v, ..t });
    names_find_their_own_fields(Theme { border: v, ..t });
    names_find_their_own_fields(Theme { text: v, ..t });
    names_find_their_own_fields(Theme { muted: v, ..t });
    names_find_their_own_fields(Theme { accent: v, ..t });
    names_find_their_own_fields(Theme { canvas: v, ..t });
}

impl Theme {
    /// Looks a colour up by its field name.
    pub fn color(&self, name: &str) -> (r: Option<u32>)
        ensures
            r == theme_color(*self, name@),
    {
        if str_equals(name, "panel") {
            Some(self.panel)
        } else if str_equals(name, "border") {
            Some(self.border)
        } else if str_equals(name, "text") {
            Some(self.text)
        } else if str_equals(name, "muted") {
            Some(self.muted)
        } else if str_equals(name, "accent") {
            Some(self.accent)
        } else if str_equals(name, "canvas") {
            Some(self.canvas)
        } else if str_equals(name, "accent_btn") {
            Some(self.accent_btn)
        } else if str_equals(name, "border_btn") {
            Some(self.border_btn)
        } else if str_equals(name, "surface_btn") {
            Some(self.surface_btn)
        } else if str_equals(name, "active_btn") {
            Some(self.active_btn)
        } else {
            None
        }
    }
}

/// A colour value as a theme file writes it: a number, or text such as
/// `"#rrggbb"`, `"0xrrggbb"` or `"rrggbb"`.
pub enum ColorInput {
    Number(u32),
    Text(String),
}

/// Why a colour value was refused.
#[derive(Clone, Copy, Debug, PartialEq, Eq, Structural)]
pub enum ColorError {
    /// The text, without its prefix, is not exactly six bytes long.
    WrongLength,
    /// The six bytes are not hexadecimal digits.
    InvalidDigit,
    /// The number does not fit in 24-bit RGB.
    OutOfRange,
}

impl ColorError {
    /// The message that reports this error.
    pub fn message(&self) -> (s: &'static str)
        ensures
            s@ == color_error_message(*self),
    {
        match self {
            ColorError::WrongLength => "color must contain exactly 6 hex digits",
            ColorError::InvalidDigit => "invalid digit found in string",
            ColorError::OutOfRange => "color must be a 24-bit RGB value",
        }
    }
}

pub open spec fn color_error_message(e: ColorError) -> Seq<char> {
    match e {
        ColorError::WrongLength => "color must contain exactly 6 hex digits"@,
        ColorError::InvalidDigit => "invalid digit found in string"@,
        ColorError::OutOfRange => "color must be a 24-bit RGB value"@,
    }
}

/// The digits of a colour text: after one leading `#`, `0x` or `0X`, if any.
pub open spec fn color_digits(s: Seq<char>) -> Seq<char> {
    if starts_with(s, seq!['#']) {
        s.skip(1)
    } else if starts_with(s, seq!['0', 'x']) || starts_with(s, seq!['0', 'X']) {
        s.skip(2)
    } else {
        s
    }
}

/// The colour a theme value stands for, or why it is refused.
pub open spec fn decode_color(input: ColorInput) -> Result<u32, ColorError> {
    match input {
        ColorInput::Number(v) => if v > MAX_COLOR {
            Err(ColorError::OutOfRange)
        } else {
            Ok(v)
        },
        ColorInput::Text(s) => decode_color_text(s@),
    }
}

/// The colour a textual theme value stands for, or why it is refused: after
/// one optional prefix (`#`, `0x` or `0X`) it must hold exactly six bytes,
/// and these must be six hexadecimal digits.
pub open spec fn decode_color_text(s: Seq<char>) -> Result<u32, ColorError> {
    let d = color_digits(s);
    if utf8_len(d) != 6 {
        Err(ColorError::WrongLength)
    } else if !all_hex(d) {
        Err(ColorError::InvalidDigit)
    } else {
        Ok(hex_value(d) as u32)
    }
}

/// Reads one colour value of a theme; see [`decode_color`].
pub fn deserialize(input: &ColorInput) -> (r: Result<u32, ColorError>)
    ensures
        r == decode_color(*input),
        r matches Ok(c) ==> c <= MAX_COLOR,
{
    match input {
        ColorInput::Number(v) => {
            if *v > MAX_COLOR {
                Err(ColorError::OutOfRange)
            } else {
                Ok(*v)
            }
        },
        ColorInput::Text(s) => {
            let v = chars_of(s.as_str());
            let n = v.len();
            let mut a: usize = 0;
            if n >= 1 && v[0] == '#' {
                a = 1;
            } else if n >= 2 && v[0] == '0' && (v[1] == 'x' || v[1] == 'X') {
                a = 2;
            }
            proof {
                let t = s@;
                if starts_with(t, seq!['#']) {
                    assert(t.take(1)[0] == t[0]);
                } else if n >= 1 && v@[0] == '#' {
                    assert(t.take(1) =~= seq!['#']);
                }
                if starts_with(t, seq!['0', 'x']) {
                    assert(t.take(2)[0] == t[0]);
                    assert(t.take(2)[1] == t[1]);
                } else if n >= 2 && v@[0] == '0' && v@[1] == 'x' {
                    assert(t.take(2) =~= seq!['0', 'x']);
                }
                if starts_with(t, seq!['0', 'X']) {
                    assert(t.take(2)[0] == t[0]);
                    assert(t.take(2)[1] == t[1]);
                } else if n >= 2 && v@[0] == '0' && v@[1] == 'X' {
                    assert(t.take(2) =~= seq!['0', 'X']);
                }
                assert(color_digits(t) =~= v@.subrange(a as int, n as int));
            }
            if !(utf8_len_at_most(&v, a, n, 6) && !utf8_len_at_most(&v, a, n, 5)) {
                return Err(ColorError::WrongLength);
            }
            proof {
                lemma_utf8_len_at_least_len(v@.subrange(a as int, n as int));
            }
            match parse_hex_digits(&v, a, n) {
                None => Err(ColorError::InvalidDigit),
                Some(x) => {
                    proof {
                        let d = v@.subrange(a as int, n as int);
                        assert forall|i: int| 0 <= i < d.len() implies (#[trigger] d[i] as u32)
                            < 0x80 by {
                            assert(is_hex_digit(d[i]));
                        }
                        lemma_utf8_len_ascii(d);
                        lemma_hex_value_bound(d);
                        assert(pow16(6) == 0x1000000) by {
                            reveal_with_fuel(pow16, 7);
                        }
                    }
                    Ok(x)
                },
            }
        },
    }
}

/// How a theme writes a colour: `#` and at least six lower-case hex digits.
pub open spec fn color_text(value: u32) -> Seq<char> {
    seq!['#'] + padded_hex_text(value as nat, 6, false)
}

/// Writes one colour value of a theme; see [`color_text`].
pub fn serialize(value: u32) -> (s: String)
    ensures
        s@ == color_text(value),
{
    let mut s = String::new();
    push_char(&mut s, '#');
    push_padded_hex(&mut s, value as u64, 6, false);
    s
}


/// Round trip: every 24-bit colour that a theme writes reads back as the same colour.
pub proof fn serialized_color_reads_back(value: u32)
    requires
        value <= MAX_COLOR,
    ensures
        decode_color_text(color_text(value)) == Ok::<u32, ColorError>(value),
{
    let p = padded_hex_text(value as nat, 6, false);
    let t = color_text(value);
    lemma_padded_hex_six(value as nat, false);
    assert(t.take(1) =~= seq!['#']);
    assert(t.skip(1) =~= p);
    assert(all_hex(p));
}

} // verus!
