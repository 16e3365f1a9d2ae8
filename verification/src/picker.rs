//! The annotation colour picker: the palette, parsing of typed colours and
//! the editing rules of the colour text field.

use vstd::prelude::*;
use crate::text::{
    chars_of, parse_decimal, parse_decimal_range, parse_hex, parse_hex_range, split, split_ranges,
    trim, trim_range, utf8_len, utf8_len_at_most, push_char, push_padded_hex, padded_hex_text,
    str_equals, is_hex_digit, string_of, lemma_padded_hex_six, unsigned_digits, is_whitespace,
    trim_start, trim_end, lemma_utf8_len_concat, lemma_utf8_len_at_least_len, decimal_text,
    lemma_decimal_text, lemma_trim_unchanged, lemma_split_append_free, lemma_split_push_separator,
    all_hex, lemma_hex_value_bound, lemma_pow16_grows, pow16, lemma_utf8_len_ascii,
};

verus! {

/// The palette offered below the colour field.
pub const HIGH_CONTRAST_COLORS: [u32; 11] = [
    0xff0000,
    0x00ff00,
    0x0000ff,
    0x000000,
    0xffffff,
    0x00ffff,
    0xffe066,
    0xff5cc8,
    0xff8a4c,
    0xb57cff,
    0xffb800,
];

/// `r`, `g` and `b` packed as `0xRRGGBB`.
pub open spec fn rgb_value(r: nat, g: nat, b: nat) -> nat {
    r * 0x10000 + g * 0x100 + b
}

pub open spec fn starts_with(s: Seq<char>, prefix: Seq<char>) -> bool {
    s.len() >= prefix.len() && s.take(prefix.len() as int) == prefix
}

/// One `rgb(..)` channel: a decimal `u8` once surrounding whitespace is trimmed.
pub open spec fn parse_channel(piece: Seq<char>) -> Option<nat> {
    parse_decimal(trim(piece), 255)
}

/// The colour that a typed value names: `#rrggbb` (six hex digits, any case)
/// or `rgb(r, g, b)` / `RGB(r, g, b)` with decimal channels up to 255,
/// ignoring surrounding whitespace.
pub open spec fn color_of_text(s: Seq<char>) -> Option<nat> {
    let t = trim(s);
    if t.len() >= 1 && t[0] == '#' {
        let hex = t.drop_first();
        if utf8_len(hex) == 6 {
            parse_hex(hex, 0xffff_ffff)
        } else {
            None
        }
    } else if t.len() >= 5 && (starts_with(t, seq!['r', 'g', 'b', '('])
        || starts_with(t, seq!['R', 'G', 'B', '('])) && t.last() == ')' {
        let parts = split(t.subrange(4, t.len() - 1), ',');
        if parts.len() == 3 && parse_channel(parts[0]) is Some && parse_channel(parts[1]) is Some
            && parse_channel(parts[2]) is Some {
            Some(
                rgb_value(
                    parse_channel(parts[0])->0,
                    parse_channel(parts[1])->0,
                    parse_channel(parts[2])->0,
                ),
            )
        } else {
            None
        }
    } else {
        None
    }
}

fn parse_channel_range(v: &Vec<char>, lo: usize, hi: usize) -> (r: Option<u32>)
    requires
        lo <= hi <= v.len(),
    ensures
        match parse_channel(v@.subrange(lo as int, hi as int)) {
            Some(n) => r == Some(n as u32) && n <= 255,
            None => r is None,
        },
{
    let (a, b) = trim_range(v, lo, hi);
    parse_decimal_range(v, a, b, 255)
}

/// Parses a typed colour value; see [`color_of_text`].
pub fn parse_color(value: &str) -> (r: Option<u32>)
    ensures
        match color_of_text(value@) {
            Some(n) => r == Some(n as u32),
            None => r is None,
        },
        r matches Some(c) ==> c <= 0xffffff,
{
    proof {
        parsed_colors_fit_24_bits(value@);
    }
    let v = chars_of(value);
    let (a, b) = trim_range(&v, 0, v.len());
    let ghost t = v@.subrange(a as int, b as int);
    assert(v@.subrange(0, v.len() as int) =~= value@);
    if b > a && v[a] == '#' {
        assert(t.drop_first() =~= v@.subrange(a + 1, b as int));
        if utf8_len_at_most(&v, a + 1, b, 6) && !utf8_len_at_most(&v, a + 1, b, 5) {
            return parse_hex_range(&v, a + 1, b, 0xffff_ffff);
        }
        return None;
    }
    if b - a < 5 || v[b - 1] != ')' {
        return None;
    }
    let lower = v[a] == 'r' && v[a + 1] == 'g' && v[a + 2] == 'b' && v[a + 3] == '(';
    let upper = v[a] == 'R' && v[a + 1] == 'G' && v[a + 2] == 'B' && v[a + 3] == '(';
    assert(lower == starts_with(t, seq!['r', 'g', 'b', '('])) by {
        if starts_with(t, seq!['r', 'g', 'b', '(']) {
            assert(t.take(4)[0] == t[0]);
            assert(t.take(4)[1] == t[1]);
            assert(t.take(4)[2] == t[2]);
            assert(t.take(4)[3] == t[3]);
        }
        if lower {
            assert(t.take(4) =~= seq!['r', 'g', 'b', '(']);
        }
    }
    assert(upper == starts_with(t, seq!['R', 'G', 'B', '('])) by {
        if starts_with(t, seq!['R', 'G', 'B', '(']) {
            assert(t.take(4)[0] == t[0]);
            assert(t.take(4)[1] == t[1]);
            assert(t.take(4)[2] == t[2]);
            assert(t.take(4)[3] == t[3]);
        }
        if upper {
            assert(t.take(4) =~= seq!['R', 'G', 'B', '(']);
        }
    }
    if !lower && !upper {
        return None;
    }
    assert(t.subrange(4, t.len() - 1) =~= v@.subrange(a + 4, b - 1));
    let ranges = split_ranges(&v, a + 4, b - 1, ',');
    if ranges.len() != 3 {
        return None;
    }
    let ghost parts = split(t.subrange(4, t.len() - 1), ',');
    assert(parts[0] == v@.subrange(ranges@[0].0 as int, ranges@[0].1 as int));
    assert(parts[1] == v@.subrange(ranges@[1].0 as int, ranges@[1].1 as int));
    assert(parts[2] == v@.subrange(ranges@[2].0 as int, ranges@[2].1 as int));
    let red = match parse_channel_range(&v, ranges[0].0, ranges[0].1) {
        Some(x) => x,
        None => return None,
    };
    let green = match parse_channel_range(&v, ranges[1].0, ranges[1].1) {
        Some(x) => x,
        None => return None,
    };
    let blue = match parse_channel_range(&v, ranges[2].0, ranges[2].1) {
        Some(x) => x,
        None => return None,
    };
    Some(red * 0x10000 + green * 0x100 + blue)
}


/// The text the field shows for a chosen colour: `#RRGGBB` in upper case.
pub open spec fn color_label_text(color: u32) -> Seq<char> {
    seq!['#'] + padded_hex_text(color as nat, 6, true)
}

/// Writes a chosen colour the way the field shows it.
pub fn color_label(color: u32) -> (s: String)
    ensures
        s@ == color_label_text(color),
{
    let mut s = String::new();
    push_char(&mut s, '#');
    push_padded_hex(&mut s, color as u64, 6, true);
    s
}

/// The characters that typing may add to the colour field.
pub open spec fn accepted_char(c: char) -> bool {
    ||| is_hex_digit(c)
    ||| c == '#' || c == '(' || c == ')' || c == ',' || c == ' '
    ||| c == 'r' || c == 'g' || c == 'b' || c == 'R' || c == 'G' || c == 'B'
}

/// Typing accepts every character a colour is written with: all
/// hexadecimal digits in either case, `#`, the letters of `rgb`/`RGB`,
/// brackets, commas and spaces.
pub proof fn color_characters_are_typeable(c: char)
    ensures
        is_hex_digit(c) ==> accepted_char(c),
        0x30 <= (c as u32) <= 0x39 ==> accepted_char(c),
        0x41 <= (c as u32) <= 0x46 ==> accepted_char(c),
        0x61 <= (c as u32) <= 0x66 ==> accepted_char(c),
        c == '#' || c == '(' || c == ')' || c == ',' || c == ' ' ==> accepted_char(c),
        c == 'r' || c == 'g' || c == 'b' || c == 'R' || c == 'G' || c == 'B' ==> accepted_char(c),
{
}

/// The longest text, in UTF-8 bytes, that typing may grow the field to.
pub const COLOR_INPUT_LIMIT: u32 = 24;

/// The colour field next to the picker: the text being typed and the colour
/// currently chosen for annotations.
pub struct ColorEntry {
    pub text: String,
    pub color: u32,
}

/// What the colour field holds after a key press.
pub open spec fn after_key(
    text: Seq<char>,
    color: u32,
    key: Seq<char>,
    key_char: Option<Seq<char>>,
) -> (Seq<char>, u32) {
    if key == "backspace"@ {
        (if text.len() > 0 { text.drop_last() } else { text }, color)
    } else if key == "enter"@ {
        match color_of_text(text) {
            Some(c) => (color_label_text(c as u32), c as u32),
            None => (text, color),
        }
    } else {
        match key_char {
            Some(typed) => if (forall|i: int| 0 <= i < typed.len() ==> accepted_char(
                #[trigger] typed[i],
            )) && utf8_len(text) + utf8_len(typed) <= COLOR_INPUT_LIMIT {
                (text + typed, color)
            } else {
                (text, color)
            },
            None => (text, color),
        }
    }
}

fn accepted_char_exec(c: char) -> (b: bool)
    ensures
        b == accepted_char(c),
{
    let u = c as u32;
    (0x30 <= u && u <= 0x39) || (0x61 <= u && u <= 0x66) || (0x41 <= u && u <= 0x46) || c == '#'
        || c == '(' || c == ')' || c == ',' || c == ' ' || c == 'r' || c == 'g' || c == 'b' || c
        == 'R' || c == 'G' || c == 'B'
}

impl ColorEntry {
    /// Picks a palette colour: it becomes the annotation colour and the field shows it.
    pub fn select(&mut self, color: u32)
        ensures
            final(self).color == color,
            final(self).text@ == color_label_text(color),
    {
        self.color = color;
        self.text = color_label(color);
    }

    /// Applies one key press: `backspace` deletes the last character, `enter`
    /// adopts the typed colour when it parses, and other keys append their
    /// characters when all of them may appear in a colour and the text stays
    /// within [`COLOR_INPUT_LIMIT`] bytes.
    pub fn key_down(&mut self, key: &str, key_char: Option<&str>)
        ensures
            (final(self).text@, final(self).color) == after_key(
                old(self).text@,
                old(self).color,
                key@,
                match key_char {
                    Some(k) => Some(k@),
                    None => None,
                },
            ),
    {
        if str_equals(key, "backspace") {
            let v = chars_of(self.text.as_str());
            if v.len() > 0 {
                self.text = string_of(&v, 0, v.len() - 1);
                assert(v@.subrange(0, v.len() - 1) =~= v@.drop_last());
            }
        } else if str_equals(key, "enter") {
            if let Some(c) = parse_color(self.text.as_str()) {
                self.color = c;
                self.text = color_label(c);
            }
        } else if let Some(typed) = key_char {
            let t = chars_of(typed);
            let mut accepted = true;
            let mut i: usize = 0;
            while i < t.len()
                invariant
                    i <= t.len(),
                    accepted == (forall|j: int| 0 <= j < i ==> accepted_char(#[trigger] t@[j])),
                decreases t.len() - i,
            {
                if !accepted_char_exec(t[i]) {
                    accepted = false;
                }
                i += 1;
            }
            if accepted {
                let v = chars_of(self.text.as_str());
                let mut joined = v.clone();
                let mut k: usize = 0;
                while k < t.len()
                    invariant
                        k <= t.len(),
                        joined@ == v@ + t@.take(k as int),
                    decreases t.len() - k,
                {
                    joined.push(t[k]);
                    assert(v@ + t@.take(k + 1) =~= joined@);
                    k += 1;
                }
                assert(t@.take(t.len() as int) =~= t@);
                if joined.len() <= COLOR_INPUT_LIMIT as usize && utf8_len_at_most(
                    &joined,
                    0,
                    joined.len(),
                    COLOR_INPUT_LIMIT,
                ) {
                    proof {
                        assert(joined@.subrange(0, joined.len() as int) =~= v@ + t@);
                        lemma_utf8_len_concat(v@, t@);
                    }
                    self.text = string_of(&joined, 0, joined.len());
                    assert(joined@.subrange(0, joined.len() as int) =~= v@ + t@);
                } else {
                    proof {
                        assert(joined@.subrange(0, joined.len() as int) =~= v@ + t@);
                        lemma_utf8_len_concat(v@, t@);
                        lemma_utf8_len_at_least_len(v@ + t@);
                    }
                }
            }
        }
    }
}


/// `#` and six hex digits of `color`, in upper or lower case, as
/// `{:06X}` or `{:06x}` write it.
pub open spec fn hash_hex_text(color: u32, upper: bool) -> Seq<char> {
    seq!['#'] + padded_hex_text(color as nat, 6, upper)
}

/// `rgb(r, g, b)` with the channels of `color` in decimal, and a space on either side.
pub open spec fn rgb_text(color: nat) -> Seq<char> {
    seq![' ', 'r', 'g', 'b', '('] + decimal_text(color / 0x10000) + seq![',', ' '] + decimal_text(
        (color / 0x100) % 0x100,
    ) + seq![',', ' '] + decimal_text(color % 0x100) + seq![')', ' ']
}

proof fn lemma_hash_hex_parses(color: u32, upper: bool)
    requires
        color <= 0xffffff,
    ensures
        color_of_text(hash_hex_text(color, upper)) == Some(color as nat),
{
    let p = padded_hex_text(color as nat, 6, upper);
    let t = hash_hex_text(color, upper);
    lemma_padded_hex_six(color as nat, upper);
    assert(t[0] == '#');
    assert(!is_whitespace(t[0]));
    assert(t.last() == p[5]);
    assert(!is_whitespace(t.last()));
    lemma_trim_unchanged(t);
    assert(t.drop_first() =~= p);
    assert(!(p[0] == '+'));
    assert(unsigned_digits(p) == p);
}

/// A channel written in decimal, with or without one leading space, reads back.
proof fn lemma_channel_parses(n: nat, lead: Seq<char>)
    requires
        n <= 255,
        lead == Seq::<char>::empty() || lead == seq![' '],
    ensures
        parse_channel(lead + decimal_text(n)) == Some(n),
        forall|i: int| 0 <= i < (lead + decimal_text(n)).len() ==> #[trigger] (lead + decimal_text(n))[i] != ',',
{
    let d = decimal_text(n);
    lemma_decimal_text(n);
    assert(!is_whitespace(d[0]));
    assert(!is_whitespace(d.last()));
    lemma_trim_unchanged(d);
    if lead.len() == 1 {
        let s = lead + d;
        assert(is_whitespace(s[0]));
        assert(s.drop_first() =~= d);
        assert(trim_start(d) == d);
        assert(trim(s) == d);
        assert forall|i: int| 0 <= i < s.len() implies #[trigger] s[i] != ',' by {
            if i > 0 {
                assert(s[i] == d[i - 1]);
            }
        }
    } else {
        assert(lead + d =~= d);
    }
    assert(!(d[0] == '+'));
    assert(unsigned_digits(d) == d);
}

/// The text between the brackets of `rgb(r, g, b)`.
pub open spec fn rgb_inner(r: nat, g: nat, b: nat) -> Seq<char> {
    decimal_text(r) + seq![','] + (seq![' '] + decimal_text(g)) + seq![','] + (seq![' ']
        + decimal_text(b))
}

pub open spec fn rgb_core(r: nat, g: nat, b: nat) -> Seq<char> {
    seq!['r', 'g', 'b', '('] + rgb_inner(r, g, b) + seq![')']
}

proof fn lemma_rgb_trim(r: nat, g: nat, b: nat)
    ensures
        trim(seq![' '] + rgb_core(r, g, b) + seq![' ']) == rgb_core(r, g, b),
{
    let core = rgb_core(r, g, b);
    let s = seq![' '] + core + seq![' '];
    assert(core[0] == 'r');
    assert(core.last() == ')');
    assert(s.drop_first() =~= core + seq![' ']);
    assert((core + seq![' ']).drop_last() =~= core);
    assert(trim_start(core + seq![' ']) == core + seq![' ']);
    assert(trim_start(s) == core + seq![' ']);
    assert(trim_end(core) == core);
}

proof fn lemma_rgb_split(r: nat, g: nat, b: nat)
    requires
        r <= 255,
        g <= 255,
        b <= 255,
    ensures
        split(rgb_inner(r, g, b), ',') == seq![
            decimal_text(r),
            seq![' '] + decimal_text(g),
            seq![' '] + decimal_text(b),
        ],
{
    let rt = decimal_text(r);
    let gt = seq![' '] + decimal_text(g);
    let bt = seq![' '] + decimal_text(b);
    lemma_channel_parses(r, Seq::empty());
    lemma_channel_parses(g, seq![' ']);
    lemma_channel_parses(b, seq![' ']);
    assert(Seq::<char>::empty() + rt =~= rt);
    lemma_split_append_free(Seq::empty(), rt, ',');
    lemma_split_push_separator(rt, ',');
    assert(rt.push(',') =~= rt + seq![',']);
    lemma_split_append_free(rt + seq![','], gt, ',');
    lemma_split_push_separator(rt + seq![','] + gt, ',');
    assert((rt + seq![','] + gt).push(',') =~= rt + seq![','] + gt + seq![',']);
    lemma_split_append_free(rt + seq![','] + gt + seq![','], bt, ',');
    assert(split(rgb_inner(r, g, b), ',') =~~= seq![rt, gt, bt]);
}

proof fn lemma_rgb_parses(r: nat, g: nat, b: nat)
    requires
        r <= 255,
        g <= 255,
        b <= 255,
    ensures
        color_of_text(seq![' '] + rgb_core(r, g, b) + seq![' ']) == Some(rgb_value(r, g, b)),
{
    let core = rgb_core(r, g, b);
    lemma_rgb_trim(r, g, b);
    lemma_rgb_split(r, g, b);
    lemma_channel_parses(r, Seq::empty());
    lemma_channel_parses(g, seq![' ']);
    lemma_channel_parses(b, seq![' ']);
    assert(Seq::<char>::empty() + decimal_text(r) =~= decimal_text(r));
    assert(core[0] == 'r');
    assert(core.take(4) =~= seq!['r', 'g', 'b', '(']);
    assert(core.subrange(4, core.len() - 1) =~= rgb_inner(r, g, b));
}

/// Round trips: every 24-bit colour, written as `#RRGGBB`, `#rrggbb` or
/// ` rgb(r, g, b) `, parses back as that colour.
pub proof fn written_colors_parse_back(color: u32)
    requires
        color <= 0xffffff,
    ensures
        color_of_text(color_label_text(color)) == Some(color as nat),
        color_of_text(hash_hex_text(color, true)) == Some(color as nat),
        color_of_text(hash_hex_text(color, false)) == Some(color as nat),
        color_of_text(rgb_text(color as nat)) == Some(color as nat),
{
    lemma_hash_hex_parses(color, true);
    lemma_hash_hex_parses(color, false);
    let c = color as nat;
    let r = c / 0x10000;
    let g = (c / 0x100) % 0x100;
    let b = c % 0x100;
    assert(r <= 255 && g <= 255 && b <= 255 && r * 0x10000 + g * 0x100 + b == c) by (nonlinear_arith)
        requires
            c <= 0xffffff,
            r == c / 0x10000,
            g == (c / 0x100) % 0x100,
            b == c % 0x100,
    ;
    lemma_rgb_parses(r, g, b);
    assert(rgb_text(c) =~= seq![' '] + rgb_core(r, g, b) + seq![' ']);
}

/// Every colour `parse_color` returns fits in 24 bits.
pub proof fn parsed_colors_fit_24_bits(s: Seq<char>)
    ensures
        color_of_text(s) matches Some(v) ==> v <= 0xffffff,
{
    let t = trim(s);
    if t.len() >= 1 && t[0] == '#' {
        let hex = t.drop_first();
        let d = unsigned_digits(hex);
        if utf8_len(hex) == 6 && parse_hex(hex, 0xffff_ffff) is Some {
            lemma_utf8_len_at_least_len(hex);
            assert(all_hex(d));
            lemma_hex_value_bound(d);
            lemma_pow16_grows(d.len(), 6);
            assert(pow16(6) == 0x1000000) by {
                reveal_with_fuel(pow16, 7);
            }
        }
    } else if color_of_text(s) is Some {
        let parts = split(t.subrange(4, t.len() - 1), ',');
        let r = parse_channel(parts[0])->0;
        let g = parse_channel(parts[1])->0;
        let b = parse_channel(parts[2])->0;
        assert(rgb_value(r, g, b) <= 0xffffff) by (nonlinear_arith)
            requires
                r <= 255,
                g <= 255,
                b <= 255,
        ;
    }
}

/// Typing the label of a 24-bit colour, in upper or lower case, into a
/// field holding at most 17 bytes appends it whole; into an empty field it
/// reproduces the label exactly.
pub proof fn typed_labels_are_kept(
    text: Seq<char>,
    color: u32,
    chosen: u32,
    upper: bool,
    key: Seq<char>,
)
    requires
        chosen <= 0xffffff,
        utf8_len(text) <= 17,
        key != "backspace"@,
        key != "enter"@,
    ensures
        after_key(text, color, key, Some(hash_hex_text(chosen, upper))) == (
            text + hash_hex_text(chosen, upper),
            color,
        ),
        after_key(Seq::empty(), color, key, Some(hash_hex_text(chosen, upper))) == (
            hash_hex_text(chosen, upper),
            color,
        ),
{
    let label = hash_hex_text(chosen, upper);
    let p = padded_hex_text(chosen as nat, 6, upper);
    lemma_padded_hex_six(chosen as nat, upper);
    assert forall|i: int| 0 <= i < label.len() implies accepted_char(#[trigger] label[i]) by {
        if i > 0 {
            assert(label[i] == p[i - 1]);
        }
    }
    assert forall|i: int| 0 <= i < label.len() implies (#[trigger] label[i] as u32) < 0x80 by {
        if i > 0 {
            assert(label[i] == p[i - 1]);
            assert(is_hex_digit(p[i - 1]));
        }
    }
    lemma_utf8_len_ascii(label);
    assert(utf8_len(Seq::<char>::empty()) == 0);
    assert(Seq::<char>::empty() + label =~= label);
}

/// Pressing enter right after picking a 24-bit palette colour changes
/// neither the colour nor the text the field shows.
pub proof fn picked_color_survives_enter(color: u32, key_char: Option<Seq<char>>)
    requires
        color <= 0xffffff,
    ensures
        after_key(color_label_text(color), color, "enter"@, key_char) == (
            color_label_text(color),
            color,
        ),
{
    written_colors_parse_back(color);
    assert("enter"@ != "backspace"@) by {
        reveal_strlit("enter");
        reveal_strlit("backspace");
        assert("enter"@.len() != "backspace"@.len());
    }
}

} // verus!
