//! Character-level helpers shared by the parsers: trimming, splitting,
//! number parsing and number formatting over `char` sequences.

use vstd::prelude::*;

verus! {

/// Unicode `White_Space`, the set that `char::is_whitespace` and `str::trim` use.
pub open spec fn is_whitespace(c: char) -> bool {
    let u = c as u32;
    ||| 0x09 <= u <= 0x0d
    ||| u == 0x20
    ||| u == 0x85
    ||| u == 0xa0
    ||| u == 0x1680
    ||| 0x2000 <= u <= 0x200a
    ||| u == 0x2028
    ||| u == 0x2029
    ||| u == 0x202f
    ||| u == 0x205f
    ||| u == 0x3000
}

/// `s` without its leading whitespace.
pub open spec fn trim_start(s: Seq<char>) -> Seq<char>
    decreases s.len(),
{
    if s.len() > 0 && is_whitespace(s[0]) {
        trim_start(s.drop_first())
    } else {
        s
    }
}

/// `s` without its trailing whitespace.
pub open spec fn trim_end(s: Seq<char>) -> Seq<char>
    decreases s.len(),
{
    if s.len() > 0 && is_whitespace(s.last()) {
        trim_end(s.drop_last())
    } else {
        s
    }
}

/// What `str::trim` returns: `s` without leading and trailing whitespace.
pub open spec fn trim(s: Seq<char>) -> Seq<char> {
    trim_end(trim_start(s))
}

/// Calls `String::push`, which appends one character to the end of the string.
#[verifier::external_body]
pub(crate) fn push_char(s: &mut String, c: char)
    ensures
        final(s)@ == old(s)@.push(c),
{
    s.push(c);
}

/// The characters of `s`, one per element.
pub fn chars_of(s: &str) -> (v: Vec<char>)
    ensures
        v@ == s@,
{
    let n = s.unicode_len();
    let mut v: Vec<char> = Vec::new();
    let mut i: usize = 0;
    while i < n
        invariant
            n == s@.len(),
            i <= n,
            v@ == s@.take(i as int),
        decreases n - i,
    {
        v.push(s.get_char(i));
        i += 1;
    }
    v
}

/// A `String` holding exactly the characters `v[lo..hi]`.
pub fn string_of(v: &Vec<char>, lo: usize, hi: usize) -> (s: String)
    requires
        lo <= hi <= v.len(),
    ensures
        s@ == v@.subrange(lo as int, hi as int),
{
    let mut s = String::new();
    let mut i: usize = lo;
    while i < hi
        invariant
            lo <= i <= hi <= v.len(),
            s@ == v@.subrange(lo as int, i as int),
        decreases hi - i,
    {
        push_char(&mut s, v[i]);
        i += 1;
    }
    s
}

pub fn is_whitespace_char(c: char) -> (b: bool)
    ensures
        b == is_whitespace(c),
{
    let u = c as u32;
    (0x09 <= u && u <= 0x0d) || u == 0x20 || u == 0x85 || u == 0xa0 || u == 0x1680 || (0x2000
        <= u && u <= 0x200a) || u == 0x2028 || u == 0x2029 || u == 0x202f || u == 0x205f || u
        == 0x3000
}

/// The bounds of `trim(v[lo..hi])` inside `v`.
pub fn trim_range(v: &Vec<char>, lo: usize, hi: usize) -> (r: (usize, usize))
    requires
        lo <= hi <= v.len(),
    ensures
        lo <= r.0 <= r.1 <= hi,
        v@.subrange(r.0 as int, r.1 as int) == trim(v@.subrange(lo as int, hi as int)),
{
    let mut a = lo;
    while a < hi && is_whitespace_char(v[a])
        invariant
            lo <= a <= hi <= v.len(),
            trim_start(v@.subrange(lo as int, hi as int)) == trim_start(
                v@.subrange(a as int, hi as int),
            ),
        decreases hi - a,
    {
        assert(v@.subrange(a as int, hi as int).drop_first() =~= v@.subrange(
            a + 1,
            hi as int,
        ));
        a += 1;
    }
    let mut b = hi;
    while b > a && is_whitespace_char(v[b - 1])
        invariant
            lo <= a <= b <= hi <= v.len(),
            trim_end(v@.subrange(a as int, hi as int)) == trim_end(
                v@.subrange(a as int, b as int),
            ),
        decreases b - a,
    {
        assert(v@.subrange(a as int, b as int).drop_last() =~= v@.subrange(
            a as int,
            b - 1,
        ));
        b -= 1;
    }
    (a, b)
}


/// What `str::split(sep)` yields, piece by piece: the maximal runs of `s`
/// between occurrences of `sep` (an empty `s` gives one empty piece).
pub open spec fn split(s: Seq<char>, sep: char) -> Seq<Seq<char>>
    decreases s.len(),
{
    if s.len() == 0 {
        seq![Seq::empty()]
    } else {
        let init = split(s.drop_last(), sep);
        if s.last() == sep {
            init.push(Seq::empty())
        } else {
            init.update(init.len() - 1, init.last().push(s.last()))
        }
    }
}

pub proof fn lemma_split_nonempty(s: Seq<char>, sep: char)
    ensures
        split(s, sep).len() >= 1,
    decreases s.len(),
{
    if s.len() > 0 {
        lemma_split_nonempty(s.drop_last(), sep);
    }
}

/// The pieces of `v` that a list of index ranges delimits.
pub open spec fn pieces(v: Seq<char>, ranges: Seq<(usize, usize)>) -> Seq<Seq<char>> {
    Seq::new(ranges.len(), |k: int| v.subrange(ranges[k].0 as int, ranges[k].1 as int))
}

/// The ranges inside `v` of the pieces of `split(v[lo..hi], sep)`.
pub fn split_ranges(v: &Vec<char>, lo: usize, hi: usize, sep: char) -> (ranges: Vec<(usize, usize)>)
    requires
        lo <= hi <= v.len(),
    ensures
        pieces(v@, ranges@) == split(v@.subrange(lo as int, hi as int), sep),
        forall|k: int|
            0 <= k < ranges.len() ==> lo <= #[trigger] ranges@[k].0 <= ranges@[k].1 <= hi,
{
    let mut ranges: Vec<(usize, usize)> = Vec::new();
    let mut start = lo;
    let mut i = lo;
    assert(pieces(v@, ranges@) + seq![v@.subrange(start as int, i as int)] =~~= split(
        v@.subrange(lo as int, i as int),
        sep,
    ));
    while i < hi
        invariant
            lo <= start <= i <= hi <= v.len(),
            forall|k: int|
                0 <= k < ranges.len() ==> lo <= #[trigger] ranges@[k].0 <= ranges@[k].1 <= start,
            split(v@.subrange(lo as int, i as int), sep) == pieces(v@, ranges@) + seq![
                v@.subrange(start as int, i as int),
            ],
        decreases hi - i,
    {
        let ghost t = v@.subrange(lo as int, i + 1);
        assert(t.drop_last() =~= v@.subrange(lo as int, i as int));
        assert(t.last() == v@[i as int]);
        if v[i] == sep {
            ranges.push((start, i));
            assert(forall|k: int|
                0 <= k < ranges.len() ==> lo <= #[trigger] ranges@[k].0 <= ranges@[k].1 <= i);
            start = i + 1;
            assert(pieces(v@, ranges@) + seq![v@.subrange(start as int, i + 1)] =~~= split(t, sep));
        } else {
            assert(v@.subrange(start as int, i as int).push(v@[i as int]) =~= v@.subrange(
                start as int,
                i + 1,
            ));
            assert(pieces(v@, ranges@) + seq![v@.subrange(start as int, i + 1)] =~~= split(t, sep));
        }
        i += 1;
    }
    ranges.push((start, hi));
    assert(pieces(v@, ranges@) =~= split(v@.subrange(lo as int, hi as int), sep));
    ranges
}

pub open spec fn is_decimal_digit(c: char) -> bool {
    0x30 <= (c as u32) <= 0x39
}

pub open spec fn decimal_digit_value(c: char) -> nat {
    ((c as u32) - 0x30) as nat
}

/// The number that a run of decimal digits spells.
pub open spec fn decimal_value(s: Seq<char>) -> nat
    decreases s.len(),
{
    if s.len() == 0 {
        0
    } else {
        decimal_value(s.drop_last()) * 10 + decimal_digit_value(s.last())
    }
}

pub open spec fn is_hex_digit(c: char) -> bool {
    let u = c as u32;
    ||| 0x30 <= u <= 0x39
    ||| 0x61 <= u <= 0x66
    ||| 0x41 <= u <= 0x46
}

pub open spec fn hex_digit_value(c: char) -> nat {
    let u = c as u32;
    if u <= 0x39 {
        (u - 0x30) as nat
    } else if u <= 0x46 {
        (u - 0x41 + 10) as nat
    } else {
        (u - 0x61 + 10) as nat
    }
}

/// The number that a run of hexadecimal digits spells.
pub open spec fn hex_value(s: Seq<char>) -> nat
    decreases s.len(),
{
    if s.len() == 0 {
        0
    } else {
        hex_value(s.drop_last()) * 16 + hex_digit_value(s.last())
    }
}

/// The digits that integer parsing reads: one leading `+` is skipped when
/// something follows it.
pub open spec fn unsigned_digits(s: Seq<char>) -> Seq<char> {
    if s.len() > 1 && s[0] == '+' {
        s.drop_first()
    } else {
        s
    }
}

/// What `from_str_radix(s, 10)` gives for an unsigned type whose largest value is `max`.
pub open spec fn parse_decimal(s: Seq<char>, max: nat) -> Option<nat> {
    let d = unsigned_digits(s);
    if d.len() > 0 && (forall|i: int| 0 <= i < d.len() ==> is_decimal_digit(#[trigger] d[i]))
        && decimal_value(d) <= max {
        Some(decimal_value(d))
    } else {
        None
    }
}

/// What `from_str_radix(s, 16)` gives for an unsigned type whose largest value is `max`.
pub open spec fn parse_hex(s: Seq<char>, max: nat) -> Option<nat> {
    let d = unsigned_digits(s);
    if d.len() > 0 && (forall|i: int| 0 <= i < d.len() ==> is_hex_digit(#[trigger] d[i]))
        && hex_value(d) <= max {
        Some(hex_value(d))
    } else {
        None
    }
}

pub proof fn lemma_decimal_value_grows(s: Seq<char>, i: int)
    requires
        0 <= i <= s.len(),
    ensures
        decimal_value(s.take(i)) <= decimal_value(s),
    decreases s.len(),
{
    if i < s.len() {
        assert(s.drop_last().take(i) =~= s.take(i));
        lemma_decimal_value_grows(s.drop_last(), i);
    } else {
        assert(s.take(i) =~= s);
    }
}

pub proof fn lemma_hex_value_grows(s: Seq<char>, i: int)
    requires
        0 <= i <= s.len(),
    ensures
        hex_value(s.take(i)) <= hex_value(s),
    decreases s.len(),
{
    if i < s.len() {
        assert(s.drop_last().take(i) =~= s.take(i));
        lemma_hex_value_grows(s.drop_last(), i);
    } else {
        assert(s.take(i) =~= s);
    }
}

/// Parses `v[lo..hi]` as `from_str_radix(_, 10)` does for an unsigned type bounded by `max`.
pub fn parse_decimal_range(v: &Vec<char>, lo: usize, hi: usize, max: u32) -> (r: Option<u32>)
    requires
        lo <= hi <= v.len(),
    ensures
        match parse_decimal(v@.subrange(lo as int, hi as int), max as nat) {
            Some(n) => r == Some(n as u32),
            None => r is None,
        },
{
    let ghost s = v@.subrange(lo as int, hi as int);
    let mut a = lo;
    if hi - lo > 1 && v[lo] == '+' {
        a = lo + 1;
    }
    assert(unsigned_digits(s) =~= v@.subrange(a as int, hi as int));
    if a == hi {
        return None;
    }
    let ghost d = v@.subrange(a as int, hi as int);
    let mut acc: u64 = 0;
    let mut i = a;
    while i < hi
        invariant
            a <= i <= hi <= v.len(),
            d == v@.subrange(a as int, hi as int),
            s == v@.subrange(lo as int, hi as int),
            unsigned_digits(s) == d,
            acc == decimal_value(d.take(i - a)),
            acc <= max,
            forall|k: int| 0 <= k < i - a ==> is_decimal_digit(#[trigger] d[k]),
        decreases hi - i,
    {
        let c = v[i];
        let u = c as u32;
        if u < 0x30 || u > 0x39 {
            assert(d[i - a] == c);
            assert(!is_decimal_digit(d[i - a]));
            assert(parse_decimal(s, max as nat) is None);
            return None;
        }
        assert(d.take(i - a + 1).drop_last() =~= d.take(i - a));
        acc = acc * 10 + (u - 0x30) as u64;
        if acc > max as u64 {
            proof {
                lemma_decimal_value_grows(d, i - a + 1);
                assert(decimal_value(d) > max);
                assert(parse_decimal(s, max as nat) is None);
            }
            return None;
        }
        i += 1;
    }
    assert(d.take(hi - a) =~= d);
    Some(acc as u32)
}

pub fn hex_digit_of(c: char) -> (r: Option<u32>)
    ensures
        is_hex_digit(c) ==> r == Some(hex_digit_value(c) as u32),
        !is_hex_digit(c) ==> r is None,
{
    let u = c as u32;
    if 0x30 <= u && u <= 0x39 {
        Some(u - 0x30)
    } else if 0x41 <= u && u <= 0x46 {
        Some(u - 0x41 + 10)
    } else if 0x61 <= u && u <= 0x66 {
        Some(u - 0x61 + 10)
    } else {
        None
    }
}

/// Parses `v[lo..hi]` as `from_str_radix(_, 16)` does for an unsigned type bounded by `max`.
pub fn parse_hex_range(v: &Vec<char>, lo: usize, hi: usize, max: u32) -> (r: Option<u32>)
    requires
        lo <= hi <= v.len(),
    ensures
        match parse_hex(v@.subrange(lo as int, hi as int), max as nat) {
            Some(n) => r == Some(n as u32),
            None => r is None,
        },
{
    let ghost s = v@.subrange(lo as int, hi as int);
    let mut a = lo;
    if hi - lo > 1 && v[lo] == '+' {
        a = lo + 1;
    }
    assert(unsigned_digits(s) =~= v@.subrange(a as int, hi as int));
    if a == hi {
        return None;
    }
    let ghost d = v@.subrange(a as int, hi as int);
    let mut acc: u64 = 0;
    let mut i = a;
    while i < hi
        invariant
            a <= i <= hi <= v.len(),
            d == v@.subrange(a as int, hi as int),
            s == v@.subrange(lo as int, hi as int),
            unsigned_digits(s) == d,
            acc == hex_value(d.take(i - a)),
            acc <= max,
            forall|k: int| 0 <= k < i - a ==> is_hex_digit(#[trigger] d[k]),
        decreases hi - i,
    {
        let digit = hex_digit_of(v[i]);
        match digit {
            None => {
                assert(!is_hex_digit(d[i - a]));
                return None;
            },
            Some(x) => {
                assert(d.take(i - a + 1).drop_last() =~= d.take(i - a));
                acc = acc * 16 + x as u64;
                if acc > max as u64 {
                    proof {
                        lemma_hex_value_grows(d, i - a + 1);
                    }
                    return None;
                }
            },
        }
        i += 1;
    }
    assert(d.take(hi - a) =~= d);
    Some(acc as u32)
}


/// The number of bytes that `c` takes in UTF-8.
pub open spec fn char_utf8_len(c: char) -> nat {
    let u = c as u32;
    if u < 0x80 {
        1
    } else if u < 0x800 {
        2
    } else if u < 0x10000 {
        3
    } else {
        4
    }
}

/// The number of bytes that `s` takes in UTF-8, which is what `str::len` counts.
pub open spec fn utf8_len(s: Seq<char>) -> nat
    decreases s.len(),
{
    if s.len() == 0 {
        0
    } else {
        utf8_len(s.drop_last()) + char_utf8_len(s.last())
    }
}

pub proof fn lemma_utf8_len_grows(s: Seq<char>, i: int)
    requires
        0 <= i <= s.len(),
    ensures
        utf8_len(s.take(i)) <= utf8_len(s),
    decreases s.len(),
{
    if i < s.len() {
        assert(s.drop_last().take(i) =~= s.take(i));
        lemma_utf8_len_grows(s.drop_last(), i);
    } else {
        assert(s.take(i) =~= s);
    }
}

/// Whether `v[lo..hi]` takes at most `cap` bytes in UTF-8.
pub fn utf8_len_at_most(v: &Vec<char>, lo: usize, hi: usize, cap: u32) -> (b: bool)
    requires
        lo <= hi <= v.len(),
    ensures
        b == (utf8_len(v@.subrange(lo as int, hi as int)) <= cap),
{
    let ghost s = v@.subrange(lo as int, hi as int);
    let mut acc: u64 = 0;
    let mut i = lo;
    while i < hi
        invariant
            lo <= i <= hi <= v.len(),
            s == v@.subrange(lo as int, hi as int),
            acc == utf8_len(s.take(i - lo)),
            acc <= cap,
        decreases hi - i,
    {
        assert(s.take(i - lo + 1).drop_last() =~= s.take(i - lo));
        let u = v[i] as u32;
        let w: u64 = if u < 0x80 {
            1
        } else if u < 0x800 {
            2
        } else if u < 0x10000 {
            3
        } else {
            4
        };
        acc = acc + w;
        if acc > cap as u64 {
            proof {
                lemma_utf8_len_grows(s, i - lo + 1);
            }
            return false;
        }
        i += 1;
    }
    assert(s.take(hi - lo) =~= s);
    true
}

/// The character of a decimal digit.
pub open spec fn digit_char(d: nat) -> char {
    (d + 0x30) as char
}

/// The character of a hexadecimal digit, in upper or lower case.
pub open spec fn hex_char(d: nat, upper: bool) -> char {
    if d < 10 {
        (d + 0x30) as char
    } else if upper {
        (d - 10 + 0x41) as char
    } else {
        (d - 10 + 0x61) as char
    }
}

/// `n` in decimal without leading zeros, as `Display` writes it.
pub open spec fn decimal_text(n: nat) -> Seq<char>
    decreases n,
{
    if n < 10 {
        seq![digit_char(n)]
    } else {
        decimal_text(n / 10).push(digit_char(n % 10))
    }
}

/// `n` in hexadecimal without leading zeros, as `{:x}` or `{:X}` writes it.
pub open spec fn hex_text(n: nat, upper: bool) -> Seq<char>
    decreases n,
{
    if n < 16 {
        seq![hex_char(n, upper)]
    } else {
        hex_text(n / 16, upper).push(hex_char(n % 16, upper))
    }
}

/// `count` zero characters.
pub open spec fn zeros(count: nat) -> Seq<char> {
    Seq::new(count, |i: int| '0')
}

/// `n` in hexadecimal, zero-padded to at least `width` digits, as `{:06x}` writes it for six.
pub open spec fn padded_hex_text(n: nat, width: nat, upper: bool) -> Seq<char> {
    let t = hex_text(n, upper);
    if t.len() < width {
        zeros((width - t.len()) as nat) + t
    } else {
        t
    }
}

fn digit_to_char(d: u64) -> (c: char)
    requires
        d < 10,
    ensures
        c == digit_char(d as nat),
{
    let b: u8 = 0x30 + d as u8;
    b as char
}

fn hex_digit_to_char(d: u64, upper: bool) -> (c: char)
    requires
        d < 16,
    ensures
        c == hex_char(d as nat, upper),
{
    let b: u8 = if d < 10 {
        0x30 + d as u8
    } else if upper {
        0x41 + (d as u8 - 10)
    } else {
        0x61 + (d as u8 - 10)
    };
    b as char
}

/// Appends the decimal text of `n`.
pub fn push_decimal(s: &mut String, n: u64)
    ensures
        final(s)@ == old(s)@ + decimal_text(n as nat),
    decreases n,
{
    if n >= 10 {
        push_decimal(s, n / 10);
    }
    push_char(s, digit_to_char(n % 10));
    assert(old(s)@ + decimal_text(n as nat) =~= final(s)@);
}

/// Appends the hexadecimal text of `n` without leading zeros.
pub fn push_hex(s: &mut String, n: u64, upper: bool)
    ensures
        final(s)@ == old(s)@ + hex_text(n as nat, upper),
    decreases n,
{
    if n >= 16 {
        push_hex(s, n / 16, upper);
    }
    push_char(s, hex_digit_to_char(n % 16, upper));
    assert(old(s)@ + hex_text(n as nat, upper) =~= final(s)@);
}

/// The number of digits in the hexadecimal text of `n`.
fn hex_len(n: u64, Ghost(upper): Ghost<bool>) -> (k: u64)
    ensures
        k == hex_text(n as nat, upper).len(),
        k <= n + 1,
    decreases n,
{
    if n >= 16 {
        hex_len(n / 16, Ghost(upper)) + 1
    } else {
        1
    }
}

/// Appends `n` in hexadecimal, zero-padded to at least `width` digits.
pub fn push_padded_hex(s: &mut String, n: u64, width: u64, upper: bool)
    ensures
        final(s)@ == old(s)@ + padded_hex_text(n as nat, width as nat, upper),
{
    let k = hex_len(n, Ghost(upper));
    let ghost start = s@;
    if k < width {
        let mut z: u64 = 0;
        while z < width - k
            invariant
                k < width,
                z <= width - k,
                s@ == start + zeros(z as nat),
            decreases width - k - z,
        {
            push_char(s, '0');
            assert(start + zeros((z + 1) as nat) =~= s@);
            z += 1;
        }
    }
    let ghost mid = s@;
    push_hex(s, n, upper);
    assert(start + padded_hex_text(n as nat, width as nat, upper) =~= s@);
}


/// Whether two strings hold the same characters.
pub fn str_equals(a: &str, b: &str) -> (r: bool)
    ensures
        r == (a@ == b@),
{
    let n = a.unicode_len();
    if n != b.unicode_len() {
        return false;
    }
    let mut i: usize = 0;
    while i < n
        invariant
            n == a@.len() == b@.len(),
            i <= n,
            a@.take(i as int) == b@.take(i as int),
        decreases n - i,
    {
        if a.get_char(i) != b.get_char(i) {
            return false;
        }
        assert(a@.take(i + 1) =~= a@.take(i as int).push(a@[i as int]));
        assert(b@.take(i + 1) =~= b@.take(i as int).push(b@[i as int]));
        i += 1;
    }
    assert(a@ =~= a@.take(n as int));
    assert(b@ =~= b@.take(n as int));
    true
}


pub proof fn lemma_utf8_len_concat(a: Seq<char>, b: Seq<char>)
    ensures
        utf8_len(a + b) == utf8_len(a) + utf8_len(b),
    decreases b.len(),
{
    if b.len() == 0 {
        assert(a + b =~= a);
    } else {
        assert((a + b).drop_last() =~= a + b.drop_last());
        lemma_utf8_len_concat(a, b.drop_last());
    }
}

pub proof fn lemma_utf8_len_at_least_len(s: Seq<char>)
    ensures
        utf8_len(s) >= s.len(),
    decreases s.len(),
{
    if s.len() > 0 {
        lemma_utf8_len_at_least_len(s.drop_last());
    }
}


pub proof fn lemma_hex_char(d: nat, upper: bool)
    requires
        d < 16,
    ensures
        is_hex_digit(hex_char(d, upper)),
        hex_digit_value(hex_char(d, upper)) == d,
        (hex_char(d, upper) as u32) < 0x80,
{
}

/// The hexadecimal text of `n` is made of hex digits and spells `n`.
pub proof fn lemma_hex_text(n: nat, upper: bool)
    ensures
        hex_text(n, upper).len() >= 1,
        forall|i: int|
            0 <= i < hex_text(n, upper).len() ==> is_hex_digit(#[trigger] hex_text(n, upper)[i])
                && (hex_text(n, upper)[i] as u32) < 0x80,
        hex_value(hex_text(n, upper)) == n,
    decreases n,
{
    lemma_hex_char(n % 16, upper);
    if n >= 16 {
        lemma_hex_text(n / 16, upper);
        let t = hex_text(n, upper);
        assert(t.drop_last() == hex_text(n / 16, upper));
        assert(t.last() == hex_char(n % 16, upper));
        assert(hex_value(t) == hex_value(t.drop_last()) * 16 + hex_digit_value(t.last()));
        assert((n / 16) * 16 + n % 16 == n);
    } else {
        let t = hex_text(n, upper);
        assert(t.drop_last() =~= Seq::<char>::empty());
        assert(hex_value(Seq::<char>::empty()) == 0);
        assert(hex_value(t) == hex_value(t.drop_last()) * 16 + hex_digit_value(t.last()));
    }
}

/// A number below `16^k` has at most `k` hexadecimal digits.
pub proof fn lemma_hex_text_len(n: nat, k: nat, upper: bool)
    requires
        k >= 1,
        n < pow16(k),
    ensures
        hex_text(n, upper).len() <= k,
    decreases k,
{
    if n >= 16 {
        assert(k >= 2) by {
            if k == 1 {
                assert(pow16(1) == 16) by {
                    assert(pow16(0) == 1);
                }
            }
        }
        assert(n / 16 < pow16((k - 1) as nat));
        lemma_hex_text_len(n / 16, (k - 1) as nat, upper);
    }
}

pub open spec fn pow16(k: nat) -> nat
    decreases k,
{
    if k == 0 {
        1
    } else {
        16 * pow16((k - 1) as nat)
    }
}

/// Leading zeros change neither the value nor the digit-ness of hex text.
pub proof fn lemma_zeros_prefix(k: nat, t: Seq<char>)
    ensures
        hex_value(zeros(k) + t) == hex_value(t),
        forall|i: int| 0 <= i < k ==> is_hex_digit(#[trigger] zeros(k)[i]) && (zeros(k)[i] as u32)
            < 0x80,
    decreases t.len() + k,
{
    if t.len() > 0 {
        assert((zeros(k) + t).drop_last() =~= zeros(k) + t.drop_last());
        lemma_zeros_prefix(k, t.drop_last());
    } else if k > 0 {
        assert((zeros(k) + t).drop_last() =~= zeros((k - 1) as nat) + t);
        lemma_zeros_prefix((k - 1) as nat, t);
        assert(zeros(k) + t =~= zeros(k));
    } else {
        assert(zeros(k) + t =~= Seq::<char>::empty());
    }
}

/// Text made of ASCII characters takes one byte per character.
pub proof fn lemma_utf8_len_ascii(s: Seq<char>)
    requires
        forall|i: int| 0 <= i < s.len() ==> (#[trigger] s[i] as u32) < 0x80,
    ensures
        utf8_len(s) == s.len(),
    decreases s.len(),
{
    if s.len() > 0 {
        lemma_utf8_len_ascii(s.drop_last());
    }
}

/// A colour's padded hexadecimal text: six ASCII hex digits that spell it.
pub proof fn lemma_padded_hex_six(n: nat, upper: bool)
    requires
        n <= 0xffffff,
    ensures
        padded_hex_text(n, 6, upper).len() == 6,
        utf8_len(padded_hex_text(n, 6, upper)) == 6,
        forall|i: int| 0 <= i < 6 ==> is_hex_digit(#[trigger] padded_hex_text(n, 6, upper)[i]),
        hex_value(padded_hex_text(n, 6, upper)) == n,
{
    let t = hex_text(n, upper);
    lemma_hex_text(n, upper);
    assert(pow16(6) == 0x1000000) by {
        reveal_with_fuel(pow16, 7);
    }
    lemma_hex_text_len(n, 6, upper);
    let p = padded_hex_text(n, 6, upper);
    if t.len() < 6 {
        let k = (6 - t.len()) as nat;
        lemma_zeros_prefix(k, t);
        assert forall|i: int| 0 <= i < 6 implies is_hex_digit(#[trigger] p[i]) && (p[i] as u32)
            < 0x80 by {
            if i < k {
                assert(p[i] == zeros(k)[i]);
            } else {
                assert(p[i] == t[i - k]);
            }
        }
    }
    assert forall|i: int| 0 <= i < p.len() implies (#[trigger] p[i] as u32) < 0x80 by {
        if t.len() < 6 {
            let k = (6 - t.len()) as nat;
            if i < k {
                assert(p[i] == zeros(k)[i]);
            } else {
                assert(p[i] == t[i - k]);
            }
        }
    }
    lemma_utf8_len_ascii(p);
}


/// Every character of `s` is a hexadecimal digit.
pub open spec fn all_hex(s: Seq<char>) -> bool {
    forall|i: int| 0 <= i < s.len() ==> is_hex_digit(#[trigger] s[i])
}

pub proof fn lemma_pow16_grows(j: nat, k: nat)
    requires
        j <= k,
    ensures
        1 <= pow16(j) <= pow16(k),
    decreases k,
{
    if k > 0 {
        if j < k {
            lemma_pow16_grows(j, (k - 1) as nat);
        } else {
            lemma_pow16_grows((k - 1) as nat, (k - 1) as nat);
        }
    }
}

/// `k` hexadecimal digits spell a number below `16^k`.
pub proof fn lemma_hex_value_bound(s: Seq<char>)
    requires
        all_hex(s),
    ensures
        hex_value(s) < pow16(s.len()),
    decreases s.len(),
{
    if s.len() > 0 {
        assert(is_hex_digit(s[s.len() - 1]));
        assert(all_hex(s.drop_last()));
        lemma_hex_value_bound(s.drop_last());
        assert(hex_digit_value(s.last()) < 16);
    }
}

/// Reads `v[lo..hi]`, at most eight characters, as plain hexadecimal digits
/// with no sign: `None` when some character is not a hex digit.
pub fn parse_hex_digits(v: &Vec<char>, lo: usize, hi: usize) -> (r: Option<u32>)
    requires
        lo <= hi <= v.len(),
        hi - lo <= 8,
    ensures
        r is Some <==> all_hex(v@.subrange(lo as int, hi as int)),
        r matches Some(n) ==> n == hex_value(v@.subrange(lo as int, hi as int)),
{
    let ghost d = v@.subrange(lo as int, hi as int);
    let mut acc: u64 = 0;
    let mut i = lo;
    proof {
        lemma_pow16_grows(0, 8);
        assert(d.take(0) =~= Seq::<char>::empty());
    }
    while i < hi
        invariant
            lo <= i <= hi <= v.len(),
            hi - lo <= 8,
            d == v@.subrange(lo as int, hi as int),
            all_hex(d.take(i - lo)),
            acc == hex_value(d.take(i - lo)),
            acc < pow16((i - lo) as nat),
            pow16((i - lo) as nat) <= pow16(8),
        decreases hi - i,
    {
        assert(d.take(i - lo + 1).drop_last() =~= d.take(i - lo));
        match hex_digit_of(v[i]) {
            None => {
                assert(!is_hex_digit(d[i - lo]));
                return None;
            },
            Some(x) => {
                proof {
                    assert(pow16(8) == 0x1_0000_0000) by {
                        reveal_with_fuel(pow16, 9);
                    }
                    lemma_pow16_grows((i - lo + 1) as nat, 8);
                    assert(all_hex(d.take(i - lo + 1))) by {
                        assert forall|k: int| 0 <= k < i - lo + 1 implies is_hex_digit(
                            #[trigger] d.take(i - lo + 1)[k],
                        ) by {
                            if k < i - lo {
                                assert(d.take(i - lo + 1)[k] == d.take(i - lo)[k]);
                            }
                        }
                    }
                }
                acc = acc * 16 + x as u64;
            },
        }
        i += 1;
    }
    assert(d.take(hi - lo) =~= d);
    proof {
        assert(pow16(8) == 0x1_0000_0000) by {
            reveal_with_fuel(pow16, 9);
        }
    }
    Some(acc as u32)
}


/// The decimal text of `n` is made of ASCII digits and spells `n`.
pub proof fn lemma_decimal_text(n: nat)
    ensures
        decimal_text(n).len() >= 1,
        forall|i: int|
            0 <= i < decimal_text(n).len() ==> is_decimal_digit(#[trigger] decimal_text(n)[i])
                && (decimal_text(n)[i] as u32) < 0x80,
        decimal_value(decimal_text(n)) == n,
    decreases n,
{
    let t = decimal_text(n);
    if n >= 10 {
        lemma_decimal_text(n / 10);
        assert(t.drop_last() == decimal_text(n / 10));
        assert(t.last() == digit_char(n % 10));
        assert(decimal_value(t) == decimal_value(t.drop_last()) * 10 + decimal_digit_value(t.last()));
        assert((n / 10) * 10 + n % 10 == n);
    } else {
        assert(t.drop_last() =~= Seq::<char>::empty());
        assert(decimal_value(Seq::<char>::empty()) == 0);
        assert(decimal_value(t) == decimal_value(t.drop_last()) * 10 + decimal_digit_value(t.last()));
    }
}

/// Appending text without the separator extends the last piece of a split.
pub proof fn lemma_split_append_free(p: Seq<char>, t: Seq<char>, sep: char)
    requires
        forall|i: int| 0 <= i < t.len() ==> #[trigger] t[i] != sep,
    ensures
        split(p + t, sep) == split(p, sep).update(
            split(p, sep).len() - 1,
            split(p, sep).last() + t,
        ),
    decreases t.len(),
{
    lemma_split_nonempty(p, sep);
    if t.len() == 0 {
        assert(p + t =~= p);
        assert(split(p, sep).last() + t =~= split(p, sep).last());
        assert(split(p, sep).update(split(p, sep).len() - 1, split(p, sep).last() + t) =~= split(
            p,
            sep,
        ));
    } else {
        let init = t.drop_last();
        lemma_split_append_free(p, init, sep);
        assert((p + t).drop_last() =~= p + init);
        assert((p + t).last() == t.last());
        assert(t[t.len() - 1] != sep);
        let sp = split(p, sep);
        assert(sp.last() + init + seq![t.last()] =~= sp.last() + t);
        assert(split(p + t, sep) =~~= sp.update(sp.len() - 1, sp.last() + t));
    }
}

/// Splitting right after a separator starts a new, empty piece.
pub proof fn lemma_split_push_separator(p: Seq<char>, sep: char)
    ensures
        split(p.push(sep), sep) == split(p, sep).push(Seq::empty()),
{
    assert(p.push(sep).drop_last() =~= p);
}

/// Text that neither starts nor ends with whitespace is its own trim.
pub proof fn lemma_trim_unchanged(s: Seq<char>)
    requires
        s.len() >= 1,
        !is_whitespace(s[0]),
        !is_whitespace(s.last()),
    ensures
        trim(s) == s,
{
}

} // verus!
