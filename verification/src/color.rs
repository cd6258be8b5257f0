use vstd::prelude::*;
use vstd::string::*;
use vstd::utf8::*;

use crate::text::{decimal, push_char, push_decimal};

verus! {

/// The value of an ASCII hexadecimal digit byte, if it is one.
pub open spec fn hex_digit_value(b: u8) -> Option<u8> {
    if 0x30 <= b <= 0x39 {
        Some((b - 0x30) as u8)
    } else if 0x61 <= b <= 0x66 {
        Some((b - 0x61 + 10) as u8)
    } else if 0x41 <= b <= 0x46 {
        Some((b - 0x41 + 10) as u8)
    } else {
        None
    }
}

/// Two bytes read as a base-16 `u8`: both must be hexadecimal digits.
pub open spec fn parse_byte_pair(b0: u8, b1: u8) -> Option<u8> {
    match (hex_digit_value(b0), hex_digit_value(b1)) {
        (Some(h), Some(l)) => Some((16 * h + l) as u8),
        _ => None,
    }
}

/// An opaque colour from its red, green and blue channels (`0xRRGGBBFF`).
pub open spec fn opaque_rgb(r: u8, g: u8, b: u8) -> u32 {
    (r as int * 0x100_0000 + g as int * 0x1_0000 + b as int * 0x100 + 0xFF) as u32
}

/// A UTF-8 continuation byte (`10xxxxxx`): never the first byte of a character.
pub open spec fn is_continuation(b: u8) -> bool {
    0x80 <= b < 0xC0
}

/// The bytes left after every leading `#`.
pub open spec fn strip_hashes(b: Seq<u8>) -> Seq<u8>
    decreases b.len(),
{
    if b.len() > 0 && b[0] == 0x23 {
        strip_hashes(b.drop_first())
    } else {
        b
    }
}

/// The hexadecimal colour text (after its `#`s) on which parsing would cut a
/// character in two: a three-byte text whose first byte, or whose second byte
/// after a valid first digit, ends mid-character; a six-byte text whose first
/// pair, or whose second pair after a valid first pair, ends mid-character.
pub open spec fn hex_color_cuts_char(t: Seq<u8>) -> bool {
    ||| t.len() == 3 && (is_continuation(t[1]) || (parse_byte_pair(t[0], t[0]) is Some
        && is_continuation(t[2])))
    ||| t.len() == 6 && (is_continuation(t[2]) || (parse_byte_pair(t[0], t[1]) is Some
        && is_continuation(t[4])))
}

/// The colour a hexadecimal colour text (after its `#`s) stands for: three
/// digits, each doubled, or six digits, as `0xRRGGBBFF`.
pub open spec fn spec_parse_hex_color(t: Seq<u8>) -> Option<u32> {
    if t.len() == 3 {
        match (
            parse_byte_pair(t[0], t[0]),
            parse_byte_pair(t[1], t[1]),
            parse_byte_pair(t[2], t[2]),
        ) {
            (Some(r), Some(g), Some(b)) => Some(opaque_rgb(r, g, b)),
            _ => None,
        }
    } else if t.len() == 6 {
        match (
            parse_byte_pair(t[0], t[1]),
            parse_byte_pair(t[2], t[3]),
            parse_byte_pair(t[4], t[5]),
        ) {
            (Some(r), Some(g), Some(b)) => Some(opaque_rgb(r, g, b)),
            _ => None,
        }
    } else {
        None
    }
}

fn hex_digit(b: u8) -> (r: Option<u8>)
    ensures
        r == hex_digit_value(b),
{
    if 0x30 <= b && b <= 0x39 {
        Some(b - 0x30)
    } else if 0x61 <= b && b <= 0x66 {
        Some(b - 0x61 + 10)
    } else if 0x41 <= b && b <= 0x46 {
        Some(b - 0x41 + 10)
    } else {
        None
    }
}

fn byte_pair(b0: u8, b1: u8) -> (r: Option<u8>)
    ensures
        r == parse_byte_pair(b0, b1),
{
    match (hex_digit(b0), hex_digit(b1)) {
        (Some(h), Some(l)) => Some(16 * h + l),
        _ => None,
    }
}

fn rgb(r: u8, g: u8, b: u8) -> (c: u32)
    ensures
        c == opaque_rgb(r, g, b),
{
    (r as u32) * 0x100_0000 + (g as u32) * 0x1_0000 + (b as u32) * 0x100 + 0xFF
}

/// Parses `#rgb` or `#rrggbb` (any number of leading `#`, hexadecimal digits
/// in either case) into an opaque `0xRRGGBBFF` colour.
pub fn parse_hex_color(hex: &str) -> (r: Option<u32>)
    requires
        !hex_color_cuts_char(strip_hashes(encode_utf8(hex@))),
    ensures
        r == spec_parse_hex_color(strip_hashes(encode_utf8(hex@))),
{
    let b = hex.as_bytes();
    let n = b.len();
    let mut k: usize = 0;
    assert(b@.skip(0) =~= b@);
    while k < n && b[k] == 0x23
        invariant
            n == b@.len(),
            0 <= k <= n,
            strip_hashes(b@.skip(k as int)) == strip_hashes(b@),
        decreases n - k,
    {
        assert(b@.skip(k as int).drop_first() =~= b@.skip(k + 1));
        k = k + 1;
    }
    let ghost t = b@.skip(k as int);
    assert(strip_hashes(t) == t);
    let len = n - k;
    if len == 3 {
        let r = match byte_pair(b[k], b[k]) {
            Some(v) => v,
            None => return None,
        };
        let g = match byte_pair(b[k + 1], b[k + 1]) {
            Some(v) => v,
            None => return None,
        };
        let bl = match byte_pair(b[k + 2], b[k + 2]) {
            Some(v) => v,
            None => return None,
        };
        Some(rgb(r, g, bl))
    } else if len == 6 {
        let r = match byte_pair(b[k], b[k + 1]) {
            Some(v) => v,
            None => return None,
        };
        let g = match byte_pair(b[k + 2], b[k + 3]) {
            Some(v) => v,
            None => return None,
        };
        let bl = match byte_pair(b[k + 4], b[k + 5]) {
            Some(v) => v,
            None => return None,
        };
        Some(rgb(r, g, bl))
    } else {
        None
    }
}

/// Whether parsing this colour text would cut a character in two.
pub fn hex_color_would_cut(hex: &str) -> (r: bool)
    ensures
        r == hex_color_cuts_char(strip_hashes(encode_utf8(hex@))),
{
    let b = hex.as_bytes();
    let n = b.len();
    let mut k: usize = 0;
    assert(b@.skip(0) =~= b@);
    while k < n && b[k] == 0x23
        invariant
            n == b@.len(),
            0 <= k <= n,
            strip_hashes(b@.skip(k as int)) == strip_hashes(b@),
        decreases n - k,
    {
        assert(b@.skip(k as int).drop_first() =~= b@.skip(k + 1));
        k = k + 1;
    }
    let ghost t = b@.skip(k as int);
    assert(strip_hashes(t) == t);
    let len = n - k;
    if len == 3 {
        (0x80 <= b[k + 1] && b[k + 1] < 0xC0) || (byte_pair(b[k], b[k]).is_some() && 0x80 <= b[k + 2]
            && b[k + 2] < 0xC0)
    } else if len == 6 {
        (0x80 <= b[k + 2] && b[k + 2] < 0xC0) || (byte_pair(b[k], b[k + 1]).is_some() && 0x80
            <= b[k + 4] && b[k + 4] < 0xC0)
    } else {
        false
    }
}

/// Stripping leading `#`s leaves a suffix of the bytes.
pub proof fn lemma_strip_hashes_suffix(b: Seq<u8>)
    ensures
        exists|k: int| 0 <= k <= b.len() && #[trigger] b.skip(k) == strip_hashes(b),
    decreases b.len(),
{
    if b.len() > 0 && b[0] == 0x23 {
        lemma_strip_hashes_suffix(b.drop_first());
        let k = choose|k: int| 0 <= k <= b.drop_first().len() && #[trigger] b.drop_first().skip(k)
            == strip_hashes(b.drop_first());
        assert(b.skip(k + 1) =~= b.drop_first().skip(k));
    } else {
        assert(b.skip(0) =~= b);
    }
}

/// Parsing colour text made only of ASCII characters never cuts a character.
pub proof fn lemma_ascii_hex_never_cuts(hex: &str)
    requires
        is_ascii(hex),
    ensures
        !hex_color_cuts_char(strip_hashes(encode_utf8(hex@))),
{
    broadcast use is_ascii_chars_encode_utf8;

    let b = encode_utf8(hex@);
    lemma_strip_hashes_suffix(b);
    let k = choose|k: int| 0 <= k <= b.len() && #[trigger] b.skip(k) == strip_hashes(b);
    let t = b.skip(k);
    assert forall|i: int| 0 <= i < t.len() implies t[i] < 0x80 by {
        assert(t[i] == b[i + k]);
        assert(hex@[i + k] as u8 == b[i + k]);
    }
}

/// The lower-case hexadecimal digit of a nibble.
pub open spec fn hex_nibble(v: nat) -> char {
    if v < 10 {
        ((v + 48) as u32) as char
    } else {
        ((v + 87) as u32) as char
    }
}

pub(crate) fn nibble_char(v: u32) -> (c: char)
    requires
        v < 16,
    ensures
        c == hex_nibble(v as nat),
{
    if v == 0 {
        '0'
    } else if v == 1 {
        '1'
    } else if v == 2 {
        '2'
    } else if v == 3 {
        '3'
    } else if v == 4 {
        '4'
    } else if v == 5 {
        '5'
    } else if v == 6 {
        '6'
    } else if v == 7 {
        '7'
    } else if v == 8 {
        '8'
    } else if v == 9 {
        '9'
    } else if v == 10 {
        'a'
    } else if v == 11 {
        'b'
    } else if v == 12 {
        'c'
    } else if v == 13 {
        'd'
    } else if v == 14 {
        'e'
    } else {
        'f'
    }
}

/// The red, green, blue and alpha channels of a packed `0xRRGGBBAA` colour.
pub open spec fn red(c: u32) -> nat {
    ((c / 0x100_0000) % 0x100) as nat
}

pub open spec fn green(c: u32) -> nat {
    ((c / 0x1_0000) % 0x100) as nat
}

pub open spec fn blue(c: u32) -> nat {
    ((c / 0x100) % 0x100) as nat
}

pub open spec fn alpha(c: u32) -> nat {
    (c % 0x100) as nat
}

/// Two lower-case hexadecimal digits of a byte value.
pub open spec fn hex_byte(v: nat) -> Seq<char> {
    seq![hex_nibble(v / 16), hex_nibble(v % 16)]
}

/// The SVG colour `#rrggbb` of a packed RGBA colour (alpha left out).
pub open spec fn spec_color_hex(c: u32) -> Seq<char> {
    seq!['#'] + hex_byte(red(c)) + hex_byte(green(c)) + hex_byte(blue(c))
}

fn push_hex_byte(s: &mut String, v: u32)
    requires
        v < 256,
    ensures
        final(s)@ == old(s)@ + hex_byte(v as nat),
{
    push_char(s, nibble_char(v / 16));
    push_char(s, nibble_char(v % 16));
    assert(final(s)@ =~= old(s)@ + hex_byte(v as nat));
}

/// Convert a packed RGBA u32 to a 6-digit hex string suitable for SVG.
pub fn color_u32_to_hex(color: u32) -> (s: String)
    ensures
        s@ == spec_color_hex(color),
{
    let mut s = String::new();
    push_char(&mut s, '#');
    push_hex_byte(&mut s, (color / 0x100_0000) % 0x100);
    push_hex_byte(&mut s, (color / 0x1_0000) % 0x100);
    push_hex_byte(&mut s, (color / 0x100) % 0x100);
    assert(s@ =~= spec_color_hex(color));
    s
}

/// The alpha channel over 255 as hundredths, rounded to the nearest: what
/// formatting `a / 255.0` with two decimals shows (no value of `a` lies
/// within rounding error of a half-hundredth).
pub open spec fn alpha_hundredths(a: nat) -> nat {
    (200 * a + 255) / 510
}

/// A number of hundredths written with two decimals, e.g. `0.50`, `1.00`.
pub open spec fn two_decimals(h: nat) -> Seq<char> {
    decimal(h / 100) + seq!['.', digit_of(h % 100 / 10), digit_of(h % 10)]
}

/// The character of a decimal digit.
pub open spec fn digit_of(d: nat) -> char {
    ((d + 48) as u32) as char
}

/// The CSS text `rgba(r,g,b,a)` of a packed RGBA colour, alpha as a fraction
/// with two decimals.
pub open spec fn spec_color_css(c: u32) -> Seq<char> {
    "rgba("@ + decimal(red(c)) + seq![','] + decimal(green(c)) + seq![','] + decimal(blue(c))
        + seq![','] + two_decimals(alpha_hundredths(alpha(c))) + seq![')']
}

/// Convert a packed RGBA u32 to a CSS `rgba()` string.
pub fn color_u32_to_css(color: u32) -> (s: String)
    ensures
        s@ == spec_color_css(color),
{
    let r = (color / 0x100_0000) % 0x100;
    let g = (color / 0x1_0000) % 0x100;
    let b = (color / 0x100) % 0x100;
    let a = color % 0x100;
    let h = (200 * a + 255) / 510;
    let mut s = String::from_str("rgba(");
    push_decimal(&mut s, r as u64);
    push_char(&mut s, ',');
    push_decimal(&mut s, g as u64);
    push_char(&mut s, ',');
    push_decimal(&mut s, b as u64);
    push_char(&mut s, ',');
    push_decimal(&mut s, (h / 100) as u64);
    push_char(&mut s, '.');
    push_char(&mut s, crate::text::char_of_digit(h % 100 / 10));
    push_char(&mut s, crate::text::char_of_digit(h % 10));
    push_char(&mut s, ')');
    assert(s@ =~= spec_color_css(color));
    s
}


/// The byte of a hexadecimal digit character reads back as its value.
proof fn lemma_hex_nibble_reads_back(v: nat)
    requires
        v < 16,
    ensures
        (hex_nibble(v) as u32) < 0x80,
        hex_nibble(v) as u8 != 0x23,
        hex_digit_value(hex_nibble(v) as u8) == Some(v as u8),
{
}

/// Two digits of a byte value read back as that value.
proof fn lemma_hex_byte_reads_back(v: nat)
    requires
        v < 256,
    ensures
        parse_byte_pair(hex_byte(v)[0] as u8, hex_byte(v)[1] as u8) == Some(v as u8),
{
    lemma_hex_nibble_reads_back(v / 16);
    lemma_hex_nibble_reads_back(v % 16);
    assert(16 * (v / 16) + v % 16 == v);
}

/// Parsing the SVG colour text of a colour gives the colour back, made
/// opaque: the alpha channel, which the text leaves out, reads as `0xFF`.
pub proof fn law_hex_text_round_trip(c: u32)
    ensures
        spec_parse_hex_color(strip_hashes(encode_utf8(spec_color_hex(c)))) == Some(
            (c - alpha(c) + 0xFF) as u32,
        ),
{
    let t = spec_color_hex(c);
    let (r, g, b) = (red(c), green(c), blue(c));
    lemma_hex_nibble_reads_back(r / 16);
    lemma_hex_nibble_reads_back(r % 16);
    lemma_hex_nibble_reads_back(g / 16);
    lemma_hex_nibble_reads_back(g % 16);
    lemma_hex_nibble_reads_back(b / 16);
    lemma_hex_nibble_reads_back(b % 16);
    assert(t.len() == 7);
    assert(t[0] == '#');
    assert(t[1] == hex_nibble(r / 16) && t[2] == hex_nibble(r % 16));
    assert(t[3] == hex_nibble(g / 16) && t[4] == hex_nibble(g % 16));
    assert(t[5] == hex_nibble(b / 16) && t[6] == hex_nibble(b % 16));
    assert(is_ascii_chars(t));
    is_ascii_chars_encode_utf8(t);
    let e = encode_utf8(t);
    assert(e[0] == 0x23);
    assert(e.drop_first()[0] == t[1] as u8);
    assert(strip_hashes(e) == strip_hashes(e.drop_first()));
    assert(strip_hashes(e.drop_first()) == e.drop_first());
    let d = e.drop_first();
    assert(d.len() == 6);
    lemma_hex_byte_reads_back(r);
    lemma_hex_byte_reads_back(g);
    lemma_hex_byte_reads_back(b);
    assert(d[0] == t[1] as u8 && d[1] == t[2] as u8);
    assert(d[2] == t[3] as u8 && d[3] == t[4] as u8);
    assert(d[4] == t[5] as u8 && d[5] == t[6] as u8);
    assert(hex_byte(r)[0] == t[1] && hex_byte(r)[1] == t[2]);
    assert(hex_byte(g)[0] == t[3] && hex_byte(g)[1] == t[4]);
    assert(hex_byte(b)[0] == t[5] && hex_byte(b)[1] == t[6]);
    assert(c == r * 0x100_0000 + g * 0x1_0000 + b * 0x100 + alpha(c)) by (nonlinear_arith)
        requires
            r == (c / 0x100_0000) % 0x100,
            g == (c / 0x1_0000) % 0x100,
            b == (c / 0x100) % 0x100,
            alpha(c) == c % 0x100,
    ;
}

} // verus!
