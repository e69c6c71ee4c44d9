//! Cosmetic colours derived from hexadecimal hashes.
use crate::hashing::{hex_bytes, hex_decode, hex_encode_upper, hex_upper, is_hex_text};
use crate::text::push_char;
use vstd::prelude::*;
use vstd::string::*;

verus! {

/// The Unicode White_Space property.
pub open spec fn is_white_space(c: char) -> bool {
    ('\u{9}' <= c && c <= '\u{d}') || c == ' ' || c == '\u{85}' || c == '\u{a0}' || c
        == '\u{1680}' || ('\u{2000}' <= c && c <= '\u{200a}') || c == '\u{2028}' || c
        == '\u{2029}' || c == '\u{202f}' || c == '\u{205f}' || c == '\u{3000}'
}

/// `s` without its leading white space.
pub open spec fn trim_start_ws(s: Seq<char>) -> Seq<char>
    decreases s.len(),
{
    if s.len() > 0 && is_white_space(s[0]) {
        trim_start_ws(s.drop_first())
    } else {
        s
    }
}

/// `s` without its trailing white space.
pub open spec fn trim_end_ws(s: Seq<char>) -> Seq<char>
    decreases s.len(),
{
    if s.len() > 0 && is_white_space(s.last()) {
        trim_end_ws(s.drop_last())
    } else {
        s
    }
}

/// `s` without any number of leading `0x` prefixes.
pub open spec fn strip_hex_prefixes(s: Seq<char>) -> Seq<char>
    decreases s.len(),
{
    if s.len() >= 2 && s[0] == '0' && s[1] == 'x' {
        strip_hex_prefixes(s.subrange(2, s.len() as int))
    } else {
        s
    }
}

/// The hexadecimal text that a hash string is read as: trimmed, without `0x`
/// prefixes, and led by a `0` where its length is odd.
pub open spec fn hash_hex_text(s: Seq<char>) -> Seq<char> {
    let t = strip_hex_prefixes(trim_end_ws(trim_start_ws(s)));
    if t.len() % 2 == 1 {
        seq!['0'] + t
    } else {
        t
    }
}

/// The `k`-th byte of `b` counted from its end, or 0 where `b` is shorter.
pub open spec fn byte_from_end(b: Seq<u8>, k: int) -> u8 {
    if k < b.len() {
        b[b.len() - 1 - k]
    } else {
        0
    }
}

/// The colour of a hash string: its last three bytes, last first, or black
/// where it is not hexadecimal.
pub open spec fn rgb_of(s: Seq<char>) -> (u8, u8, u8) {
    let t = hash_hex_text(s);
    if is_hex_text(t) {
        let b = hex_bytes(t);
        (byte_from_end(b, 0), byte_from_end(b, 1), byte_from_end(b, 2))
    } else {
        (0, 0, 0)
    }
}

/// The `#RRGGBB` form of a colour, in uppercase hexadecimal.
pub open spec fn rgb_hex_of(r: u8, g: u8, b: u8) -> Seq<char> {
    seq!['#'] + hex_upper(seq![r, g, b])
}

/// Relies on char::is_whitespace: the Unicode White_Space property.
#[verifier::external_body]
fn char_is_whitespace(c: char) -> (r: bool)
    ensures
        r == is_white_space(c),
{
    c.is_whitespace()
}

/// The character bounds of `s` without surrounding white space and leading
/// `0x` prefixes.
fn hex_body_bounds(s: &str) -> (r: (usize, usize))
    ensures
        r.0 <= r.1 <= s@.len(),
        s@.subrange(r.0 as int, r.1 as int) == strip_hex_prefixes(
            trim_end_ws(trim_start_ws(s@)),
        ),
{
    let n = s.unicode_len();
    let mut a: usize = 0;
    assert(s@.subrange(0, n as int) =~= s@);
    while a < n && char_is_whitespace(s.get_char(a))
        invariant
            n == s@.len(),
            a <= n,
            trim_start_ws(s@) == trim_start_ws(s@.subrange(a as int, n as int)),
        decreases n - a,
    {
        assert(s@.subrange(a as int, n as int).drop_first() =~= s@.subrange(a + 1, n as int));
        a = a + 1;
    }
    let mut b: usize = n;
    while b > a && char_is_whitespace(s.get_char(b - 1))
        invariant
            n == s@.len(),
            a <= b <= n,
            trim_start_ws(s@) == s@.subrange(a as int, n as int),
            trim_end_ws(trim_start_ws(s@)) == trim_end_ws(s@.subrange(a as int, b as int)),
        decreases b - a,
    {
        assert(s@.subrange(a as int, b as int).drop_last() =~= s@.subrange(a as int, b - 1));
        b = b - 1;
    }
    assert(trim_end_ws(trim_start_ws(s@)) == s@.subrange(a as int, b as int));
    while b - a >= 2 && s.get_char(a) == '0' && s.get_char(a + 1) == 'x'
        invariant
            n == s@.len(),
            a <= b <= n,
            strip_hex_prefixes(trim_end_ws(trim_start_ws(s@))) == strip_hex_prefixes(
                s@.subrange(a as int, b as int),
            ),
        decreases b - a,
    {
        assert(s@.subrange(a as int, b as int).subrange(2, (b - a) as int) =~= s@.subrange(
            a + 2,
            b as int,
        ));
        a = a + 2;
    }
    (a, b)
}

/// Derives a colour from a hexadecimal hash: the hash may carry surrounding
/// white space and `0x` prefixes, and an odd number of digits reads as if led
/// by `0`. The last byte is red, the one before green, the one before that
/// blue; missing bytes, and hashes that are not hexadecimal, give 0.
pub fn derive_rgb_values(hash: String) -> (r: (u8, u8, u8))
    ensures
        r == rgb_of(hash@),
{
    let (a, b) = hex_body_bounds(hash.as_str());
    let body = hash.as_str().substring_char(a, b);
    let decoded = if (b - a) % 2 == 1 {
        let mut padded = String::new();
        push_char(&mut padded, '0');
        padded.append(body);
        assert(padded@ =~= hash_hex_text(hash@));
        hex_decode(padded.as_str())
    } else {
        hex_decode(body)
    };
    match decoded {
        Some(bytes) => {
            let n = bytes.len();
            let red: u8 = if n >= 1 { bytes[n - 1] } else { 0 };
            let green: u8 = if n >= 2 { bytes[n - 2] } else { 0 };
            let blue: u8 = if n >= 3 { bytes[n - 3] } else { 0 };
            (red, green, blue)
        },
        None => (0, 0, 0),
    }
}

/// The `#RRGGBB` form of a colour, in uppercase hexadecimal.
pub fn rgb_hex(r: u8, g: u8, b: u8) -> (s: String)
    ensures
        s@ == rgb_hex_of(r, g, b),
{
    let rgb: Vec<u8> = vec![r, g, b];
    let digits = hex_encode_upper(rgb.as_slice());
    let mut out = String::new();
    push_char(&mut out, '#');
    out.append(digits.as_str());
    assert(rgb@ =~= seq![r, g, b]);
    out
}

/// A colour in `#RRGGBB` form derived from a hexadecimal hash.
pub fn get_random_color(hash: String) -> (s: String)
    ensures
        s@ == rgb_hex_of(rgb_of(hash@).0, rgb_of(hash@).1, rgb_of(hash@).2),
{
    let (red, green, blue) = derive_rgb_values(hash);
    rgb_hex(red, green, blue)
}

} // verus!
