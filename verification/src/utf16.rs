//! Lossy decoding of UTF-16 text, as `String::from_utf16_lossy` does it.
use vstd::prelude::*;

use crate::text::string_from_chars;

verus! {

pub open spec fn is_high_surrogate(u: u16) -> bool {
    0xD800 <= u <= 0xDBFF
}

pub open spec fn is_low_surrogate(u: u16) -> bool {
    0xDC00 <= u <= 0xDFFF
}

/// The code point a surrogate pair stands for.
pub open spec fn surrogate_pair_value(hi: u16, lo: u16) -> u32 {
    (0x10000 + (hi - 0xD800) * 0x400 + (lo - 0xDC00)) as u32
}

/// Whether `v` is a Unicode scalar value, i.e. a valid `char`.
pub open spec fn is_scalar_value(v: u32) -> bool {
    v <= 0xD7FF || (0xE000 <= v && v <= 0x10FFFF)
}

/// The characters UTF-16 units decode to: surrogate pairs combine, every
/// unpaired surrogate becomes U+FFFD, and every other unit is its own
/// character.
pub open spec fn spec_utf16_lossy(s: Seq<u16>) -> Seq<char>
    decreases s.len(),
{
    if s.len() == 0 {
        Seq::<char>::empty()
    } else if is_high_surrogate(s[0]) && s.len() >= 2 && is_low_surrogate(s[1]) {
        seq![surrogate_pair_value(s[0], s[1]) as char] + spec_utf16_lossy(s.skip(2))
    } else if is_high_surrogate(s[0]) || is_low_surrogate(s[0]) {
        seq!['\u{FFFD}'] + spec_utf16_lossy(s.skip(1))
    } else {
        seq![(s[0] as u32) as char] + spec_utf16_lossy(s.skip(1))
    }
}

/// Calls `char::from_u32`: the character with code point `v`, if `v` is a
/// Unicode scalar value.
#[verifier::external_body]
fn char_from_u32(v: u32) -> (r: Option<char>)
    ensures
        r == (if is_scalar_value(v) {
            Some(v as char)
        } else {
            None
        }),
{
    char::from_u32(v)
}

/// Decodes UTF-16 units, replacing unpaired surrogates with U+FFFD.
pub fn utf16_lossy(s: &[u16]) -> (r: String)
    ensures
        r@ == spec_utf16_lossy(s@),
{
    let mut out: Vec<char> = Vec::new();
    let mut i: usize = 0;
    assert(s@.skip(0) == s@);
    while i < s.len()
        invariant
            i <= s@.len(),
            spec_utf16_lossy(s@) == out@ + spec_utf16_lossy(s@.skip(i as int)),
        decreases s.len() - i,
    {
        let ghost rest = s@.skip(i as int);
        let u = s[i];
        let is_high = 0xD800 <= u && u <= 0xDBFF;
        let is_low = 0xDC00 <= u && u <= 0xDFFF;
        if is_high && i + 1 < s.len() && 0xDC00 <= s[i + 1] && s[i + 1] <= 0xDFFF {
            let lo = s[i + 1];
            let v: u32 = 0x10000 + ((u - 0xD800) as u32) * 0x400 + ((lo - 0xDC00) as u32);
            assert(rest[0] == u && rest[1] == lo);
            assert(rest.skip(2) == s@.skip(i + 2));
            match char_from_u32(v) {
                Some(c) => out.push(c),
                None => out.push('\u{FFFD}'),
            }
            i = i + 2;
        } else {
            assert(rest[0] == u);
            assert(rest.skip(1) == s@.skip(i + 1));
            if is_high || is_low {
                out.push('\u{FFFD}');
            } else {
                match char_from_u32(u as u32) {
                    Some(c) => out.push(c),
                    None => out.push('\u{FFFD}'),
                }
            }
            i = i + 1;
        }
        assert(spec_utf16_lossy(s@) == out@ + spec_utf16_lossy(s@.skip(i as int)));
    }
    assert(s@.skip(s@.len() as int) == Seq::<u16>::empty());
    assert(out@ + Seq::<char>::empty() == out@);
    string_from_chars(&out)
}

} // verus!
