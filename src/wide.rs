//! UTF-16 text: decoding, encoding, counting and joining wide strings.

use vstd::prelude::*;

verus! {

/// A leading (high) surrogate.
pub open spec fn is_high_surrogate(u: u16) -> bool {
    0xD800 <= u <= 0xDBFF
}

/// A trailing (low) surrogate.
pub open spec fn is_low_surrogate(u: u16) -> bool {
    0xDC00 <= u <= 0xDFFF
}

/// The characters that a lossy UTF-16 decode yields for `units`: a high
/// surrogate followed by a low one is a pair, a unit outside the surrogate
/// range is its own character, and every unpaired surrogate becomes U+FFFD.
pub open spec fn utf16_lossy(units: Seq<u16>) -> Seq<char>
    decreases units.len(),
{
    if units.len() == 0 {
        Seq::empty()
    } else if units.len() >= 2 && is_high_surrogate(units[0]) && is_low_surrogate(units[1]) {
        let v = 0x10000 + (units[0] - 0xD800) * 0x400 + (units[1] - 0xDC00);
        seq![v as u32 as char] + utf16_lossy(units.subrange(2, units.len() as int))
    } else if is_high_surrogate(units[0]) || is_low_surrogate(units[0]) {
        seq!['\u{FFFD}'] + utf16_lossy(units.subrange(1, units.len() as int))
    } else {
        seq![units[0] as u32 as char] + utf16_lossy(units.subrange(1, units.len() as int))
    }
}

/// The UTF-16 code units of one character: the scalar value itself below
/// U+10000, else a high and a low surrogate.
pub open spec fn utf16_units_of(c: char) -> Seq<u16> {
    let v = c as u32 as int;
    if v < 0x10000 {
        seq![v as u16]
    } else {
        let w = v - 0x10000;
        seq![(0xD800 + w / 0x400) as u16, (0xDC00 + w % 0x400) as u16]
    }
}

/// The UTF-16 code units that encode `text`.
pub open spec fn utf16_of(text: Seq<char>) -> Seq<u16>
    decreases text.len(),
{
    if text.len() == 0 {
        Seq::empty()
    } else {
        utf16_of(text.drop_last()) + utf16_units_of(text.last())
    }
}

/// Relies on `widestring::U16Str::to_string_lossy` (which is
/// `String::from_utf16_lossy`): each character comes from one unit or from a
/// surrogate pair, so there are at least half as many characters as units
/// and never more.
#[verifier::external_body]
fn utf16_decode_lossy(units: &[u16]) -> (r: String)
    ensures
        r@ == utf16_lossy(units@),
        r@.len() <= units@.len() <= 2 * r@.len(),
{
    widestring::U16Str::from_slice(units).to_string_lossy()
}

/// Relies on `widestring::U16String::from_str` (`str::encode_utf16`): each
/// character takes one or two units.
#[verifier::external_body]
fn utf16_encode(text: &str) -> (r: Vec<u16>)
    ensures
        r@ == utf16_of(text@),
        text@.len() <= r@.len() <= 2 * text@.len(),
{
    widestring::U16String::from_str(text).into_vec()
}

/// Decodes a wide string, replacing malformed sequences.
pub fn decode_wide(units: &[u16]) -> (r: String)
    ensures
        r@ == utf16_lossy(units@),
        r@.len() <= units@.len() <= 2 * r@.len(),
{
    utf16_decode_lossy(units)
}

/// The number of characters of a wide string, after a lossy decode.
pub fn wide_char_count(units: &[u16]) -> (n: usize)
    ensures
        n == utf16_lossy(units@).len(),
        n <= units@.len() <= 2 * n,
{
    let text = decode_wide(units);
    text.as_str().unicode_len()
}

/// Joins two wide strings: both are decoded, the texts are joined, and the
/// result is encoded again.
pub fn concat_wide(first: &[u16], second: &[u16]) -> (r: Vec<u16>)
    ensures
        r@ == utf16_of(utf16_lossy(first@) + utf16_lossy(second@)),
{
    let mut text = decode_wide(first);
    let tail = decode_wide(second);
    text.append(tail.as_str());
    utf16_encode(text.as_str())
}

} // verus!
