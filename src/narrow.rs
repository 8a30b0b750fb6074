//! Single-byte text: joining UTF-8 strings and counting the characters of
//! legacy GBK-encoded text.

use vstd::prelude::*;
use vstd::string::*;

verus! {

/// The characters that decoding `bytes` as GBK yields (a leading byte order
/// mark selects its own encoding; malformed sequences become U+FFFD).
pub uninterp spec fn gbk_decoded(bytes: Seq<u8>) -> Seq<char>;

/// Relies on `encoding_rs::Encoding::decode` for `encoding_rs::GBK`: it
/// replaces malformed input instead of failing, and it panics only when the
/// size of its output buffer overflows `usize`, which the bound rules out.
#[verifier::external_body]
fn decode_gbk(bytes: &[u8]) -> (r: String)
    requires
        bytes@.len() <= usize::MAX / 8,
    ensures
        r@ == gbk_decoded(bytes@),
        bytes@.len() == 0 ==> r@.len() == 0,
{
    let (text, _, _) = encoding_rs::GBK.decode(bytes);
    text.into_owned()
}

/// The number of characters of GBK-encoded text.
pub fn gbk_char_count(bytes: &[u8]) -> (n: usize)
    requires
        bytes@.len() <= usize::MAX / 8,
    ensures
        n == gbk_decoded(bytes@).len(),
        bytes@.len() == 0 ==> n == 0,
{
    let text = decode_gbk(bytes);
    text.as_str().unicode_len()
}

/// Joins two texts.
pub fn concat_text(first: &str, second: &str) -> (r: String)
    ensures
        r@ == first@ + second@,
{
    let mut joined = String::from_str(first);
    joined.append(second);
    joined
}

} // verus!
