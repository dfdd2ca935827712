//! The few calls into the standard library's strings that come without a
//! contract of their own. What is written in their `ensures` is taken on
//! trust from the standard library's documentation; nothing here is proved.

use vstd::prelude::*;
use vstd::utf8::{decode_utf8, valid_utf8};

verus! {

/// The text that lossy decoding makes of `bytes`: what `bytes` spell in
/// UTF-8, with U+FFFD REPLACEMENT CHARACTER in place of each stretch that is
/// not UTF-8.
pub uninterp spec fn lossy_utf8(bytes: Seq<u8>) -> Seq<char>;

/// `String::from_utf8_lossy`, with its result made an owned `String`.
///
/// Trusted: the result is a function of the bytes alone, named
/// [`lossy_utf8`]; bytes that are UTF-8 already are decoded as they stand,
/// with nothing replaced; and since what is not UTF-8 is replaced, never
/// dropped, bytes decode to no text only where there are none.
#[verifier::external_body]
pub(crate) fn decode_lossy(bytes: &[u8]) -> (text: String)
    ensures
        text@ == lossy_utf8(bytes@),
        valid_utf8(bytes@) ==> text@ == decode_utf8(bytes@),
        bytes@.len() > 0 ==> text@.len() > 0,
{
    String::from_utf8_lossy(bytes).into_owned()
}

/// `String::push`.
///
/// Trusted: the character is appended to the end, and what the string held
/// stays in front of it.
#[verifier::external_body]
pub(crate) fn push_char(s: &mut String, c: char)
    ensures
        final(s)@ == old(s)@.push(c),
{
    s.push(c)
}

} // verus!
