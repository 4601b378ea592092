//! Lossy UTF-8 decoding, as the map and asset formats store their strings.

use vstd::prelude::*;
use vstd::utf8::{valid_utf8, decode_utf8};

verus! {

/// The text that `String::from_utf8_lossy` makes of `bytes`: each maximal
/// invalid subsequence becomes U+FFFD, the rest is decoded as UTF-8.
pub uninterp spec fn utf8_lossy(bytes: Seq<u8>) -> Seq<char>;

/// Calls `String::from_utf8_lossy` (std). Trusted: the result is the lossy
/// decoding of the bytes, and on valid UTF-8 it is exactly the decoded text,
/// as std documents.
#[verifier::external_body]
pub(crate) fn lossy_string(bytes: &[u8]) -> (s: String)
    ensures
        s@ == utf8_lossy(bytes@),
        valid_utf8(bytes@) ==> s@ == decode_utf8(bytes@),
{
    String::from_utf8_lossy(bytes).into_owned()
}

} // verus!
