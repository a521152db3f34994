use vstd::prelude::*;
use vstd::utf8::{decode_utf8, valid_utf8};

verus! {

/// The text that lenient UTF-8 decoding gives for a byte sequence: valid
/// sequences are decoded, each invalid one becomes U+FFFD.
pub uninterp spec fn lossy_text(b: Seq<u8>) -> Seq<char>;

/// Every byte is below 128.
pub open spec fn all_ascii(b: Seq<u8>) -> bool {
    forall|i: int| 0 <= i < b.len() ==> b[i] < 128
}

/// ASCII bytes read one character each.
pub open spec fn ascii_text(b: Seq<u8>) -> Seq<char> {
    b.map_values(|x: u8| x as char)
}

/// `x` is what lenient decoding gives for `b`: one character per byte for
/// ASCII, the plain decoding for valid UTF-8.
pub open spec fn decodes_to(b: Seq<u8>, x: Seq<char>) -> bool {
    &&& x == lossy_text(b)
    &&& all_ascii(b) ==> x == ascii_text(b)
    &&& valid_utf8(b) ==> x == decode_utf8(b)
}

/// Relies on `String::from_utf8_lossy`: the result is a function of the
/// bytes, and bytes that are valid UTF-8 (ASCII among them) decode unchanged.
#[verifier::external_body]
pub(crate) fn decode_lossy(b: &[u8]) -> (r: String)
    ensures
        r@ == lossy_text(b@),
        all_ascii(b@) ==> r@ == ascii_text(b@),
        valid_utf8(b@) ==> r@ == decode_utf8(b@),
{
    String::from_utf8_lossy(b).into_owned()
}

} // verus!
