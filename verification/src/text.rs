use vstd::prelude::*;
use vstd::string::StringSliceAdditionalSpecFns;
use vstd::utf8::{decode_utf8, encode_utf8, valid_utf8};

verus! {

/// The text that lossy UTF-8 decoding of `bytes` yields.
pub uninterp spec fn lossy_utf8(bytes: Seq<u8>) -> Seq<char>;

/// Every byte of `b` is 7-bit ASCII.
pub open spec fn all_ascii(b: Seq<u8>) -> bool {
    forall|i: int| 0 <= i < b.len() ==> b[i] < 128
}

/// The characters of an ASCII byte string.
pub open spec fn ascii_chars(b: Seq<u8>) -> Seq<char> {
    Seq::new(b.len(), |i: int| b[i] as char)
}

/// Builds an owned string from bytes with `String::from_utf8_lossy`.
///
/// The result is named by `lossy_utf8`; for ASCII input, which is valid UTF-8,
/// the standard library keeps every byte as the character of the same code.
#[verifier::external_body]
pub fn string_from_bytes_lossy(bytes: &[u8]) -> (text: String)
    ensures
        text@ == lossy_utf8(bytes@),
        all_ascii(bytes@) ==> text@ == ascii_chars(bytes@),
        valid_utf8(bytes@) ==> text@ == decode_utf8(bytes@),
{
    String::from_utf8_lossy(bytes).into_owned()
}

/// Whether `bytes` is valid UTF-8, as `core::str::from_utf8` decides it.
#[verifier::external_body]
pub fn is_valid_utf8(bytes: &[u8]) -> (valid: bool)
    ensures
        valid == valid_utf8(bytes@),
{
    core::str::from_utf8(bytes).is_ok()
}

/// The UTF-8 bytes of the text that lossy decoding of `b` yields: `b` itself when it is
/// valid UTF-8.
pub open spec fn text_bytes(b: Seq<u8>) -> Seq<u8> {
    if valid_utf8(b) {
        b
    } else {
        encode_utf8(lossy_utf8(b))
    }
}

/// An ASCII byte string is valid UTF-8, decodes to the characters of the same codes, and
/// those encode back to it.
pub proof fn lemma_ascii_text(b: Seq<u8>)
    requires
        all_ascii(b),
    ensures
        encode_utf8(ascii_chars(b)) == b,
        valid_utf8(b),
        decode_utf8(b) == ascii_chars(b),
        text_bytes(b) == b,
{
    let c = ascii_chars(b);
    assert(vstd::utf8::is_ascii_chars(c)) by {
        assert forall|i: int| 0 <= i < c.len() implies '\0' <= #[trigger] c[i] <= '\u{7f}' by {
            assert(b[i] < 128);
        }
    }
    vstd::utf8::is_ascii_chars_encode_utf8(c);
    assert forall|i: int| 0 <= i < b.len() implies #[trigger] encode_utf8(c)[i] == b[i] by {
        assert(c[i] as u8 == encode_utf8(c)[i]);
        assert(b[i] < 128);
    }
    assert(encode_utf8(c) =~= b);
    vstd::utf8::encode_utf8_valid_utf8(c);
    vstd::utf8::encode_utf8_decode_utf8(c);
}

/// The bytes of `b` once decoded with invalid sequences replaced and encoded again.
pub fn lossy_bytes(b: &[u8]) -> (v: Vec<u8>)
    ensures
        v@ == text_bytes(b@),
{
    let text = string_from_bytes_lossy(b);
    proof {
        if valid_utf8(b@) {
            vstd::utf8::decode_utf8_encode_utf8(b@);
        }
    }
    vstd::slice::slice_to_vec(text.as_str().as_bytes())
}

} // verus!
