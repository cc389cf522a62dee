//! Strings: comparison, joining and decoding.
use vstd::prelude::*;
use vstd::string::{StrSliceExecFns, StringExecFns};
use vstd::utf8::{
    decode_utf8, encode_utf8, encode_utf8_decode_utf8, encode_utf8_valid_utf8, valid_utf8,
};

verus! {

/// What `String::from_utf8_lossy` makes of bytes that are no valid UTF-8.
pub uninterp spec fn utf8_lossy(bytes: Seq<u8>) -> Seq<char>;

/// `std::str::Utf8Error`, the reason why bytes are no UTF-8 text.
#[verifier::external_type_specification]
#[verifier::external_body]
pub struct ExUtf8Error(std::str::Utf8Error);

/// `std::str::from_utf8`: bytes that are valid UTF-8 come back as the text they
/// encode, and all other bytes are refused.
pub assume_specification[ std::str::from_utf8 ](v: &[u8]) -> (res: Result<
    &str,
    std::str::Utf8Error,
>)
    ensures
        res is Ok <==> valid_utf8(v@),
        res is Ok ==> res->Ok_0@ == decode_utf8(v@),
;

/// How std words the reason why bytes are no UTF-8 text.
pub uninterp spec fn utf8_error_text(bytes: Seq<u8>) -> Seq<char>;

/// The `Display` of `std::str::Utf8Error`, for the error that `std::str::from_utf8` gives
/// on bytes that are no UTF-8 text: the words depend on the bytes alone.
#[verifier::external_body]
pub(crate) fn utf8_complaint(bytes: &[u8]) -> (words: String)
    requires
        !valid_utf8(bytes@),
    ensures
        words@ == utf8_error_text(bytes@),
{
    std::str::from_utf8(bytes).unwrap_err().to_string()
}

/// The text that bytes stand for: the one that they encode, with replacements where
/// they are no valid UTF-8.
pub open spec fn lossy_text(bytes: Seq<u8>) -> Seq<char> {
    if valid_utf8(bytes) {
        decode_utf8(bytes)
    } else {
        utf8_lossy(bytes)
    }
}

/// `String::from_utf8_lossy`: bytes that are valid UTF-8 come back as the text they
/// encode. For all other bytes the text depends on the bytes alone; what stands in
/// place of what is not valid is left unsaid.
#[verifier::external_body]
pub(crate) fn from_utf8_lossy(bytes: &[u8]) -> (text: String)
    ensures
        text@ == (if valid_utf8(bytes@) {
            decode_utf8(bytes@)
        } else {
            utf8_lossy(bytes@)
        }),
{
    String::from_utf8_lossy(bytes).into_owned()
}

/// Text that was encoded comes back as it was.
pub proof fn encoded_text_is_not_lost(text: Seq<char>)
    ensures
        lossy_text(encode_utf8(text)) == text,
{
    broadcast use {encode_utf8_valid_utf8, encode_utf8_decode_utf8};

}

/// Whether two strings hold the same characters.
pub fn same_text(a: &str, b: &str) -> (same: bool)
    ensures
        same == (a@ == b@),
{
    a.to_owned() == b.to_owned()
}

/// Whether `text` begins with `prefix`.
pub fn starts_with(text: &str, prefix: &str) -> (found: bool)
    ensures
        found == prefix@.is_prefix_of(text@),
{
    let len: usize = prefix.unicode_len();
    if len > text.unicode_len() {
        return false;
    }
    let head = text.substring_char(0, len);
    proof {
        assert(head@ == prefix@ <==> prefix@.is_prefix_of(text@));
    }
    same_text(head, prefix)
}

/// The characters of `a` followed by those of `b`.
pub fn join(a: &str, b: &str) -> (joined: String)
    ensures
        joined@ == a@ + b@,
{
    let mut joined: String = a.to_owned();
    joined.append(b);
    joined
}

} // verus!
