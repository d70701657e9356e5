//! Bytes as text: UTF-8 and base64.

use crate::text;
use base64::Engine;
use vstd::prelude::*;
use vstd::utf8;

verus! {

/// What `String::from_utf8` says of bytes that are not UTF-8.
pub uninterp spec fn utf8_complaint(bytes: Seq<u8>) -> Seq<char>;

/// What `base64`'s engine `STANDARD` makes of some bytes.
pub uninterp spec fn standard_encoded(bytes: Seq<u8>) -> Seq<char>;

/// What `base64`'s engine `STANDARD` reads from a text: bytes, or what it says of
/// the text.
pub uninterp spec fn standard_decoded(s: Seq<char>) -> Result<Seq<u8>, Seq<char>>;

/// What `base64`'s engine `URL_SAFE_NO_PAD` makes of some bytes.
pub uninterp spec fn url_encoded(bytes: Seq<u8>) -> Seq<char>;

/// What `base64`'s engine `URL_SAFE_NO_PAD` reads from a text: bytes, or what it
/// says of the text.
pub uninterp spec fn url_decoded(s: Seq<char>) -> Result<Seq<u8>, Seq<char>>;

/// What `base64`'s engine `URL_SAFE` reads from a text: bytes, or what it says of
/// the text.
pub uninterp spec fn padded_url_decoded(s: Seq<char>) -> Result<Seq<u8>, Seq<char>>;

/// The characters of padded base64.
pub open spec fn is_standard_char(c: char) -> bool {
    text::is_alnum(c) || c == '+' || c == '/' || c == '='
}

/// The characters of base64 for addresses, without padding.
pub open spec fn is_url_char(c: char) -> bool {
    text::is_alnum(c) || c == '-' || c == '_'
}

/// The text that bytes encode, or what is said of them.
pub open spec fn text_in(bytes: Seq<u8>) -> Result<Seq<char>, Seq<char>> {
    if utf8::valid_utf8(bytes) {
        Ok(utf8::decode_utf8(bytes))
    } else {
        Err(utf8_complaint(bytes))
    }
}

/// Calls `String::from_utf8`: the string whose UTF-8 encoding the bytes are. It
/// fails exactly on bytes that are not valid UTF-8, and says why.
#[verifier::external_body]
pub(crate) fn utf8_text(bytes: Vec<u8>) -> (r: Result<String, String>)
    ensures
        match r {
            Ok(s) => utf8::valid_utf8(bytes@) && s@ == utf8::decode_utf8(bytes@),
            Err(e) => !utf8::valid_utf8(bytes@) && e@ == utf8_complaint(bytes@),
        },
{
    String::from_utf8(bytes).map_err(|error| error.to_string())
}

/// Calls `encode` of `base64`'s engine `STANDARD`. The text consists of letters,
/// digits, `+`, `/` and `=`, and the same engine reads the bytes back from it.
#[verifier::external_body]
pub(crate) fn standard_encode(bytes: &Vec<u8>) -> (r: String)
    ensures
        r@ == standard_encoded(bytes@),
        standard_decoded(r@) is Ok && standard_decoded(r@)->Ok_0 == bytes@,
        forall|i: int| 0 <= i < r@.len() ==> is_standard_char(#[trigger] r@[i]),
{
    base64::engine::general_purpose::STANDARD.encode(bytes)
}

/// Calls `decode` of `base64`'s engine `STANDARD`. An error is turned into what it
/// says.
#[verifier::external_body]
pub(crate) fn standard_decode(s: &str) -> (r: Result<Vec<u8>, String>)
    ensures
        text::bytes_outcome(r) == standard_decoded(s@),
{
    base64::engine::general_purpose::STANDARD.decode(s).map_err(|error| error.to_string())
}

/// Calls `encode` of `base64`'s engine `URL_SAFE_NO_PAD`. The text consists of
/// letters, digits, `-` and `_`, and the same engine reads the bytes back from it.
#[verifier::external_body]
pub(crate) fn url_encode(bytes: &Vec<u8>) -> (r: String)
    ensures
        r@ == url_encoded(bytes@),
        url_decoded(r@) is Ok && url_decoded(r@)->Ok_0 == bytes@,
        forall|i: int| 0 <= i < r@.len() ==> is_url_char(#[trigger] r@[i]),
{
    base64::engine::general_purpose::URL_SAFE_NO_PAD.encode(bytes)
}

/// Calls `decode` of `base64`'s engine `URL_SAFE_NO_PAD`. An error is turned into
/// what it says.
#[verifier::external_body]
pub(crate) fn url_decode(s: &str) -> (r: Result<Vec<u8>, String>)
    ensures
        text::bytes_outcome(r) == url_decoded(s@),
{
    base64::engine::general_purpose::URL_SAFE_NO_PAD.decode(s).map_err(|error| error.to_string())
}

/// Calls `decode` of `base64`'s engine `URL_SAFE`. An error is turned into what it
/// says.
#[verifier::external_body]
pub(crate) fn padded_url_decode(s: &str) -> (r: Result<Vec<u8>, String>)
    ensures
        text::bytes_outcome(r) == padded_url_decoded(s@),
{
    base64::engine::general_purpose::URL_SAFE.decode(s).map_err(|error| error.to_string())
}

/// Base64 in any of the forms that are accepted: for addresses without padding, for
/// addresses with padding, standard with padding; the first that fits.
pub open spec fn any_decoded(s: Seq<char>) -> Result<Seq<u8>, Seq<char>> {
    match url_decoded(s) {
        Ok(b) => Ok(b),
        Err(_) => match padded_url_decoded(s) {
            Ok(b) => Ok(b),
            Err(_) => standard_decoded(s),
        },
    }
}

/// Reads base64 in any of the forms that are accepted.
pub fn decode_base64(raw: &str) -> (r: Result<Vec<u8>, String>)
    ensures
        text::bytes_outcome(r) == any_decoded(raw@),
{
    match url_decode(raw) {
        Ok(b) => Ok(b),
        Err(_) => match padded_url_decode(raw) {
            Ok(b) => Ok(b),
            Err(_) => standard_decode(raw),
        },
    }
}

/// Text without white space at its ends is left as it is by trimming.
pub proof fn lemma_trimmed_standard(s: Seq<char>)
    requires
        forall|i: int| 0 <= i < s.len() ==> is_standard_char(#[trigger] s[i]),
    ensures
        text::trimmed(s) == s,
{
    if s.len() > 0 {
        assert(is_standard_char(s[0]));
        assert(is_standard_char(s[s.len() - 1]));
        assert(text::drop_front(s, text::white()) == s);
        assert(text::drop_back(s, text::white()) == s);
    } else {
        assert(text::drop_front(s, text::white()) == s);
    }
}

/// Text that was turned into bytes is read back from them.
pub proof fn lemma_text_round_trip(s: Seq<char>)
    ensures
        text_in(utf8::encode_utf8(s)) == Ok::<Seq<char>, Seq<char>>(s),
{
    broadcast use {utf8::encode_utf8_valid_utf8, utf8::encode_utf8_decode_utf8};

}

} // verus!
