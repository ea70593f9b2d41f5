use base64::{engine::general_purpose, Engine as _};
use vstd::prelude::*;

use crate::misc::push_all;

verus! {

/// The two base64 alphabets in use: the standard one with padding, and the
/// URL-safe one without padding.
pub enum Alphabet {
    Standard,
    UrlSafeNoPad,
}

#[verifier::external_type_specification]
#[verifier::external_body]
pub struct ExDecodeError(base64::DecodeError);

#[verifier::external_type_specification]
#[verifier::external_body]
pub struct ExFromUtf8Error(std::string::FromUtf8Error);

/// The base64 text of the UTF-8 bytes of `s`.
pub uninterp spec fn base64_encoded_of(s: Seq<char>, alphabet: Alphabet) -> Seq<char>;

/// The bytes that the base64 text `s` stands for, or none where the engine of
/// the alphabet does not accept it.
pub uninterp spec fn base64_decoded_of(s: Seq<char>, alphabet: Alphabet) -> Option<Seq<u8>>;

/// The text of the bytes `b` read as UTF-8, each invalid sequence replaced by
/// U+FFFD.
pub uninterp spec fn utf8_lossy_of(b: Seq<u8>) -> Seq<char>;

/// The percent-encoded form of `s`: every byte of its UTF-8 outside the
/// unreserved characters written as `%` and two hexadecimal digits.
pub uninterp spec fn url_encoded_of(s: Seq<char>) -> Seq<char>;

/// The text that the percent-encoded `s` stands for, or none where the bytes
/// it gives are not UTF-8.
pub uninterp spec fn url_decoded_of(s: Seq<char>) -> Option<Seq<char>>;

/// Relies on `Engine::encode` of base64 with the `STANDARD` or the
/// `URL_SAFE_NO_PAD` engine, which panics only where the output length would
/// overflow `usize`; UTF-8 takes at most four bytes a character.
#[verifier::external_body]
fn base64_encode(text: &str, alphabet: Alphabet) -> (r: String)
    requires
        text@.len() <= usize::MAX / 8,
    ensures
        r@ == base64_encoded_of(text@, alphabet),
{
    match alphabet {
        Alphabet::Standard => general_purpose::STANDARD.encode(text.as_bytes()),
        Alphabet::UrlSafeNoPad => general_purpose::URL_SAFE_NO_PAD.encode(text.as_bytes()),
    }
}

/// Relies on `Engine::decode` of base64 with the `STANDARD` or the
/// `URL_SAFE_NO_PAD` engine.
#[verifier::external_body]
fn base64_decode(text: &str, alphabet: Alphabet) -> (r: Result<Vec<u8>, base64::DecodeError>)
    ensures
        r is Ok <==> base64_decoded_of(text@, alphabet) is Some,
        r is Ok ==> base64_decoded_of(text@, alphabet) == Some(r->Ok_0@),
{
    match alphabet {
        Alphabet::Standard => general_purpose::STANDARD.decode(text.as_bytes()),
        Alphabet::UrlSafeNoPad => general_purpose::URL_SAFE_NO_PAD.decode(text.as_bytes()),
    }
}

/// Relies on `Display for base64::DecodeError`: a description of the error.
#[verifier::external_body]
fn describe_base64_error(e: &base64::DecodeError) -> String {
    e.to_string()
}

/// Relies on `String::from_utf8_lossy` (std).
#[verifier::external_body]
fn from_utf8_lossy(b: &Vec<u8>) -> (r: String)
    ensures
        r@ == utf8_lossy_of(b@),
{
    String::from_utf8_lossy(b).to_string()
}

/// Relies on `urlencoding::encode`.
#[verifier::external_body]
fn percent_encode(text: &str) -> (r: String)
    ensures
        r@ == url_encoded_of(text@),
{
    urlencoding::encode(text).to_string()
}

/// Relies on `urlencoding::decode`, which fails only where the decoded bytes
/// are not UTF-8.
#[verifier::external_body]
fn percent_decode(text: &str) -> (r: Result<String, std::string::FromUtf8Error>)
    ensures
        r is Ok <==> url_decoded_of(text@) is Some,
        r is Ok ==> url_decoded_of(text@) == Some(r->Ok_0@),
{
    urlencoding::decode(text).map(|s| s.into_owned())
}

/// Relies on `Display for std::string::FromUtf8Error`: a description of the
/// error.
#[verifier::external_body]
fn describe_utf8_error(e: &std::string::FromUtf8Error) -> String {
    e.to_string()
}

/// `head` followed by `tail`.
fn message(head: &str, tail: &String) -> (r: String)
    ensures
        r@ == head@ + tail@,
{
    let mut r = String::new();
    push_all(&mut r, head);
    push_all(&mut r, tail.as_str());
    r
}

/// Decode `text` in the given alphabet and read the bytes as UTF-8.
fn decode_in(text: &str, alphabet: Alphabet, what: &str) -> (r: Result<String, String>)
    ensures
        r is Ok <==> base64_decoded_of(text@, alphabet) is Some,
        r is Ok ==> r->Ok_0@ == utf8_lossy_of(base64_decoded_of(text@, alphabet)->Some_0),
{
    match base64_decode(text, alphabet) {
        Ok(bytes) => Ok(from_utf8_lossy(&bytes)),
        Err(e) => Err(message(what, &describe_base64_error(&e))),
    }
}

/// `text` in base64, standard alphabet with padding.
pub fn encode(text: &str) -> (r: String)
    requires
        text@.len() <= usize::MAX / 8,
    ensures
        r@ == base64_encoded_of(text@, Alphabet::Standard),
{
    base64_encode(text, Alphabet::Standard)
}

/// The text that the base64 `text` (standard alphabet, padded) stands for,
/// invalid UTF-8 replaced by U+FFFD; an error where `text` is not base64.
pub fn decode(text: &str) -> (r: Result<String, String>)
    ensures
        r is Ok <==> base64_decoded_of(text@, Alphabet::Standard) is Some,
        r is Ok ==> r->Ok_0@ == utf8_lossy_of(base64_decoded_of(text@, Alphabet::Standard)->Some_0),
{
    decode_in(text, Alphabet::Standard, "Failed to decode base64 string: ")
}

/// `text` in base64url, without padding.
pub fn base64url_encode(text: &str) -> (r: String)
    requires
        text@.len() <= usize::MAX / 8,
    ensures
        r@ == base64_encoded_of(text@, Alphabet::UrlSafeNoPad),
{
    base64_encode(text, Alphabet::UrlSafeNoPad)
}

/// The text that the base64url `text` (no padding) stands for, invalid UTF-8
/// replaced by U+FFFD; an error where `text` is not base64url.
pub fn base64url_decode(text: &str) -> (r: Result<String, String>)
    ensures
        r is Ok <==> base64_decoded_of(text@, Alphabet::UrlSafeNoPad) is Some,
        r is Ok ==> r->Ok_0@ == utf8_lossy_of(base64_decoded_of(text@, Alphabet::UrlSafeNoPad)->Some_0),
{
    decode_in(text, Alphabet::UrlSafeNoPad, "Failed to decode base64url string: ")
}

/// `text` percent-encoded for a URL.
pub fn url_encode(text: &str) -> (r: String)
    ensures
        r@ == url_encoded_of(text@),
{
    percent_encode(text)
}

/// The text that the percent-encoded `text` stands for; an error where the
/// decoded bytes are not UTF-8.
pub fn url_decode(text: &str) -> (r: Result<String, String>)
    ensures
        r is Ok <==> url_decoded_of(text@) is Some,
        r is Ok ==> url_decoded_of(text@) == Some(r->Ok_0@),
{
    match percent_decode(text) {
        Ok(s) => Ok(s),
        Err(e) => Err(message("Failed to decode URL: ", &describe_utf8_error(&e))),
    }
}

} // verus!
