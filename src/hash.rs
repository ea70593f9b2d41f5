use sha1::Sha1;
use sha2::{Digest, Sha256, Sha512};
use vstd::prelude::*;

verus! {

/// The MD5 digest of the UTF-8 bytes of `s`, in lower-case hexadecimal.
pub uninterp spec fn md5_hex_of(s: Seq<char>) -> Seq<char>;

/// The SHA-1 digest of the UTF-8 bytes of `s`, in lower-case hexadecimal.
pub uninterp spec fn sha1_hex_of(s: Seq<char>) -> Seq<char>;

/// The SHA-256 digest of the UTF-8 bytes of `s`, in lower-case hexadecimal.
pub uninterp spec fn sha256_hex_of(s: Seq<char>) -> Seq<char>;

/// The SHA-512 digest of the UTF-8 bytes of `s`, in lower-case hexadecimal.
pub uninterp spec fn sha512_hex_of(s: Seq<char>) -> Seq<char>;

/// Relies on `md5::compute` and its `LowerHex`: two digits for each of the
/// 16 bytes of the digest.
#[verifier::external_body]
fn md5_hex(text: &str) -> (r: String)
    ensures
        r@ == md5_hex_of(text@),
        r@.len() == 32,
{
    format!("{:x}", md5::compute(text.as_bytes()))
}

/// Relies on `Digest::digest` of sha1 and the `LowerHex` of its output: two
/// digits for each of the 20 bytes of the digest.
#[verifier::external_body]
fn sha1_hex(text: &str) -> (r: String)
    ensures
        r@ == sha1_hex_of(text@),
        r@.len() == 40,
{
    format!("{:x}", Sha1::digest(text.as_bytes()))
}

/// Relies on `Digest::digest` of sha2 for SHA-256 and the `LowerHex` of its
/// output: two digits for each of the 32 bytes of the digest.
#[verifier::external_body]
fn sha256_hex(text: &str) -> (r: String)
    ensures
        r@ == sha256_hex_of(text@),
        r@.len() == 64,
{
    format!("{:x}", Sha256::digest(text.as_bytes()))
}

/// Relies on `Digest::digest` of sha2 for SHA-512 and the `LowerHex` of its
/// output: two digits for each of the 64 bytes of the digest.
#[verifier::external_body]
fn sha512_hex(text: &str) -> (r: String)
    ensures
        r@ == sha512_hex_of(text@),
        r@.len() == 128,
{
    format!("{:x}", Sha512::digest(text.as_bytes()))
}

/// Relies on `bcrypt::hash` at the crate's default cost: with a fresh random
/// salt, a hash of 60 ASCII characters; it fails only where no random salt can
/// be drawn.
#[verifier::external_body]
fn bcrypt_hash(text: &str) -> (r: Option<String>)
    ensures
        r matches Some(h) ==> h@.len() == 60,
{
    bcrypt::hash(text.as_bytes(), bcrypt::DEFAULT_COST).ok()
}

/// A bcrypt hash of `text`, with a random salt; none where the system gives
/// no randomness.
pub fn bcrypt(text: &str) -> (r: Option<String>)
    ensures
        r matches Some(h) ==> h@.len() == 60,
{
    bcrypt_hash(text)
}

/// The MD5 digest of `text`, in hexadecimal.
pub fn md5(text: &str) -> (r: String)
    ensures
        r@ == md5_hex_of(text@),
        r@.len() == 32,
{
    md5_hex(text)
}

/// The SHA-1 digest of `text`, in hexadecimal.
pub fn sha1(text: &str) -> (r: String)
    ensures
        r@ == sha1_hex_of(text@),
        r@.len() == 40,
{
    sha1_hex(text)
}

/// The SHA-256 digest of `text`, in hexadecimal.
pub fn sha256(text: &str) -> (r: String)
    ensures
        r@ == sha256_hex_of(text@),
        r@.len() == 64,
{
    sha256_hex(text)
}

/// The SHA-512 digest of `text`, in hexadecimal.
pub fn sha512(text: &str) -> (r: String)
    ensures
        r@ == sha512_hex_of(text@),
        r@.len() == 128,
{
    sha512_hex(text)
}

} // verus!
