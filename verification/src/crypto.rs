//! Trusted bridges to the password-hashing, digest, encoding, randomness
//! and clock primitives the account logic leans on.

use vstd::prelude::*;

use base64::Engine as _;
use rand::RngExt as _;
use sha2::Digest as _;

use crate::error::Error;

verus! {

/// What `bcrypt::verify` answers for a password held against a stored hash:
/// `None` when the stored hash cannot be parsed, otherwise whether the
/// password matches. The answer depends on the two arguments alone.
pub uninterp spec fn bcrypt_check(password: Seq<char>, hash: Seq<char>) -> Option<bool>;

/// Relies on `bcrypt::verify`: whether a password matches a stored hash;
/// an unparsable hash is reported as an error.
#[verifier::external_body]
pub fn bcrypt_verify(password: &str, hash: &str) -> (r: Result<bool, Error>)
    ensures
        r == (match bcrypt_check(password@, hash@) {
            Some(b) => Ok::<bool, Error>(b),
            None => Err::<bool, Error>(Error::CryptoFailure),
        }),
{
    match bcrypt::verify(password, hash) {
        Ok(b) => Ok(b),
        Err(_) => Err(Error::CryptoFailure),
    }
}

/// Relies on `bcrypt::hash`: a salted hash of the password, with the salt
/// drawn from the operating system — two calls need not agree. Whatever
/// hash comes back verifies against the password it was made from.
#[verifier::external_body]
pub fn bcrypt_hash(password: &str) -> (r: Result<String, Error>)
    ensures
        r matches Ok(h) ==> bcrypt_check(password@, h@) == Some(true),
        r matches Err(e) ==> e == Error::CryptoFailure,
{
    match bcrypt::hash(password, bcrypt::DEFAULT_COST) {
        Ok(h) => Ok(h),
        Err(_) => Err(Error::CryptoFailure),
    }
}

/// What `Sha256` digests a password and salt to: 32 bytes, a function of
/// the two arguments alone.
pub uninterp spec fn sha256_of(key: Seq<char>, salt: Seq<u8>) -> Seq<u8>;

/// Relies on `sha2::Sha256`: the digest of the password followed by the
/// salt, deterministic in its arguments.
#[verifier::external_body]
pub fn sha256_digest(key: &str, salt: &[u8]) -> (r: Vec<u8>)
    ensures
        r@ == sha256_of(key@, salt@),
{
    let digest = sha2::Sha256::new().chain_update(key).chain_update(salt).finalize();
    digest.to_vec()
}

/// What the standard base64 alphabet encodes a byte string to: a function
/// of the bytes alone.
pub uninterp spec fn base64_of(bytes: Seq<u8>) -> Seq<char>;

/// Relies on base64's standard padded engine: deterministic encoding, four
/// output characters for every started group of three input bytes.
#[verifier::external_body]
pub fn base64_encode(bytes: &[u8]) -> (r: String)
    ensures
        r@ == base64_of(bytes@),
        r@.len() == 4 * ((bytes@.len() + 2) / 3),
{
    base64::engine::general_purpose::STANDARD.encode(bytes)
}

/// Relies on `rand`'s thread-local generator: 24 fresh bytes for a session
/// token; nothing is promised of their values.
#[verifier::external_body]
pub fn random_session_bytes() -> (r: Vec<u8>)
    ensures
        r@.len() == 24,
{
    let mut buf = [0u8; 24];
    rand::rng().fill(&mut buf[..]);
    buf.to_vec()
}

/// Relies on `chrono::Utc::now`: the wall clock's seconds since the epoch;
/// nothing is promised of the value.
#[verifier::external_body]
pub fn now_unix() -> (r: i64) {
    chrono::Utc::now().timestamp()
}

} // verus!
