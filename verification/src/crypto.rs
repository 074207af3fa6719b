//! Trusted wrappers around the cryptographic primitives: Argon2id password
//! hashing and verification with a peppered hasher, the operating system's
//! random source, and base32 token encoding.

use vstd::prelude::*;

use argon2::PasswordHasher;
use argon2::PasswordVerifier;
use base32ct::Encoding;

verus! {

/// A cryptographic call failed: a malformed hash string or unusable
/// parameters.
#[derive(Clone, Copy, Debug, PartialEq, Eq, Structural)]
pub struct CryptoError;

/// Whether an Argon2id verification of `password` with secret `pepper`
/// against the PHC hash string `hash` succeeds; a function of the three
/// arguments alone.
pub uninterp spec fn argon2_match(hash: Seq<char>, password: Seq<u8>, pepper: Seq<u8>) -> bool;

/// Whether such a verification attempt comes to a definite answer: the hash
/// string parses and the comparison is carried out, so the only possible
/// failure is a wrong password. A function of the three arguments alone.
pub uninterp spec fn argon2_definite(hash: Seq<char>, password: Seq<u8>, pepper: Seq<u8>) -> bool;

/// The unpadded base32 encoding of a byte string.
pub uninterp spec fn base32_of(bytes: Seq<u8>) -> Seq<char>;

/// Relies on argon2's `Argon2::new_with_secret`, `PasswordHash::new` and
/// `verify_password`: the outcome is a function of the hash string, the
/// password bytes and the pepper alone. `Ok(true)` is a match, `Ok(false)`
/// is a definite mismatch (a wrong password), and `Err` covers a malformed
/// hash string or unusable parameters.
#[verifier::external_body]
pub fn argon2_verify(hash: &str, password: &[u8], pepper: &[u8]) -> (r: Result<bool, CryptoError>)
    ensures
        (r matches Ok(b) && b) <==> argon2_match(hash@, password@, pepper@),
        (r matches Ok(b) && !b) <==> (!argon2_match(hash@, password@, pepper@) && argon2_definite(
            hash@,
            password@,
            pepper@,
        )),
{
    let hasher = argon2::Argon2::new_with_secret(pepper, argon2::Algorithm::Argon2id, argon2::Version::V0x13, argon2::Params::DEFAULT).map_err(|_| CryptoError)?;
    let parsed = argon2::PasswordHash::new(hash).map_err(|_| CryptoError)?;
    match hasher.verify_password(password, &parsed) {
        Ok(()) => Ok(true),
        Err(argon2::password_hash::Error::Password) => Ok(false),
        Err(_) => Err(CryptoError),
    }
}

/// Relies on argon2's `hash_password` with a fresh random salt drawn from
/// `getrandom`: on success the returned PHC string verifies against the
/// same password and pepper. The salt is random, so nothing more is
/// promised of the string.
#[verifier::external_body]
pub fn argon2_hash(password: &[u8], pepper: &[u8]) -> (r: Result<String, CryptoError>)
    ensures
        r matches Ok(h) ==> argon2_match(h@, password@, pepper@) && argon2_definite(
            h@,
            password@,
            pepper@,
        ),
{
    let hasher = argon2::Argon2::new_with_secret(pepper, argon2::Algorithm::Argon2id, argon2::Version::V0x13, argon2::Params::DEFAULT).map_err(|_| CryptoError)?;
    let mut salt_bytes = [0u8; 16];
    getrandom::getrandom(&mut salt_bytes).map_err(|_| CryptoError)?;
    let salt = argon2::password_hash::SaltString::encode_b64(&salt_bytes).map_err(|_| CryptoError)?;
    let hash = hasher.hash_password(password, &salt).map_err(|_| CryptoError)?;
    Ok(hash.to_string())
}

/// Relies on `getrandom::getrandom`: on success the 32-byte buffer has been
/// filled from the operating system's entropy source. The bytes are random,
/// so only the length is promised.
#[verifier::external_body]
pub fn random_bytes_32() -> (r: Result<Vec<u8>, CryptoError>)
    ensures
        r matches Ok(v) ==> v@.len() == 32,
{
    let mut bytes = vec![0u8; 32];
    match getrandom::getrandom(&mut bytes) {
        Ok(()) => Ok(bytes),
        Err(_) => Err(CryptoError),
    }
}

/// Relies on base32ct's `Base32Unpadded::encode_string`: RFC 4648 base32
/// without padding, a function of the bytes alone; each five input bits make
/// one output character, so `n` bytes encode to `(8n + 4) / 5` characters.
#[verifier::external_body]
pub fn base32_encode(bytes: &[u8]) -> (r: String)
    ensures
        r@ == base32_of(bytes@),
        bytes@.len() == 0 ==> r@.len() == 0,
        bytes@.len() > 0 ==> r@.len() == (bytes@.len() * 8 + 4) / 5,
{
    base32ct::Base32Unpadded::encode_string(bytes)
}

} // verus!
