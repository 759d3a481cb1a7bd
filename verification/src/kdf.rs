//! What this library takes from outside: the bcrypt key derivation of the
//! `bcrypt-only` crate and the random bytes of `getrandom`. Nothing in this
//! module is proved; each item says what is assumed of the function it calls.

use crate::password::CompareError;
use vstd::prelude::*;

verus! {

/// The error of `getrandom::getrandom`, a code of the operating system or of
/// the crate itself. Nothing is read from it here.
#[verifier::external_type_specification]
#[verifier::external_body]
pub struct ExRandomError(getrandom::Error);

/// The 23 bytes that `bcrypt_only::bcrypt` computes for a key of at most 72
/// bytes without a zero byte, a salt of 16 bytes and a work factor of
/// 2 to the power of `log_rounds` rounds.
pub uninterp spec fn bcrypt_digest(key: Seq<u8>, salt: Seq<u8>, log_rounds: u32) -> Seq<u8>;

/// `bcrypt_only::bcrypt`, with the salt made by `bcrypt_only::Salt::from_bytes`
/// and the work factor by `bcrypt_only::WorkFactor::exp`, which accepts 4 to 31.
///
/// Assumed: a key of more than 72 bytes is refused for its length; a shorter
/// one that holds a zero byte is refused for that; for any other key the
/// result is the digest, which depends on the three arguments alone.
#[verifier::external_body]
pub(crate) fn bcrypt(key: &[u8], salt: &[u8; 16], log_rounds: u32) -> (r: Result<[u8; 23], CompareError>)
    requires
        4 <= log_rounds <= 31,
    ensures
        key@.len() > 72 ==> (r matches Err(CompareError::Length)),
        key@.len() <= 72 && key@.contains(0u8) ==> (r matches Err(CompareError::ZeroByte)),
        key@.len() <= 72 && !key@.contains(0u8) ==> r is Ok && r.unwrap()@ == bcrypt_digest(key@, salt@, log_rounds),
{
    let work_factor = bcrypt_only::WorkFactor::exp(log_rounds).unwrap();
    match bcrypt_only::bcrypt(key, &bcrypt_only::Salt::from_bytes(salt), work_factor) {
        Ok(digest) => Ok(digest),
        Err(bcrypt_only::BcryptError::Length) => Err(CompareError::Length),
        Err(bcrypt_only::BcryptError::ZeroByte) => Err(CompareError::ZeroByte),
    }
}

/// `bcrypt_only::WorkFactor::exp`, the work factor it gives read back with
/// `log_rounds`.
///
/// Assumed: there is a work factor for the numbers from 4 to 31 and for no
/// other, and it holds the number it was made from.
#[verifier::external_body]
pub(crate) fn supported_log_rounds(log_rounds: u32) -> (r: Option<u32>)
    ensures
        r == if 4 <= log_rounds <= 31 {
            Some(log_rounds)
        } else {
            None
        },
{
    match bcrypt_only::WorkFactor::exp(log_rounds) {
        Some(work_factor) => Some(work_factor.log_rounds()),
        None => None,
    }
}

/// `getrandom::getrandom` on a buffer of 16 bytes.
///
/// Nothing is assumed of the bytes, nor of when the call fails.
#[verifier::external_body]
pub(crate) fn random_salt() -> (r: Result<[u8; 16], getrandom::Error>) {
    let mut salt = [0u8; 16];
    match getrandom::getrandom(&mut salt) {
        Ok(()) => Ok(salt),
        Err(e) => Err(e),
    }
}

} // verus!
