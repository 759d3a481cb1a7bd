//! Hashing a password and comparing a password to a hash.
//!
//! A password is the key of the key derivation by its UTF-8 bytes. What the
//! derivation computes is known to the contracts as
//! [`bcrypt_digest`](crate::kdf::bcrypt_digest) only; [`hashing`] and
//! [`comparing`] say what is made of it.

use crate::kdf::{bcrypt, bcrypt_digest, random_salt};
use crate::work_factor::WorkFactor;
use crate::HashView;
use vstd::prelude::*;
use vstd::string::{
    to_string_from_display_ensures, StringExecFns, StringSliceAdditionalSpecFns,
};

verus! {

/// The number of bytes that a password may have at most.
pub const KEY_SIZE_MAX: usize = 72;

/// Why a password was not compared to a hash.
#[derive(Clone, Copy, Debug, PartialEq, Eq, Hash)]
pub enum CompareError {
    /// The password is longer than 72 bytes.
    Length,
    /// The password holds a zero byte.
    ZeroByte,
}

/// Why a password was not hashed.
#[derive(Clone, Copy, Debug, PartialEq, Eq)]
pub enum HashError {
    /// The password is longer than 72 bytes.
    Length,
    /// The password holds a zero byte.
    ZeroByte,
    /// No salt could be generated.
    RandomError(getrandom::Error),
}

/// Why `key` is no key of the key derivation, if it is none: its length is
/// looked at first.
pub open spec fn key_error(key: Seq<u8>) -> Option<CompareError> {
    if key.len() > KEY_SIZE_MAX {
        Some(CompareError::Length)
    } else if key.contains(0u8) {
        Some(CompareError::ZeroByte)
    } else {
        None
    }
}

/// The error of hashing a key that the key derivation refuses.
pub open spec fn hash_error(error: CompareError) -> HashError {
    match error {
        CompareError::Length => HashError::Length,
        CompareError::ZeroByte => HashError::ZeroByte,
    }
}

/// What hashing `key` gives where generating the salt gave `salt`. A key that
/// is refused is reported before a salt that could not be generated.
pub open spec fn hashing(key: Seq<u8>, log_rounds: int, salt: Result<[u8; 16], getrandom::Error>)
    -> Result<HashView, HashError> {
    match (key_error(key), salt) {
        (Some(e), _) => Err(hash_error(e)),
        (None, Err(e)) => Err(HashError::RandomError(e)),
        (None, Ok(salt)) => Ok(
            HashView {
                log_rounds,
                salt: salt@,
                digest: bcrypt_digest(key, salt@, log_rounds as u32),
            },
        ),
    }
}

/// What comparing `key` to the hash `expected` gives: whether the key
/// derivation, with the salt and the work factor of `expected`, gives its
/// digest.
pub open spec fn comparing(key: Seq<u8>, expected: HashView) -> Result<bool, CompareError> {
    match key_error(key) {
        Some(e) => Err(e),
        None => Ok(bcrypt_digest(key, expected.salt, expected.log_rounds as u32) == expected.digest),
    }
}

/// A password compares as equal to a hash of its own, whatever the salt and
/// the work factor.
pub proof fn own_hash_compares(key: Seq<u8>, log_rounds: int, salt: [u8; 16])
    requires
        key_error(key) is None,
    ensures
        hashing(key, log_rounds, Ok(salt)) matches Ok(hash) && comparing(key, hash) matches Ok(true),
{
}

/// What a [`CompareError`] says of itself.
pub open spec fn compare_error_message(error: CompareError) -> Seq<char> {
    match error {
        CompareError::Length => "password too long"@,
        CompareError::ZeroByte => "password contains a NUL character"@,
    }
}

impl CompareError {
    /// The error in words.
    pub fn message(&self) -> (text: &'static str)
        ensures
            text@ == compare_error_message(*self),
    {
        match self {
            CompareError::Length => "password too long",
            CompareError::ZeroByte => "password contains a NUL character",
        }
    }
}

impl HashError {
    /// The error in words. Where no salt could be generated, what the random
    /// number generator's error displays as follows the words of this library.
    pub fn message(&self) -> (text: String)
        ensures
            match *self {
                HashError::Length => text@ == compare_error_message(CompareError::Length),
                HashError::ZeroByte => text@ == compare_error_message(CompareError::ZeroByte),
                HashError::RandomError(e) => exists|cause: String|
                    to_string_from_display_ensures::<getrandom::Error>(&e, cause) && text@
                        == "salt generation failed: "@ + cause@,
            },
    {
        match self {
            HashError::Length => String::from_str(CompareError::Length.message()),
            HashError::ZeroByte => String::from_str(CompareError::ZeroByte.message()),
            HashError::RandomError(e) => {
                let cause = e.to_string();
                String::from_str("salt generation failed: ").concat(cause.as_str())
            },
        }
    }

    /// The error of the random number generator, where it is the cause.
    pub fn source(&self) -> (cause: Option<getrandom::Error>)
        ensures
            cause == match *self {
                HashError::RandomError(e) => Some(e),
                _ => None,
            },
    {
        match self {
            HashError::RandomError(e) => Some(*e),
            _ => None,
        }
    }
}

/// Why the key derivation refuses `key`, if it does.
fn refused(key: &[u8]) -> (r: Option<CompareError>)
    ensures
        r == key_error(key@),
{
    if key.len() > KEY_SIZE_MAX {
        return Some(CompareError::Length);
    }
    let mut i: usize = 0;
    while i < key.len()
        invariant
            i <= key@.len() <= KEY_SIZE_MAX,
            forall|k: int| 0 <= k < i ==> key@[k] != 0,
        decreases key@.len() - i,
    {
        if key[i] == 0 {
            return Some(CompareError::ZeroByte);
        }
        i += 1;
    }
    None
}

/// Whether two digests are the same.
fn same_digest(a: &[u8; 23], b: &[u8; 23]) -> (same: bool)
    ensures
        same == (a@ == b@),
{
    let mut i: usize = 0;
    while i < 23
        invariant
            i <= 23,
            forall|k: int| 0 <= k < i ==> a@[k] == b@[k],
        decreases 23 - i,
    {
        if a[i] != b[i] {
            return false;
        }
        i += 1;
    }
    assert(a@ =~= b@);
    true
}

/// Hashes `password` with `work_factor` and the salt that generating one
/// gave, or says why there is no hash.
pub fn hash_with_salt(
    password: &str,
    work_factor: WorkFactor,
    salt: Result<[u8; 16], getrandom::Error>,
) -> (r: Result<crate::Hash, HashError>)
    ensures
        match hashing(password.spec_bytes(), work_factor@, salt) {
            Ok(hash) => r is Ok && r.unwrap()@ == hash,
            Err(e) => r matches Err(error) && error == e,
        },
{
    let key = password.as_bytes();
    match refused(key) {
        Some(CompareError::Length) => {
            return Err(HashError::Length);
        },
        Some(CompareError::ZeroByte) => {
            return Err(HashError::ZeroByte);
        },
        None => {},
    }
    match salt {
        Err(e) => Err(HashError::RandomError(e)),
        Ok(salt) => match bcrypt(key, &salt, work_factor.log_rounds()) {
            Ok(hash) => Ok(crate::Hash { work_factor, salt, hash }),
            Err(CompareError::Length) => Err(HashError::Length),
            Err(CompareError::ZeroByte) => Err(HashError::ZeroByte),
        },
    }
}

/// Hashes `password` with `work_factor` and a salt of 16 random bytes.
///
/// A password of more than 72 bytes, or with a zero byte, is refused before a
/// salt is generated. For any other password there is a hash, made with the
/// work factor and the salt that it holds, unless no salt could be generated.
pub fn hash(password: &str, work_factor: WorkFactor) -> (r: Result<crate::Hash, HashError>)
    ensures
        key_error(password.spec_bytes()) matches Some(e) ==> r matches Err(error) && error
            == hash_error(e),
        key_error(password.spec_bytes()) is None ==> match r {
            Ok(hash) => hashing(password.spec_bytes(), work_factor@, Ok(hash.salt)) matches Ok(made)
                && made == hash@,
            Err(error) => error is RandomError,
        },
{
    match refused(password.as_bytes()) {
        Some(CompareError::Length) => Err(HashError::Length),
        Some(CompareError::ZeroByte) => Err(HashError::ZeroByte),
        None => hash_with_salt(password, work_factor, random_salt()),
    }
}

/// Whether `expected` holds the digest that the key derivation gave, or the
/// reason why it gave none.
pub fn compare_digest(
    digest: Result<[u8; 23], CompareError>,
    expected: &crate::Hash,
) -> (r: Result<bool, CompareError>)
    ensures
        r == match digest {
            Ok(digest) => Ok(digest@ == expected.hash@),
            Err(e) => Err(e),
        },
{
    match digest {
        Ok(digest) => Ok(same_digest(&digest, &expected.hash)),
        Err(e) => Err(e),
    }
}

/// Compares `password` to the hash `expected`: hashes it with the salt and the
/// work factor of `expected`, and says whether the digest is the same.
pub fn compare(password: &str, expected: &crate::Hash) -> (r: Result<bool, CompareError>)
    ensures
        r == comparing(password.spec_bytes(), expected@),
{
    let digest = bcrypt(password.as_bytes(), &expected.salt, expected.work_factor.log_rounds());
    compare_digest(digest, expected)
}

} // verus!
