//! Password hashing with bcrypt, and the `$2b$` text form of a bcrypt hash.
//!
//! The key derivation is that of the `bcrypt-only` crate and the salt of a new
//! hash comes from `getrandom`; module [`kdf`] holds what this library assumes
//! of both. All else is verified: the base64 variant of the text form
//! ([`base64`]), the text form itself ([`text`]), and what hashing and
//! comparing a password return ([`password`]).

use vstd::prelude::*;

pub mod base64;
pub mod kdf;
pub mod password;
pub mod text;
pub mod work_factor;

pub use password::{compare, compare_digest, hash, hash_with_salt, CompareError, HashError, KEY_SIZE_MAX};
pub use text::{ParseError, FORMATTED_HASH_SIZE};
pub use work_factor::WorkFactor;

verus! {

/// A hash as contracts see it.
pub struct HashView {
    /// The base-2 logarithm of the number of rounds.
    pub log_rounds: int,
    /// The 16 bytes of the salt.
    pub salt: Seq<u8>,
    /// The 23 bytes of the digest.
    pub digest: Seq<u8>,
}

/// A bcrypt hash: the work factor and the salt that it was made with, and the
/// digest of the password.
#[derive(Debug)]
pub struct Hash {
    /// The work factor.
    pub work_factor: WorkFactor,
    /// The salt.
    pub salt: [u8; 16],
    /// The digest: what the key derivation gave for the password.
    pub hash: [u8; 23],
}

impl View for Hash {
    type V = HashView;

    open spec fn view(&self) -> HashView {
        HashView { log_rounds: self.work_factor@, salt: self.salt@, digest: self.hash@ }
    }
}

impl Clone for Hash {
    fn clone(&self) -> (copy: Hash)
        ensures
            copy == *self,
    {
        Hash { work_factor: self.work_factor, salt: self.salt, hash: self.hash }
    }
}

} // verus!
