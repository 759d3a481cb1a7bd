//! The text form of a hash: `$2b$`, the work factor in two digits, `$`, the
//! salt in 22 characters and the digest in 31, which makes 60 bytes.
//!
//! [`formatted`] says what the text of a hash is and [`parsed`] what a text
//! stands for, or why it stands for nothing; [`Hash::to_formatted`] and
//! [`Hash::from_formatted`] compute them.
//!
//! [`Hash::to_formatted`]: crate::Hash::to_formatted
//! [`Hash::from_formatted`]: crate::Hash::from_formatted

use crate::base64::{decode, decoding, encode, encoded};
use crate::work_factor::WorkFactor;
use crate::HashView;
use std::str::FromStr;
use vstd::prelude::*;
use vstd::slice::slice_subrange;
use vstd::string::StringSliceAdditionalSpecFns;

pub mod laws;

verus! {

/// The number of bytes of the text form of a hash.
pub const FORMATTED_HASH_SIZE: usize = 60;

/// Why a text is not the text form of a hash.
#[derive(Clone, Copy, Debug, PartialEq, Eq, Hash)]
pub enum ParseError {
    /// The text does not have 60 bytes.
    Length,
    /// The text starts with none of `$2a$`, `$2b$`, `$2y$`.
    Prefix,
    /// The two bytes after the prefix are not two digits, or their number is
    /// not a work factor.
    WorkFactor,
    /// The 22 characters of the salt do not decode.
    Salt,
    /// The 31 characters of the digest do not decode.
    Hash,
}

/// `c` is one of the characters `0` to `9`.
pub open spec fn is_digit(c: u8) -> bool {
    '0' as u8 <= c <= '9' as u8
}

/// The character of the digit `d`.
pub open spec fn digit(d: int) -> u8 {
    ('0' as u8 + d) as u8
}

/// The text starts with `$2a$`, `$2b$` or `$2y$`.
pub open spec fn prefix_accepted(text: Seq<u8>) -> bool {
    &&& text.len() >= 4
    &&& text[0] == '$' as u8
    &&& text[1] == '2' as u8
    &&& (text[2] == 'a' as u8 || text[2] == 'b' as u8 || text[2] == 'y' as u8)
    &&& text[3] == '$' as u8
}

/// The work factor that the two characters `tens` and `ones` stand for: both
/// are digits, and their number is between 4 and 31.
pub open spec fn work_factor_of(tens: u8, ones: u8) -> Option<int> {
    let n = 10 * (tens - '0' as u8) + (ones - '0' as u8);
    if is_digit(tens) && is_digit(ones) && 4 <= n <= 31 {
        Some(n)
    } else {
        None
    }
}

/// The text form of a hash.
pub open spec fn formatted(hash: HashView) -> Seq<u8> {
    seq![
        '$' as u8,
        '2' as u8,
        'b' as u8,
        '$' as u8,
        digit(hash.log_rounds / 10),
        digit(hash.log_rounds % 10),
        '$' as u8,
    ] + encoded(hash.salt) + encoded(hash.digest)
}

/// The characters of `text` that hold the salt.
pub open spec fn salt_field(text: Seq<u8>) -> Seq<u8> {
    text.subrange(7, 29)
}

/// The characters of `text` that hold the digest.
pub open spec fn digest_field(text: Seq<u8>) -> Seq<u8> {
    text.subrange(29, 60)
}

/// The hash that `text` stands for, or the first thing that is wrong with it:
/// its length, its prefix, its work factor, its salt, its digest. The byte
/// between the work factor and the salt is not looked at.
pub open spec fn parsed(text: Seq<u8>) -> Result<HashView, ParseError> {
    if text.len() != 60 {
        Err(ParseError::Length)
    } else if !prefix_accepted(text) {
        Err(ParseError::Prefix)
    } else if work_factor_of(text[4], text[5]) is None {
        Err(ParseError::WorkFactor)
    } else if decoding(salt_field(text)) is Err {
        Err(ParseError::Salt)
    } else if decoding(digest_field(text)) is Err {
        Err(ParseError::Hash)
    } else {
        Ok(
            HashView {
                log_rounds: work_factor_of(text[4], text[5]).unwrap(),
                salt: decoding(salt_field(text)).unwrap(),
                digest: decoding(digest_field(text)).unwrap(),
            },
        )
    }
}

/// What a [`ParseError`] says of itself.
pub open spec fn parse_error_message(error: ParseError) -> Seq<char> {
    match error {
        ParseError::Length => "invalid length"@,
        ParseError::Prefix => "invalid prefix"@,
        ParseError::WorkFactor => "invalid work factor"@,
        ParseError::Salt => "invalid salt"@,
        ParseError::Hash => "invalid hash"@,
    }
}

impl ParseError {
    /// The error in words.
    pub fn message(&self) -> (text: &'static str)
        ensures
            text@ == parse_error_message(*self),
    {
        match self {
            ParseError::Length => "invalid length",
            ParseError::Prefix => "invalid prefix",
            ParseError::WorkFactor => "invalid work factor",
            ParseError::Salt => "invalid salt",
            ParseError::Hash => "invalid hash",
        }
    }
}

/// Writes `field` into `text` from position `at` on.
fn place(text: &mut [u8; 60], at: usize, field: &[u8])
    requires
        at + field@.len() <= 60,
    ensures
        final(text)@ == old(text)@.subrange(0, at as int) + field@ + old(text)@.subrange(
            at + field@.len(),
            60,
        ),
{
    let mut i: usize = 0;
    while i < field.len()
        invariant
            at + field@.len() <= 60,
            i <= field@.len(),
            forall|k: int| 0 <= k < 60 ==> text@[k] == if at <= k < at + i {
                field@[k - at]
            } else {
                old(text)@[k]
            },
        decreases field@.len() - i,
    {
        text[at + i] = field[i];
        i += 1;
    }
}

/// The work factor that two characters of a text stand for.
fn parse_work_factor(tens: u8, ones: u8) -> (r: Option<WorkFactor>)
    ensures
        match work_factor_of(tens, ones) {
            Some(n) => r is Some && r.unwrap()@ == n,
            None => r is None,
        },
{
    if tens < '0' as u8 || tens > '9' as u8 || ones < '0' as u8 || ones > '9' as u8 {
        return None;
    }
    let n: u32 = 10 * ((tens - '0' as u8) as u32) + (ones - '0' as u8) as u32;
    WorkFactor::exp(n)
}

impl crate::Hash {
    /// The text form of the hash. It starts with `$2b$`, whatever the text
    /// started with that the hash was read from.
    pub fn to_formatted(&self) -> (text: [u8; FORMATTED_HASH_SIZE])
        ensures
            text@ == formatted(self@),
    {
        let log_rounds = self.work_factor.log_rounds();
        let mut salt = [0u8; 22];
        encode(&self.salt, &mut salt);
        let mut digest = [0u8; 31];
        encode(&self.hash, &mut digest);
        let mut text = [0u8; 60];
        text[0] = '$' as u8;
        text[1] = '2' as u8;
        text[2] = 'b' as u8;
        text[3] = '$' as u8;
        text[4] = '0' as u8 + (log_rounds / 10) as u8;
        text[5] = '0' as u8 + (log_rounds % 10) as u8;
        text[6] = '$' as u8;
        place(&mut text, 7, &salt);
        place(&mut text, 29, &digest);
        text
    }

    /// Reads a hash from its text form. The prefixes `$2a$` and `$2y$` are
    /// read as `$2b$` is.
    pub fn from_formatted(text: &[u8]) -> (r: Result<crate::Hash, ParseError>)
        ensures
            match parsed(text@) {
                Ok(hash) => r is Ok && r.unwrap()@ == hash,
                Err(e) => r matches Err(error) && error == e,
            },
    {
        if text.len() != 60 {
            return Err(ParseError::Length);
        }
        if text[0] != '$' as u8 || text[1] != '2' as u8 || (text[2] != 'a' as u8 && text[2]
            != 'b' as u8 && text[2] != 'y' as u8) || text[3] != '$' as u8 {
            return Err(ParseError::Prefix);
        }
        let work_factor = match parse_work_factor(text[4], text[5]) {
            Some(work_factor) => work_factor,
            None => {
                return Err(ParseError::WorkFactor);
            },
        };
        let mut salt = [0u8; 16];
        if decode(slice_subrange(text, 7, 29), &mut salt).is_err() {
            return Err(ParseError::Salt);
        }
        let mut hash = [0u8; 23];
        if decode(slice_subrange(text, 29, 60), &mut hash).is_err() {
            return Err(ParseError::Hash);
        }
        Ok(crate::Hash { work_factor, salt, hash })
    }
}

impl FromStr for crate::Hash {
    type Err = ParseError;

    /// Reads a hash from its text form, as [`Hash::from_formatted`] reads the
    /// bytes of `s`.
    ///
    /// [`Hash::from_formatted`]: crate::Hash::from_formatted
    fn from_str(s: &str) -> (r: Result<crate::Hash, ParseError>)
        ensures
            match parsed(s.spec_bytes()) {
                Ok(hash) => r is Ok && r.unwrap()@ == hash,
                Err(e) => r matches Err(error) && error == e,
            },
    {
        crate::Hash::from_formatted(s.as_bytes())
    }
}

} // verus!
