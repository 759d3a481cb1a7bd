//! What holds of the text form for every hash and every text: a text form
//! reads back as the hash it was written from, the three prefixes read alike,
//! and a canonical text is written back as it was read.

use super::{digest_field, digit, formatted, parsed, prefix_accepted, salt_field, work_factor_of};
use crate::base64::laws::{decode_encoded, encode_decoded};
use crate::base64::{canonical, encoded};
use crate::HashView;
use vstd::prelude::*;

verus! {

/// A hash is valid: its work factor is one of the key derivation, its salt has
/// 16 bytes and its digest 23.
pub open spec fn valid(hash: HashView) -> bool {
    &&& 4 <= hash.log_rounds <= 31
    &&& hash.salt.len() == 16
    &&& hash.digest.len() == 23
}

/// The text form of a valid hash has 60 bytes and starts with `$2b$`.
pub proof fn formatted_shape(hash: HashView)
    requires
        valid(hash),
    ensures
        formatted(hash).len() == 60,
        prefix_accepted(formatted(hash)),
        formatted(hash)[2] == 'b' as u8,
        formatted(hash)[6] == '$' as u8,
        salt_field(formatted(hash)) == encoded(hash.salt),
        digest_field(formatted(hash)) == encoded(hash.digest),
{
    let text = formatted(hash);
    assert(encoded(hash.salt).len() == 22);
    assert(encoded(hash.digest).len() == 31);
    assert(salt_field(text) =~= encoded(hash.salt));
    assert(digest_field(text) =~= encoded(hash.digest));
}

/// Reading undoes writing: the text form of a valid hash stands for that hash.
pub proof fn parse_formatted(hash: HashView)
    requires
        valid(hash),
    ensures
        parsed(formatted(hash)) matches Ok(read) && read == hash,
{
    formatted_shape(hash);
    decode_encoded(hash.salt);
    decode_encoded(hash.digest);
}

/// What a text stands for is a valid hash.
pub proof fn parsed_is_valid(text: Seq<u8>)
    requires
        parsed(text) is Ok,
    ensures
        valid(parsed(text).unwrap()),
{
}

/// The three prefixes read alike: two texts that start with an accepted
/// prefix each, and are the same from there on, stand for the same hash or
/// are refused for the same reason.
pub proof fn prefix_equivalence(a: Seq<u8>, b: Seq<u8>)
    requires
        prefix_accepted(a),
        prefix_accepted(b),
        a.skip(4) == b.skip(4),
    ensures
        parsed(a) == parsed(b),
{
    assert(a.len() == a.skip(4).len() + 4);
    assert(b.len() == b.skip(4).len() + 4);
    if a.len() == 60 {
        assert forall|i: int| 4 <= i < 60 implies a[i] == b[i] by {
            assert(a[i] == a.skip(4)[i - 4]);
            assert(b[i] == b.skip(4)[i - 4]);
        }
        assert(salt_field(a) =~= salt_field(b));
        assert(digest_field(a) =~= digest_field(b));
    }
}

/// The first seven bytes of a text that starts with `$2b$`, holds a work
/// factor and has `$` after it.
proof fn lemma_head(text: Seq<u8>)
    requires
        text.len() == 60,
        prefix_accepted(text),
        text[2] == 'b' as u8,
        text[6] == '$' as u8,
        work_factor_of(text[4], text[5]) is Some,
    ensures
        text.subrange(0, 7) == seq![
            '$' as u8,
            '2' as u8,
            'b' as u8,
            '$' as u8,
            digit(work_factor_of(text[4], text[5]).unwrap() / 10),
            digit(work_factor_of(text[4], text[5]).unwrap() % 10),
            '$' as u8,
        ],
{
    let n = work_factor_of(text[4], text[5]).unwrap();
    assert(n / 10 == text[4] - '0' as u8);
    assert(n % 10 == text[5] - '0' as u8);
    assert(text.subrange(0, 7) =~= seq![
        '$' as u8,
        '2' as u8,
        'b' as u8,
        '$' as u8,
        digit(n / 10),
        digit(n % 10),
        '$' as u8,
    ]);
}

/// A text of 60 bytes is its first seven bytes, its salt and its digest.
proof fn lemma_fields(text: Seq<u8>)
    requires
        text.len() == 60,
    ensures
        text.subrange(0, 7) + salt_field(text) + digest_field(text) == text,
{
    assert(text.subrange(0, 7) + salt_field(text) + digest_field(text) =~= text);
}

/// Writing undoes reading on canonical text: where `text` stands for a hash,
/// starts with `$2b$`, has `$` after the work factor, and neither its salt nor
/// its digest ends in a character with bits that decoding drops, the text form
/// of the hash is `text`.
pub proof fn format_parsed(text: Seq<u8>)
    requires
        parsed(text) is Ok,
        text[2] == 'b' as u8,
        text[6] == '$' as u8,
        canonical(salt_field(text)),
        canonical(digest_field(text)),
    ensures
        formatted(parsed(text).unwrap()) == text,
{
    let hash = parsed(text).unwrap();
    assert(encoded(hash.salt) == salt_field(text)) by {
        encode_decoded(salt_field(text));
    }
    assert(encoded(hash.digest) == digest_field(text)) by {
        encode_decoded(digest_field(text));
    }
    lemma_head(text);
    lemma_fields(text);
}

/// Whatever text a hash was read from, its text form reads back as the same
/// hash.
pub proof fn parse_format_parsed(text: Seq<u8>)
    requires
        parsed(text) is Ok,
    ensures
        parsed(formatted(parsed(text).unwrap())) == parsed(text),
{
    parsed_is_valid(text);
    parse_formatted(parsed(text).unwrap());
}

} // verus!
