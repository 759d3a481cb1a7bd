//! What holds of the codec for every input: the alphabet is a bijection,
//! decoding undoes encoding, encoding undoes decoding on canonical text, and
//! which texts are refused.

use super::{
    byte_or_zero, canonical, decoded, decoded_len, decoding, encoded, encoded_len, in_alphabet,
    lemma_pack, octet, pack, sextet, symbol, unpack, value_of, value_or_zero, Base64Error,
};
use vstd::prelude::*;

verus! {

/// Every 6-bit value is the value of its own character.
pub proof fn value_of_symbol(value: u8)
    requires
        value < 64,
    ensures
        value_of(symbol(value)) == Some(value),
{
}

/// A character of the alphabet stands for a 6-bit value, and is the character
/// of that value.
pub proof fn symbol_of_value(c: u8)
    requires
        value_of(c) is Some,
    ensures
        value_of(c).unwrap() < 64,
        symbol(value_of(c).unwrap()) == c,
{
}

/// The number that three bytes are, read as digits to base 256.
pub open spec fn group_of_bytes(b0: u8, b1: u8, b2: u8) -> int {
    b0 * 0x1_0000 + b1 * 0x100 + b2
}

/// The number that four 6-bit values are, read as digits to base 64.
pub open spec fn group_of_values(v0: u8, v1: u8, v2: u8, v3: u8) -> int {
    v0 * 0x4_0000 + v1 * 0x1000 + v2 * 0x40 + v3
}

/// Packing is a change of base: the four values of a group are the digits to
/// base 64 of the number that its three bytes are to base 256.
pub proof fn pack_is_change_of_base(b0: u8, b1: u8, b2: u8)
    ensures
        pack(b0, b1, b2, 0) == group_of_bytes(b0, b1, b2) / 0x4_0000,
        pack(b0, b1, b2, 1) == group_of_bytes(b0, b1, b2) / 0x1000 % 0x40,
        pack(b0, b1, b2, 2) == group_of_bytes(b0, b1, b2) / 0x40 % 0x40,
        pack(b0, b1, b2, 3) == group_of_bytes(b0, b1, b2) % 0x40,
        group_of_values(
            pack(b0, b1, b2, 0),
            pack(b0, b1, b2, 1),
            pack(b0, b1, b2, 2),
            pack(b0, b1, b2, 3),
        ) == group_of_bytes(b0, b1, b2),
{
    assert(b0 >> 2 == b0 / 4) by (bit_vector);
    assert((b0 & 0x03) << 4 | b1 >> 4 == (b0 % 4) * 16 + b1 / 16) by (bit_vector);
    assert((b1 & 0x0f) << 2 | b2 >> 6 == (b1 % 16) * 4 + b2 / 64) by (bit_vector);
    assert(b2 & 0x3f == b2 % 64) by (bit_vector);
    let n = group_of_bytes(b0, b1, b2);
    let d0: int = (b0 / 4) as int;
    let d1: int = (b0 % 4) * 16 + b1 / 16;
    let d2: int = (b1 % 16) * 4 + b2 / 64;
    let d3: int = (b2 % 64) as int;
    assert(n == ((d0 * 0x40 + d1) * 0x40 + d2) * 0x40 + d3);
    assert(n / 0x40 == (d0 * 0x40 + d1) * 0x40 + d2);
    assert(n / 0x1000 == d0 * 0x40 + d1);
    assert(n / 0x4_0000 == d0);
}

/// Unpacking is the change of base back: the three bytes of a group are the
/// digits to base 256 of the number that its four values are to base 64.
pub proof fn unpack_is_change_of_base(v0: u8, v1: u8, v2: u8, v3: u8)
    requires
        v0 < 64,
        v1 < 64,
        v2 < 64,
        v3 < 64,
    ensures
        unpack(v0, v1, v2, v3, 0) == group_of_values(v0, v1, v2, v3) / 0x1_0000,
        unpack(v0, v1, v2, v3, 1) == group_of_values(v0, v1, v2, v3) / 0x100 % 0x100,
        unpack(v0, v1, v2, v3, 2) == group_of_values(v0, v1, v2, v3) % 0x100,
        group_of_bytes(
            unpack(v0, v1, v2, v3, 0),
            unpack(v0, v1, v2, v3, 1),
            unpack(v0, v1, v2, v3, 2),
        ) == group_of_values(v0, v1, v2, v3),
{
    assert(v0 << 2 | v1 >> 4 == v0 * 4 + v1 / 16) by (bit_vector)
        requires
            v0 < 64,
            v1 < 64,
    ;
    assert(v1 << 4 | v2 >> 2 == (v1 % 16) * 16 + v2 / 4) by (bit_vector)
        requires
            v1 < 64,
            v2 < 64,
    ;
    assert(v2 << 6 | v3 == (v2 % 4) * 64 + v3) by (bit_vector)
        requires
            v2 < 64,
            v3 < 64,
    ;
    let n = group_of_values(v0, v1, v2, v3);
    let e0: int = v0 * 4 + v1 / 16;
    let e1: int = (v1 % 16) * 16 + v2 / 4;
    let e2: int = (v2 % 4) * 64 + v3;
    assert(n == (e0 * 0x100 + e1) * 0x100 + e2);
    assert(n / 0x100 == e0 * 0x100 + e1);
    assert(n / 0x1_0000 == e0);
}

/// Unpacking the four values of a group gives back the three bytes packed,
/// and a value that was filled up with zero bits has those bits clear.
proof fn lemma_unpack_pack(b0: u8, b1: u8, b2: u8)
    by (bit_vector)
    ensures
        (b0 >> 2) << 2 | ((b0 & 0x03) << 4 | b1 >> 4) >> 4 == b0,
        ((b0 & 0x03) << 4 | b1 >> 4) << 4 | ((b1 & 0x0f) << 2 | b2 >> 6) >> 2 == b1,
        ((b1 & 0x0f) << 2 | b2 >> 6) << 6 | b2 & 0x3f == b2,
        ((b0 & 0x03) << 4 | 0u8 >> 4) & 0x0f == 0,
        ((b1 & 0x0f) << 2 | 0u8 >> 6) & 0x03 == 0,
{
}

/// Packing the three bytes of a group gives back the four values unpacked.
/// Where a zero byte stands for a byte that the text does not hold, the last
/// value comes back if it has no bit in that byte.
proof fn lemma_pack_unpack(v0: u8, v1: u8, v2: u8, v3: u8)
    by (bit_vector)
    requires
        v0 < 64,
        v1 < 64,
        v2 < 64,
        v3 < 64,
    ensures
        (v0 << 2 | v1 >> 4) >> 2 == v0,
        ((v0 << 2 | v1 >> 4) & 0x03) << 4 | (v1 << 4 | v2 >> 2) >> 4 == v1,
        ((v1 << 4 | v2 >> 2) & 0x0f) << 2 | (v2 << 6 | v3) >> 6 == v2,
        (v2 << 6 | v3) & 0x3f == v3,
        v1 & 0x0f == 0 ==> ((v0 << 2 | v1 >> 4) & 0x03) << 4 | 0u8 >> 4 == v1,
        v2 & 0x03 == 0 ==> ((v1 << 4 | v2 >> 2) & 0x0f) << 2 | 0u8 >> 6 == v2,
{
}

/// The characters of an encoded text stand for the 6-bit values of the bytes.
proof fn lemma_encoded_values(bytes: Seq<u8>, k: int)
    requires
        0 <= k < encoded_len(bytes.len()),
    ensures
        sextet(bytes, k) < 64,
        value_of(encoded(bytes)[k]) == Some(sextet(bytes, k)),
        value_or_zero(encoded(bytes), k) == sextet(bytes, k),
{
    let i = 3 * (k / 4);
    lemma_pack(byte_or_zero(bytes, i), byte_or_zero(bytes, i + 1), byte_or_zero(bytes, i + 2));
    value_of_symbol(sextet(bytes, k));
}

/// The value at position `r` of the `g`-th group of an encoded text.
proof fn lemma_encoded_group(bytes: Seq<u8>, g: int, r: int)
    requires
        0 <= g,
        0 <= r < 4,
        4 * g + r < encoded_len(bytes.len()),
    ensures
        value_of(encoded(bytes)[4 * g + r]) is Some,
        value_or_zero(encoded(bytes), 4 * g + r) == pack(
            byte_or_zero(bytes, 3 * g),
            byte_or_zero(bytes, 3 * g + 1),
            byte_or_zero(bytes, 3 * g + 2),
            r,
        ),
{
    let k = 4 * g + r;
    assert(k / 4 == g && k % 4 == r);
    lemma_encoded_values(bytes, k);
}

/// The byte at position `r` of the `g`-th group of bytes comes back from the
/// text.
proof fn lemma_octet_of_encoded(bytes: Seq<u8>, g: int, r: int)
    requires
        0 <= g,
        0 <= r < 3,
        3 * g + r < bytes.len(),
    ensures
        octet(encoded(bytes), 3 * g + r) == bytes[3 * g + r],
{
    let k = 3 * g + r;
    let text = encoded(bytes);
    assert(k / 3 == g && k % 3 == r);
    assert(4 * g + r + 1 < encoded_len(bytes.len()));
    let b0 = byte_or_zero(bytes, 3 * g);
    let b1 = byte_or_zero(bytes, 3 * g + 1);
    let b2 = byte_or_zero(bytes, 3 * g + 2);
    lemma_unpack_pack(b0, b1, b2);
    lemma_encoded_group(bytes, g, r);
    lemma_encoded_group(bytes, g, r + 1);
    assert(octet(text, k) == unpack(
        value_or_zero(text, 4 * g),
        value_or_zero(text, 4 * g + 1),
        value_or_zero(text, 4 * g + 2),
        value_or_zero(text, 4 * g + 3),
        r,
    ));
}

/// Decoding undoes encoding: the text of any bytes decodes, and to those bytes.
pub proof fn decode_encoded(bytes: Seq<u8>)
    ensures
        decoding(encoded(bytes)) matches Ok(decoded) && decoded == bytes,
{
    let text = encoded(bytes);
    assert forall|j: int| 0 <= j < text.len() implies (#[trigger] value_of(text[j])) is Some by {
        lemma_encoded_values(bytes, j);
    }
    assert(text.len() % 4 != 1);
    assert(decoded_len(text.len()) == bytes.len());
    assert forall|k: int| 0 <= k < bytes.len() implies octet(text, k) == bytes[k] by {
        lemma_octet_of_encoded(bytes, k / 3, k % 3);
    }
    assert(decoded(text) =~= bytes);
}

/// The text of any bytes is canonical.
pub proof fn encoded_is_canonical(bytes: Seq<u8>)
    ensures
        canonical(encoded(bytes)),
{
    let text = encoded(bytes);
    if text.len() % 4 >= 2 {
        let k = text.len() - 1;
        let i = 3 * (k / 4);
        lemma_encoded_values(bytes, k);
        lemma_unpack_pack(byte_or_zero(bytes, i), byte_or_zero(bytes, i + 1), byte_or_zero(bytes, i + 2));
    }
}

/// The byte at position `r` of the `g`-th group of a decoded text.
proof fn lemma_decoded_group(text: Seq<u8>, g: int, r: int)
    requires
        0 <= g,
        0 <= r < 3,
        3 * g + r < decoded_len(text.len()),
    ensures
        byte_or_zero(decoded(text), 3 * g + r) == unpack(
            value_or_zero(text, 4 * g),
            value_or_zero(text, 4 * g + 1),
            value_or_zero(text, 4 * g + 2),
            value_or_zero(text, 4 * g + 3),
            r,
        ),
{
    let k = 3 * g + r;
    assert(k / 3 == g && k % 3 == r);
    assert(decoded(text)[k] == octet(text, k));
}

/// The character at position `r` of the `g`-th group of a canonical text
/// comes back from the bytes.
proof fn lemma_symbol_of_decoded(text: Seq<u8>, g: int, r: int)
    requires
        decoding(text) is Ok,
        canonical(text),
        0 <= g,
        0 <= r < 4,
        4 * g + r < text.len(),
    ensures
        symbol(sextet(decoded(text), 4 * g + r)) == text[4 * g + r],
{
    let k = 4 * g + r;
    let bytes = decoded(text);
    let held = text.len() - 4 * g;
    assert(k / 4 == g && k % 4 == r);
    assert(held >= 2);
    assert(bytes.len() == decoded_len(text.len()));
    assert(value_of(text[k]) is Some);
    symbol_of_value(text[k]);
    assert(value_of(text[4 * g]) is Some);
    symbol_of_value(text[4 * g]);
    assert(value_of(text[4 * g + 1]) is Some);
    symbol_of_value(text[4 * g + 1]);
    if held >= 3 {
        assert(value_of(text[4 * g + 2]) is Some);
        symbol_of_value(text[4 * g + 2]);
    }
    if held >= 4 {
        assert(value_of(text[4 * g + 3]) is Some);
        symbol_of_value(text[4 * g + 3]);
    }
    let v0 = value_or_zero(text, 4 * g);
    let v1 = value_or_zero(text, 4 * g + 1);
    let v2 = value_or_zero(text, 4 * g + 2);
    let v3 = value_or_zero(text, 4 * g + 3);
    lemma_pack_unpack(v0, v1, v2, v3);
    lemma_decoded_group(text, g, 0);
    if held >= 3 {
        lemma_decoded_group(text, g, 1);
    } else {
        assert(byte_or_zero(bytes, 3 * g + 1) == 0);
    }
    if held >= 4 {
        lemma_decoded_group(text, g, 2);
    } else {
        assert(byte_or_zero(bytes, 3 * g + 2) == 0);
    }
    assert(sextet(bytes, k) == pack(
        byte_or_zero(bytes, 3 * g),
        byte_or_zero(bytes, 3 * g + 1),
        byte_or_zero(bytes, 3 * g + 2),
        r,
    ));
    assert(sextet(bytes, k) == value_or_zero(text, k));
}

/// Encoding undoes decoding on canonical text: where `text` decodes and its
/// last character has no bit that decoding drops, the bytes encode to `text`.
pub proof fn encode_decoded(text: Seq<u8>)
    requires
        decoding(text) is Ok,
        canonical(text),
    ensures
        encoded(decoding(text).unwrap()) == text,
{
    let bytes = decoded(text);
    assert(encoded_len(bytes.len()) == text.len());
    assert forall|k: int| 0 <= k < text.len() implies symbol(sextet(bytes, k)) == text[k] by {
        lemma_symbol_of_decoded(text, k / 4, k % 4);
    }
    assert(encoded(bytes) =~= text);
}

/// A character outside the alphabet in a whole group of four is reported as
/// such, whatever else the text holds.
pub proof fn invalid_character_in_group(text: Seq<u8>, j: int)
    requires
        0 <= j < text.len() - text.len() % 4,
        value_of(text[j]) is None,
    ensures
        decoding(text) matches Err(Base64Error::InvalidCharacter),
{
}

/// A character outside the alphabet among the two or three characters after
/// the last whole group is reported as such.
pub proof fn invalid_character_in_rest(text: Seq<u8>, j: int)
    requires
        text.len() % 4 != 1,
        0 <= j < text.len(),
        value_of(text[j]) is None,
    ensures
        decoding(text) matches Err(Base64Error::InvalidCharacter),
{
}

/// A text of whole groups and one character more is refused for its length,
/// whatever that character is, where the groups are in the alphabet.
pub proof fn single_character_left(text: Seq<u8>)
    requires
        text.len() % 4 == 1,
        in_alphabet(text, 0, text.len() - 1),
    ensures
        decoding(text) matches Err(Base64Error::Length),
{
}

/// A text decodes exactly if it is in the alphabet and does not end in a
/// group of one character; it then decodes to three bytes for every four
/// characters.
pub proof fn decoding_is_ok(text: Seq<u8>)
    ensures
        decoding(text) is Ok <==> text.len() % 4 != 1 && in_alphabet(text, 0, text.len() as int),
        decoding(text) is Ok ==> decoding(text).unwrap().len() == decoded_len(text.len()),
{
}

} // verus!
