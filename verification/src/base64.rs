//! The base64 variant of bcrypt hash strings: the alphabet `./A-Za-z0-9`, three
//! bytes to four characters, and no padding character.
//!
//! Text and bytes are modelled as `Seq<u8>`. [`encoded`] says what the text of
//! a byte sequence is and [`decoding`] what a text decodes to, or why it does
//! not; [`encode`] and [`decode`] compute them into buffers of the exact size.

use vstd::prelude::*;

pub mod laws;

verus! {

/// An error decoding text in the bcrypt alphabet.
#[derive(Clone, Copy, Debug, PartialEq, Eq)]
pub enum Base64Error {
    /// A byte of the text is not one of the 64 characters of the alphabet.
    InvalidCharacter,
    /// The text ends in a group of a single character, which no byte sequence
    /// encodes to.
    Length,
}

/// The 64 characters, each at the index of the 6-bit value it stands for.
const ALPHABET: [u8; 64] = [
    '.' as u8, '/' as u8, 'A' as u8, 'B' as u8, 'C' as u8, 'D' as u8, 'E' as u8, 'F' as u8,
    'G' as u8, 'H' as u8, 'I' as u8, 'J' as u8, 'K' as u8, 'L' as u8, 'M' as u8, 'N' as u8,
    'O' as u8, 'P' as u8, 'Q' as u8, 'R' as u8, 'S' as u8, 'T' as u8, 'U' as u8, 'V' as u8,
    'W' as u8, 'X' as u8, 'Y' as u8, 'Z' as u8, 'a' as u8, 'b' as u8, 'c' as u8, 'd' as u8,
    'e' as u8, 'f' as u8, 'g' as u8, 'h' as u8, 'i' as u8, 'j' as u8, 'k' as u8, 'l' as u8,
    'm' as u8, 'n' as u8, 'o' as u8, 'p' as u8, 'q' as u8, 'r' as u8, 's' as u8, 't' as u8,
    'u' as u8, 'v' as u8, 'w' as u8, 'x' as u8, 'y' as u8, 'z' as u8, '0' as u8, '1' as u8,
    '2' as u8, '3' as u8, '4' as u8, '5' as u8, '6' as u8, '7' as u8, '8' as u8, '9' as u8,
];

/// The 6-bit value of each byte from `.` to `z`, at the byte's distance from
/// `.`; -1 where the byte is not in the alphabet.
const REVERSE_ALPHABET: [i8; 77] = [
    0, 1,
    54, 55, 56, 57, 58, 59, 60, 61, 62, 63,
    -1, -1, -1, -1, -1, -1, -1,
    2, 3, 4, 5, 6, 7, 8, 9, 10, 11, 12, 13, 14, 15, 16, 17, 18, 19, 20, 21, 22, 23, 24, 25, 26, 27,
    -1, -1, -1, -1, -1, -1,
    28, 29, 30, 31, 32, 33, 34, 35, 36, 37, 38, 39, 40, 41, 42, 43, 44, 45, 46, 47, 48, 49, 50, 51,
    52, 53,
];

/// The character that stands for the 6-bit value `value`: `.`, `/`, then the
/// upper-case letters, the lower-case letters and the digits.
pub open spec fn symbol(value: u8) -> u8 {
    if value == 0 {
        '.' as u8
    } else if value == 1 {
        '/' as u8
    } else if value < 28 {
        ('A' as u8 + (value - 2)) as u8
    } else if value < 54 {
        ('a' as u8 + (value - 28)) as u8
    } else {
        ('0' as u8 + (value - 54)) as u8
    }
}

/// The 6-bit value that the character `c` stands for, if it is in the alphabet.
pub open spec fn value_of(c: u8) -> Option<u8> {
    if c == '.' as u8 {
        Some(0u8)
    } else if c == '/' as u8 {
        Some(1u8)
    } else if 'A' as u8 <= c <= 'Z' as u8 {
        Some((c - 'A' as u8 + 2) as u8)
    } else if 'a' as u8 <= c <= 'z' as u8 {
        Some((c - 'a' as u8 + 28) as u8)
    } else if '0' as u8 <= c <= '9' as u8 {
        Some((c - '0' as u8 + 54) as u8)
    } else {
        None
    }
}

/// The number of characters that `n` bytes encode to: four for every three
/// bytes, two for one byte left over and three for two.
pub open spec fn encoded_len(n: nat) -> nat {
    (4 * n + 2) / 3
}

/// The number of bytes that `n` characters decode to.
pub open spec fn decoded_len(n: nat) -> nat {
    3 * n / 4
}

/// The byte of `bytes` at `i`, and zero past the end.
pub open spec fn byte_or_zero(bytes: Seq<u8>, i: int) -> u8 {
    if 0 <= i < bytes.len() {
        bytes[i]
    } else {
        0
    }
}

/// The 6-bit value at position `r` (0 to 3) of the group that packs the bytes
/// `b0`, `b1`, `b2`, most significant bits first.
pub open spec fn pack(b0: u8, b1: u8, b2: u8, r: int) -> u8 {
    if r == 0 {
        b0 >> 2
    } else if r == 1 {
        (b0 & 0x03) << 4 | b1 >> 4
    } else if r == 2 {
        (b1 & 0x0f) << 2 | b2 >> 6
    } else {
        b2 & 0x3f
    }
}

/// The byte at position `r` (0 to 2) of the group that the 6-bit values `v0`
/// to `v3` pack.
pub open spec fn unpack(v0: u8, v1: u8, v2: u8, v3: u8, r: int) -> u8 {
    if r == 0 {
        v0 << 2 | v1 >> 4
    } else if r == 1 {
        v1 << 4 | v2 >> 2
    } else {
        v2 << 6 | v3
    }
}

/// The `k`-th 6-bit value of `bytes`: its bits are cut into groups of six from
/// the first byte's top bit on, the last group filled up with zero bits.
pub open spec fn sextet(bytes: Seq<u8>, k: int) -> u8 {
    let i = 3 * (k / 4);
    pack(byte_or_zero(bytes, i), byte_or_zero(bytes, i + 1), byte_or_zero(bytes, i + 2), k % 4)
}

/// The text of `bytes`: one character for each 6-bit value.
pub open spec fn encoded(bytes: Seq<u8>) -> Seq<u8> {
    Seq::new(encoded_len(bytes.len()), |k: int| symbol(sextet(bytes, k)))
}

/// The 6-bit value of the character of `text` at `j`; zero where there is no
/// character or it is not in the alphabet.
pub open spec fn value_or_zero(text: Seq<u8>, j: int) -> u8 {
    if 0 <= j < text.len() {
        match value_of(text[j]) {
            Some(v) => v,
            None => 0,
        }
    } else {
        0
    }
}

/// The `k`-th byte that the characters of `text` pack.
pub open spec fn octet(text: Seq<u8>, k: int) -> u8 {
    let j = 4 * (k / 3);
    unpack(
        value_or_zero(text, j),
        value_or_zero(text, j + 1),
        value_or_zero(text, j + 2),
        value_or_zero(text, j + 3),
        k % 3,
    )
}

/// The bytes of `text`. The bits of a last character that fill no whole byte
/// are dropped, whatever they are.
pub open spec fn decoded(text: Seq<u8>) -> Seq<u8> {
    Seq::new(decoded_len(text.len()), |k: int| octet(text, k))
}

/// Every character of `text` from `start` up to `end` is in the alphabet.
pub open spec fn in_alphabet(text: Seq<u8>, start: int, end: int) -> bool {
    forall|j: int| start <= j < end ==> (#[trigger] value_of(text[j])) is Some
}

/// What decoding `text` gives. The groups of four characters are read first,
/// then what is left: a character outside the alphabet in a whole group is
/// reported before a single character left over, that before one outside the
/// alphabet among two or three left over.
pub open spec fn decoding(text: Seq<u8>) -> Result<Seq<u8>, Base64Error> {
    let whole = text.len() - text.len() % 4;
    if !in_alphabet(text, 0, whole) {
        Err(Base64Error::InvalidCharacter)
    } else if text.len() % 4 == 1 {
        Err(Base64Error::Length)
    } else if !in_alphabet(text, whole, text.len() as int) {
        Err(Base64Error::InvalidCharacter)
    } else {
        Ok(decoded(text))
    }
}

/// The last character of `text` has no bit set that decoding drops.
pub open spec fn canonical(text: Seq<u8>) -> bool {
    let last = value_or_zero(text, text.len() - 1);
    &&& text.len() % 4 == 2 ==> last & 0x0f == 0
    &&& text.len() % 4 == 3 ==> last & 0x03 == 0
}

/// The values that [`pack`] gives have six bits, and a group that is filled
/// up with zero bytes ends as [`encode`] writes it.
proof fn lemma_pack(b0: u8, b1: u8, b2: u8)
    by (bit_vector)
    ensures
        b0 >> 2 < 64,
        ((b0 & 0x03) << 4 | b1 >> 4) < 64,
        ((b1 & 0x0f) << 2 | b2 >> 6) < 64,
        b2 & 0x3f < 64,
        (b0 & 0x03) << 4 < 64,
        (b1 & 0x0f) << 2 < 64,
        ((b0 & 0x03) << 4 | 0u8 >> 4) == (b0 & 0x03) << 4,
        ((b1 & 0x0f) << 2 | 0u8 >> 6) == (b1 & 0x0f) << 2,
{
}

/// The character of a 6-bit value, from the table.
fn char_at(index: u8) -> (c: u8)
    requires
        index < 64,
    ensures
        c == symbol(index),
{
    ALPHABET[index as usize]
}

/// The 6-bit value of a character, from the table; any byte that the table
/// does not hold, or holds as -1, is no character of the alphabet.
fn index_for(c: u8) -> (r: Result<u8, Base64Error>)
    ensures
        match value_of(c) {
            Some(value) => r matches Ok(v) && v == value && v < 64,
            None => r matches Err(Base64Error::InvalidCharacter),
        },
{
    if c < '.' as u8 || c > 'z' as u8 {
        return Err(Base64Error::InvalidCharacter);
    }
    let entry: i8 = REVERSE_ALPHABET[(c - '.' as u8) as usize];
    if entry < 0 {
        Err(Base64Error::InvalidCharacter)
    } else {
        Ok(entry as u8)
    }
}

/// Writes the text of `from` to `to`, which has exactly its length.
pub fn encode(from: &[u8], to: &mut [u8])
    requires
        old(to)@.len() == encoded_len(from@.len()),
    ensures
        final(to)@ == encoded(from@),
{
    let n = from.len();
    let mut i: usize = 0;
    let mut o: usize = 0;
    while n - i >= 3
        invariant
            n == from@.len(),
            to@.len() == encoded_len(from@.len()),
            i <= n,
            i % 3 == 0,
            o == 4 * (i / 3),
            forall|k: int| 0 <= k < o ==> to@[k] == symbol(sextet(from@, k)),
        decreases n - i,
    {
        let b0 = from[i];
        let b1 = from[i + 1];
        let b2 = from[i + 2];
        proof {
            lemma_pack(b0, b1, b2);
        }
        to[o] = char_at(b0 >> 2);
        to[o + 1] = char_at((b0 & 0x03) << 4 | b1 >> 4);
        to[o + 2] = char_at((b1 & 0x0f) << 2 | b2 >> 6);
        to[o + 3] = char_at(b2 & 0x3f);
        i += 3;
        o += 4;
    }
    if n - i == 1 {
        let b0 = from[i];
        proof {
            lemma_pack(b0, 0, 0);
        }
        to[o] = char_at(b0 >> 2);
        to[o + 1] = char_at((b0 & 0x03) << 4);
    } else if n - i == 2 {
        let b0 = from[i];
        let b1 = from[i + 1];
        proof {
            lemma_pack(b0, b1, 0);
        }
        to[o] = char_at(b0 >> 2);
        to[o + 1] = char_at((b0 & 0x03) << 4 | b1 >> 4);
        to[o + 2] = char_at((b1 & 0x0f) << 2);
    }
}

/// Decodes `from` to `to`, which has exactly the length of what `from` decodes
/// to. Where `from` does not decode, `to` may be partly overwritten.
pub fn decode(from: &[u8], to: &mut [u8]) -> (r: Result<(), Base64Error>)
    requires
        old(to)@.len() == decoded_len(from@.len()),
    ensures
        final(to)@.len() == old(to)@.len(),
        match decoding(from@) {
            Ok(bytes) => r is Ok && final(to)@ == bytes,
            Err(e) => r matches Err(error) && error == e,
        },
{
    let n = from.len();
    let mut i: usize = 0;
    let mut o: usize = 0;
    while n - i >= 4
        invariant
            n == from@.len(),
            to@.len() == old(to)@.len() == decoded_len(from@.len()),
            i <= n,
            i % 4 == 0,
            o == 3 * (i / 4),
            in_alphabet(from@, 0, i as int),
            forall|k: int| 0 <= k < o ==> to@[k] == octet(from@, k),
        decreases n - i,
    {
        let i0 = index_for(from[i])?;
        let i1 = index_for(from[i + 1])?;
        let i2 = index_for(from[i + 2])?;
        let i3 = index_for(from[i + 3])?;
        to[o] = i0 << 2 | i1 >> 4;
        to[o + 1] = i1 << 4 | i2 >> 2;
        to[o + 2] = i2 << 6 | i3;
        i += 4;
        o += 3;
    }
    if n - i == 1 {
        return Err(Base64Error::Length);
    } else if n - i == 2 {
        let i0 = index_for(from[i])?;
        let i1 = index_for(from[i + 1])?;
        to[o] = i0 << 2 | i1 >> 4;
    } else if n - i == 3 {
        let i0 = index_for(from[i])?;
        let i1 = index_for(from[i + 1])?;
        let i2 = index_for(from[i + 2])?;
        to[o] = i0 << 2 | i1 >> 4;
        to[o + 1] = i1 << 4 | i2 >> 2;
    }
    Ok(())
}

} // verus!
