//! Bit-level packing of raw signal values into 64-bit frame words.

use byteorder::ByteOrder;
use vstd::arithmetic::div_mod::{lemma_basic_div, lemma_small_mod};
use vstd::arithmetic::power2::{
    lemma2_to64, lemma2_to64_rest, lemma_pow2_pos, lemma_pow2_strictly_increases, pow2,
};
use vstd::bits::{
    lemma_u64_low_bits_mask_is_mod, lemma_u64_pow2_no_overflow, lemma_u64_shl_is_mul,
    lemma_u64_shr_is_div, low_bits_mask,
};
use vstd::prelude::*;

verus! {

/// The 64-bit word whose least significant byte is `b[0]`.
pub open spec fn word_le(b: Seq<u8>) -> u64 {
    (b[0] as u64) | (b[1] as u64) << 8 | (b[2] as u64) << 16 | (b[3] as u64) << 24
        | (b[4] as u64) << 32 | (b[5] as u64) << 40 | (b[6] as u64) << 48 | (b[7] as u64) << 56
}

/// The 64-bit word whose most significant byte is `b[0]`.
pub open spec fn word_be(b: Seq<u8>) -> u64 {
    (b[7] as u64) | (b[6] as u64) << 8 | (b[5] as u64) << 16 | (b[4] as u64) << 24
        | (b[3] as u64) << 32 | (b[2] as u64) << 40 | (b[1] as u64) << 48 | (b[0] as u64) << 56
}

/// The word that the first eight bytes of `b` spell in the given byte order.
pub open spec fn word_of(b: Seq<u8>, little_endian: bool) -> u64 {
    if little_endian {
        word_le(b)
    } else {
        word_be(b)
    }
}

/// Calls `byteorder::LittleEndian::read_u64`, which reads the first eight
/// bytes of the buffer as a number with the least significant byte first.
/// It panics on a shorter buffer, which the precondition excludes.
#[verifier::external_body]
fn read_le(buf: &[u8]) -> (w: u64)
    requires
        buf@.len() >= 8,
    ensures
        w == word_le(buf@),
{
    byteorder::LittleEndian::read_u64(buf)
}

/// Calls `byteorder::BigEndian::read_u64`, which reads the first eight bytes
/// of the buffer as a number with the most significant byte first. It panics
/// on a shorter buffer, which the precondition excludes.
#[verifier::external_body]
fn read_be(buf: &[u8]) -> (w: u64)
    requires
        buf@.len() >= 8,
    ensures
        w == word_be(buf@),
{
    byteorder::BigEndian::read_u64(buf)
}

/// Reads the first eight bytes of `buf` as one word.
pub fn read_word(buf: &[u8], little_endian: bool) -> (w: u64)
    requires
        buf@.len() >= 8,
    ensures
        w == word_of(buf@, little_endian),
{
    if little_endian {
        read_le(buf)
    } else {
        read_be(buf)
    }
}

/// The eight bytes of `w`, least significant first.
pub open spec fn bytes_le(w: u64) -> Seq<u8> {
    seq![
        (w & 0xff) as u8,
        ((w >> 8) & 0xff) as u8,
        ((w >> 16) & 0xff) as u8,
        ((w >> 24) & 0xff) as u8,
        ((w >> 32) & 0xff) as u8,
        ((w >> 40) & 0xff) as u8,
        ((w >> 48) & 0xff) as u8,
        ((w >> 56) & 0xff) as u8,
    ]
}

/// The eight bytes of `w`, most significant first.
pub open spec fn bytes_be(w: u64) -> Seq<u8> {
    seq![
        ((w >> 56) & 0xff) as u8,
        ((w >> 48) & 0xff) as u8,
        ((w >> 40) & 0xff) as u8,
        ((w >> 32) & 0xff) as u8,
        ((w >> 24) & 0xff) as u8,
        ((w >> 16) & 0xff) as u8,
        ((w >> 8) & 0xff) as u8,
        (w & 0xff) as u8,
    ]
}

/// The eight bytes of `w` in the given byte order.
pub open spec fn bytes_of(w: u64, little_endian: bool) -> Seq<u8> {
    if little_endian {
        bytes_le(w)
    } else {
        bytes_be(w)
    }
}

/// Writes `w` out as eight bytes.
pub fn write_word(w: u64, little_endian: bool) -> (b: [u8; 8])
    ensures
        b@ == bytes_of(w, little_endian),
{
    assert((w & 0xff) <= 0xff && ((w >> 8) & 0xff) <= 0xff && ((w >> 16) & 0xff) <= 0xff && ((w
        >> 24) & 0xff) <= 0xff && ((w >> 32) & 0xff) <= 0xff && ((w >> 40) & 0xff) <= 0xff && ((w
        >> 48) & 0xff) <= 0xff && ((w >> 56) & 0xff) <= 0xff) by (bit_vector);
    let b0: u8 = (w & 0xff) as u8;
    let b1: u8 = ((w >> 8) & 0xff) as u8;
    let b2: u8 = ((w >> 16) & 0xff) as u8;
    let b3: u8 = ((w >> 24) & 0xff) as u8;
    let b4: u8 = ((w >> 32) & 0xff) as u8;
    let b5: u8 = ((w >> 40) & 0xff) as u8;
    let b6: u8 = ((w >> 48) & 0xff) as u8;
    let b7: u8 = ((w >> 56) & 0xff) as u8;
    let b: [u8; 8] = if little_endian {
        [b0, b1, b2, b3, b4, b5, b6, b7]
    } else {
        [b7, b6, b5, b4, b3, b2, b1, b0]
    };
    assert(b@ =~= bytes_of(w, little_endian));
    b
}

/// The word with the lowest `bit_len` bits set; all 64 once `bit_len`
/// reaches the width of the word.
pub open spec fn field_mask(bit_len: nat) -> u64 {
    if bit_len >= 64 {
        0xffff_ffff_ffff_ffffu64
    } else {
        ((1u64 << (bit_len as u64)) - 1) as u64
    }
}

/// The `bit_len` bits of `word` that start at `start_bit`, bit 0 being the
/// least significant. Bits beyond the word read as zero.
pub open spec fn extract(word: u64, start_bit: nat, bit_len: nat) -> u64 {
    if start_bit >= 64 {
        0
    } else {
        (word >> (start_bit as u64)) & field_mask(bit_len)
    }
}

/// `raw` moved up by `start_bit` bits; bits that leave the word are lost.
pub open spec fn place(raw: u64, start_bit: nat) -> u64 {
    if start_bit >= 64 {
        0
    } else {
        raw << (start_bit as u64)
    }
}

/// Whether `raw` is more than two to the power `bit_len`, the bound beyond
/// which a value is refused for a field of that width.
pub open spec fn exceeds(raw: u64, bit_len: nat) -> bool {
    bit_len < 64 && raw > (1u64 << (bit_len as u64))
}

/// Computes the mask of a field.
pub fn mask_for(bit_len: usize) -> (m: u64)
    ensures
        m == field_mask(bit_len as nat),
{
    if bit_len >= 64 {
        u64::MAX
    } else {
        let n: u64 = bit_len as u64;
        assert(n < 64 ==> (1u64 << n) >= 1) by (bit_vector);
        (1u64 << n) - 1
    }
}

/// Reads a field out of a word.
pub fn extract_bits(word: u64, start_bit: usize, bit_len: usize) -> (raw: u64)
    ensures
        raw == extract(word, start_bit as nat, bit_len as nat),
{
    if start_bit >= 64 {
        0
    } else {
        let s: u64 = start_bit as u64;
        (word >> s) & mask_for(bit_len)
    }
}

/// Moves a raw value to its place in a word.
pub fn place_bits(raw: u64, start_bit: usize) -> (word: u64)
    ensures
        word == place(raw, start_bit as nat),
{
    if start_bit >= 64 {
        0
    } else {
        let s: u64 = start_bit as u64;
        raw << s
    }
}

/// Writing a word out and reading the bytes back in the same byte order
/// gives the word.
pub proof fn lemma_word_of_bytes(w: u64, little_endian: bool)
    ensures
        word_of(bytes_of(w, little_endian), little_endian) == w,
{
    assert((((w & 0xff) as u8) as u64) | (((w >> 8) & 0xff) as u8 as u64) << 8 | (((w >> 16)
        & 0xff) as u8 as u64) << 16 | (((w >> 24) & 0xff) as u8 as u64) << 24 | (((w >> 32)
        & 0xff) as u8 as u64) << 32 | (((w >> 40) & 0xff) as u8 as u64) << 40 | (((w >> 48)
        & 0xff) as u8 as u64) << 48 | (((w >> 56) & 0xff) as u8 as u64) << 56 == w) by (bit_vector);
}

/// A value that fits in `bit_len` bits and is placed so that the field ends
/// within the word is read back unchanged, and is not refused.
pub proof fn lemma_extract_place(raw: u64, start_bit: nat, bit_len: nat)
    requires
        start_bit + bit_len <= 64,
        raw <= field_mask(bit_len),
    ensures
        extract(place(raw, start_bit), start_bit, bit_len) == raw,
        !exceeds(raw, bit_len),
{
    let s = start_bit as u64;
    let l = bit_len as u64;
    if bit_len >= 64 {
        assert(s == 0);
        assert(((raw << 0u64) >> 0u64) & 0xffff_ffff_ffff_ffffu64 == raw) by (bit_vector);
    } else if start_bit >= 64 {
        assert(l == 0);
        assert(((1u64 << 0u64) - 1) as u64 == 0u64) by (bit_vector);
    } else {
        assert(s < 64 && l < 64 && s + l <= 64 && raw <= ((1u64 << l) - 1) as u64 ==> ((raw << s)
            >> s) & (((1u64 << l) - 1) as u64) == raw && raw <= (1u64 << l)) by (bit_vector);
    }
}

/// The word with its eight bytes in reverse order.
pub open spec fn swapped(w: u64) -> u64 {
    ((w & 0xff) << 56 | ((w >> 8) & 0xff) << 48 | ((w >> 16) & 0xff) << 40 | ((w >> 24) & 0xff) <<
        32 | ((w >> 32) & 0xff) << 24 | ((w >> 40) & 0xff) << 16 | ((w >> 48) & 0xff) << 8 | ((w >>
        56) & 0xff))
}

/// A word as a message that is read in little-endian order shows it: the
/// word itself where it was written in that order, the word with its bytes
/// in reverse where it was written in big-endian order.
pub open spec fn oriented(w: u64, little_endian: bool) -> u64 {
    if little_endian {
        w
    } else {
        swapped(w)
    }
}

/// Reversing the bytes of a word twice gives the word, and reversing goes
/// through the bitwise operators.
pub proof fn lemma_swapped(x: u64, y: u64)
    ensures
        swapped(swapped(x)) == x,
        swapped(x | y) == swapped(x) | swapped(y),
        swapped(x & y) == swapped(x) & swapped(y),
        swapped(x ^ y) == swapped(x) ^ swapped(y),
        swapped(0) == 0,
{
    assert(((((x & 0xff) << 56 | ((x >> 8) & 0xff) << 48 | ((x >> 16) & 0xff) << 40 | ((x >> 24) &
        0xff) << 32 | ((x >> 32) & 0xff) << 24 | ((x >> 40) & 0xff) << 16 | ((x >> 48) & 0xff) << 8
        | ((x >> 56) & 0xff)) & 0xff) << 56 | ((((x & 0xff) << 56 | ((x >> 8) & 0xff) << 48 | ((x >>
        16) & 0xff) << 40 | ((x >> 24) & 0xff) << 32 | ((x >> 32) & 0xff) << 24 | ((x >> 40) & 0xff)
        << 16 | ((x >> 48) & 0xff) << 8 | ((x >> 56) & 0xff)) >> 8) & 0xff) << 48 | ((((x & 0xff) <<
        56 | ((x >> 8) & 0xff) << 48 | ((x >> 16) & 0xff) << 40 | ((x >> 24) & 0xff) << 32 | ((x >>
        32) & 0xff) << 24 | ((x >> 40) & 0xff) << 16 | ((x >> 48) & 0xff) << 8 | ((x >> 56) & 0xff))
        >> 16) & 0xff) << 40 | ((((x & 0xff) << 56 | ((x >> 8) & 0xff) << 48 | ((x >> 16) & 0xff) <<
        40 | ((x >> 24) & 0xff) << 32 | ((x >> 32) & 0xff) << 24 | ((x >> 40) & 0xff) << 16 | ((x >>
        48) & 0xff) << 8 | ((x >> 56) & 0xff)) >> 24) & 0xff) << 32 | ((((x & 0xff) << 56 | ((x >>
        8) & 0xff) << 48 | ((x >> 16) & 0xff) << 40 | ((x >> 24) & 0xff) << 32 | ((x >> 32) & 0xff)
        << 24 | ((x >> 40) & 0xff) << 16 | ((x >> 48) & 0xff) << 8 | ((x >> 56) & 0xff)) >> 32) &
        0xff) << 24 | ((((x & 0xff) << 56 | ((x >> 8) & 0xff) << 48 | ((x >> 16) & 0xff) << 40 | ((x
        >> 24) & 0xff) << 32 | ((x >> 32) & 0xff) << 24 | ((x >> 40) & 0xff) << 16 | ((x >> 48) &
        0xff) << 8 | ((x >> 56) & 0xff)) >> 40) & 0xff) << 16 | ((((x & 0xff) << 56 | ((x >> 8) &
        0xff) << 48 | ((x >> 16) & 0xff) << 40 | ((x >> 24) & 0xff) << 32 | ((x >> 32) & 0xff) << 24
        | ((x >> 40) & 0xff) << 16 | ((x >> 48) & 0xff) << 8 | ((x >> 56) & 0xff)) >> 48) & 0xff) <<
        8 | ((((x & 0xff) << 56 | ((x >> 8) & 0xff) << 48 | ((x >> 16) & 0xff) << 40 | ((x >> 24) &
        0xff) << 32 | ((x >> 32) & 0xff) << 24 | ((x >> 40) & 0xff) << 16 | ((x >> 48) & 0xff) << 8
        | ((x >> 56) & 0xff)) >> 56) & 0xff)) == x) by (bit_vector);
    assert((((x | y) & 0xff) << 56 | (((x | y) >> 8) & 0xff) << 48 | (((x | y) >> 16) & 0xff) << 40
        | (((x | y) >> 24) & 0xff) << 32 | (((x | y) >> 32) & 0xff) << 24 | (((x | y) >> 40) & 0xff)
        << 16 | (((x | y) >> 48) & 0xff) << 8 | (((x | y) >> 56) & 0xff)) == ((x & 0xff) << 56 | ((x
        >> 8) & 0xff) << 48 | ((x >> 16) & 0xff) << 40 | ((x >> 24) & 0xff) << 32 | ((x >> 32) &
        0xff) << 24 | ((x >> 40) & 0xff) << 16 | ((x >> 48) & 0xff) << 8 | ((x >> 56) & 0xff)) | ((y
        & 0xff) << 56 | ((y >> 8) & 0xff) << 48 | ((y >> 16) & 0xff) << 40 | ((y >> 24) & 0xff) <<
        32 | ((y >> 32) & 0xff) << 24 | ((y >> 40) & 0xff) << 16 | ((y >> 48) & 0xff) << 8 | ((y >>
        56) & 0xff))) by (bit_vector);
    assert((((x & y) & 0xff) << 56 | (((x & y) >> 8) & 0xff) << 48 | (((x & y) >> 16) & 0xff) << 40
        | (((x & y) >> 24) & 0xff) << 32 | (((x & y) >> 32) & 0xff) << 24 | (((x & y) >> 40) & 0xff)
        << 16 | (((x & y) >> 48) & 0xff) << 8 | (((x & y) >> 56) & 0xff)) == ((x & 0xff) << 56 | ((x
        >> 8) & 0xff) << 48 | ((x >> 16) & 0xff) << 40 | ((x >> 24) & 0xff) << 32 | ((x >> 32) &
        0xff) << 24 | ((x >> 40) & 0xff) << 16 | ((x >> 48) & 0xff) << 8 | ((x >> 56) & 0xff)) & ((y
        & 0xff) << 56 | ((y >> 8) & 0xff) << 48 | ((y >> 16) & 0xff) << 40 | ((y >> 24) & 0xff) <<
        32 | ((y >> 32) & 0xff) << 24 | ((y >> 40) & 0xff) << 16 | ((y >> 48) & 0xff) << 8 | ((y >>
        56) & 0xff))) by (bit_vector);
    assert((((x ^ y) & 0xff) << 56 | (((x ^ y) >> 8) & 0xff) << 48 | (((x ^ y) >> 16) & 0xff) << 40
        | (((x ^ y) >> 24) & 0xff) << 32 | (((x ^ y) >> 32) & 0xff) << 24 | (((x ^ y) >> 40) & 0xff)
        << 16 | (((x ^ y) >> 48) & 0xff) << 8 | (((x ^ y) >> 56) & 0xff)) == ((x & 0xff) << 56 | ((x
        >> 8) & 0xff) << 48 | ((x >> 16) & 0xff) << 40 | ((x >> 24) & 0xff) << 32 | ((x >> 32) &
        0xff) << 24 | ((x >> 40) & 0xff) << 16 | ((x >> 48) & 0xff) << 8 | ((x >> 56) & 0xff)) ^ ((y
        & 0xff) << 56 | ((y >> 8) & 0xff) << 48 | ((y >> 16) & 0xff) << 40 | ((y >> 24) & 0xff) <<
        32 | ((y >> 32) & 0xff) << 24 | ((y >> 40) & 0xff) << 16 | ((y >> 48) & 0xff) << 8 | ((y >>
        56) & 0xff))) by (bit_vector);
    assert(((0u64 & 0xff) << 56 | ((0u64 >> 8) & 0xff) << 48 | ((0u64 >> 16) & 0xff) << 40 | ((0u64
        >> 24) & 0xff) << 32 | ((0u64 >> 32) & 0xff) << 24 | ((0u64 >> 40) & 0xff) << 16 | ((0u64 >>
        48) & 0xff) << 8 | ((0u64 >> 56) & 0xff)) == 0) by (bit_vector);
}

/// The same facts for a word as a little-endian reader sees it.
pub proof fn lemma_oriented(x: u64, y: u64, little_endian: bool)
    ensures
        oriented(oriented(x, little_endian), little_endian) == x,
        oriented(x | y, little_endian) == oriented(x, little_endian) | oriented(y, little_endian),
        oriented(x & y, little_endian) == oriented(x, little_endian) & oriented(y, little_endian),
        oriented(x ^ y, little_endian) == oriented(x, little_endian) ^ oriented(y, little_endian),
        oriented(0, little_endian) == 0,
{
    lemma_swapped(x, y);
}

/// What a little-endian reader sees of the bytes of a word.
pub proof fn lemma_word_le_of_bytes(w: u64, little_endian: bool)
    ensures
        word_le(bytes_of(w, little_endian)) == oriented(w, little_endian),
{
    if little_endian {
        lemma_word_of_bytes(w, true);
    } else {
        assert(((((w >> 56) & 0xff) as u8) as u64) | ((((w >> 48) & 0xff) as u8) as u64) << 8 |
            ((((w >> 40) & 0xff) as u8) as u64) << 16 | ((((w >> 32) & 0xff) as u8) as u64) << 24 |
            ((((w >> 24) & 0xff) as u8) as u64) << 32 | ((((w >> 16) & 0xff) as u8) as u64) << 40 |
            ((((w >> 8) & 0xff) as u8) as u64) << 48 | (((w & 0xff) as u8) as u64) << 56 == ((w &
            0xff) << 56 | ((w >> 8) & 0xff) << 48 | ((w >> 16) & 0xff) << 40 | ((w >> 24) & 0xff) <<
            32 | ((w >> 32) & 0xff) << 24 | ((w >> 40) & 0xff) << 16 | ((w >> 48) & 0xff) << 8 | ((w
            >> 56) & 0xff))) by (bit_vector);
    }
}

/// Reading bytes in either order, told by what a little-endian reader
/// sees.
pub proof fn lemma_word_of_oriented(b: Seq<u8>, little_endian: bool)
    ensures
        word_of(b, little_endian) == oriented(word_le(b), little_endian),
{
    let (b0, b1, b2, b3, b4, b5, b6, b7) = (b[0], b[1], b[2], b[3], b[4], b[5], b[6], b[7]);
    if !little_endian {
        assert((b7 as u64) | (b6 as u64) << 8 | (b5 as u64) << 16 | (b4 as u64) << 24 | (b3 as u64)
            << 32 | (b2 as u64) << 40 | (b1 as u64) << 48 | (b0 as u64) << 56 == ((((b0 as u64) |
            (b1 as u64) << 8 | (b2 as u64) << 16 | (b3 as u64) << 24 | (b4 as u64) << 32 | (b5 as
            u64) << 40 | (b6 as u64) << 48 | (b7 as u64) << 56) & 0xff) << 56 | ((((b0 as u64) | (b1
            as u64) << 8 | (b2 as u64) << 16 | (b3 as u64) << 24 | (b4 as u64) << 32 | (b5 as u64)
            << 40 | (b6 as u64) << 48 | (b7 as u64) << 56) >> 8) & 0xff) << 48 | ((((b0 as u64) |
            (b1 as u64) << 8 | (b2 as u64) << 16 | (b3 as u64) << 24 | (b4 as u64) << 32 | (b5 as
            u64) << 40 | (b6 as u64) << 48 | (b7 as u64) << 56) >> 16) & 0xff) << 40 | ((((b0 as
            u64) | (b1 as u64) << 8 | (b2 as u64) << 16 | (b3 as u64) << 24 | (b4 as u64) << 32 |
            (b5 as u64) << 40 | (b6 as u64) << 48 | (b7 as u64) << 56) >> 24) & 0xff) << 32 | ((((b0
            as u64) | (b1 as u64) << 8 | (b2 as u64) << 16 | (b3 as u64) << 24 | (b4 as u64) << 32 |
            (b5 as u64) << 40 | (b6 as u64) << 48 | (b7 as u64) << 56) >> 32) & 0xff) << 24 | ((((b0
            as u64) | (b1 as u64) << 8 | (b2 as u64) << 16 | (b3 as u64) << 24 | (b4 as u64) << 32 |
            (b5 as u64) << 40 | (b6 as u64) << 48 | (b7 as u64) << 56) >> 40) & 0xff) << 16 | ((((b0
            as u64) | (b1 as u64) << 8 | (b2 as u64) << 16 | (b3 as u64) << 24 | (b4 as u64) << 32 |
            (b5 as u64) << 40 | (b6 as u64) << 48 | (b7 as u64) << 56) >> 48) & 0xff) << 8 | ((((b0
            as u64) | (b1 as u64) << 8 | (b2 as u64) << 16 | (b3 as u64) << 24 | (b4 as u64) << 32 |
            (b5 as u64) << 40 | (b6 as u64) << 48 | (b7 as u64) << 56) >> 56) & 0xff))) by
            (bit_vector);
    }
}

/// A field of a word depends on the bits of the word within the field
/// alone: two words that agree there hold the same value.
pub proof fn lemma_same_field(x: u64, y: u64, start_bit: nat, bit_len: nat)
    requires
        (x ^ y) & place(field_mask(bit_len), start_bit) == 0,
    ensures
        extract(x, start_bit, bit_len) == extract(y, start_bit, bit_len),
{
    if start_bit < 64 {
        let s = start_bit as u64;
        if bit_len >= 64 {
            assert(s < 64 && (x ^ y) & (0xffff_ffff_ffff_ffffu64 << s) == 0 ==> (x >> s)
                & 0xffff_ffff_ffff_ffffu64 == (y >> s) & 0xffff_ffff_ffff_ffffu64) by (bit_vector);
        } else {
            let l = bit_len as u64;
            assert(s < 64 && l < 64 && (x ^ y) & ((((1u64 << l) - 1) as u64) << s) == 0 ==> (x
                >> s) & (((1u64 << l) - 1) as u64) == (y >> s) & (((1u64 << l) - 1) as u64))
                by (bit_vector);
        }
    }
}

/// A value that fits in the bits of a field lies, once placed, within the
/// field: it adds no bit to the placed mask of the field.
pub proof fn lemma_placed_within(raw: u64, start_bit: nat, bit_len: nat)
    requires
        raw <= field_mask(bit_len),
    ensures
        place(raw, start_bit) | place(field_mask(bit_len), start_bit) == place(
            field_mask(bit_len),
            start_bit,
        ),
{
    if start_bit < 64 {
        let s = start_bit as u64;
        if bit_len >= 64 {
            assert(s < 64 ==> (raw << s) | (0xffff_ffff_ffff_ffffu64 << s) == (
            0xffff_ffff_ffff_ffffu64 << s)) by (bit_vector);
        } else {
            let l = bit_len as u64;
            assert(s < 64 && l < 64 && raw <= ((1u64 << l) - 1) as u64 ==> (raw << s) | ((((1u64
                << l) - 1) as u64) << s) == ((((1u64 << l) - 1) as u64) << s)) by (bit_vector);
        }
    } else {
        assert(0u64 | 0u64 == 0) by (bit_vector);
    }
}

/// A field in the arithmetic of whole numbers: the word divided by two to
/// the power `start_bit`, modulo two to the power `bit_len`.
pub proof fn lemma_extract_is_arithmetic(word: u64, start_bit: nat, bit_len: nat)
    ensures
        extract(word, start_bit, bit_len) == (word as nat / pow2(start_bit)) % pow2(bit_len),
{
    lemma_pow2_pos(start_bit);
    lemma_pow2_pos(bit_len);
    lemma2_to64();
    lemma2_to64_rest();
    if start_bit >= 64 {
        if start_bit > 64 {
            lemma_pow2_strictly_increases(64, start_bit);
        }
        assert(word < pow2(start_bit));
        lemma_basic_div(word as int, pow2(start_bit) as int);
        lemma_small_mod(0, pow2(bit_len));
    } else {
        let s = start_bit as u64;
        let shifted = word >> s;
        lemma_u64_shr_is_div(word, s);
        if bit_len >= 64 {
            if bit_len > 64 {
                lemma_pow2_strictly_increases(64, bit_len);
            }
            assert(shifted & 0xffff_ffff_ffff_ffffu64 == shifted) by (bit_vector);
            lemma_small_mod(shifted as nat, pow2(bit_len));
        } else {
            let l = bit_len as u64;
            lemma_u64_pow2_no_overflow(bit_len);
            lemma_u64_shl_is_mul(1, l);
            assert(((1u64 << l) - 1) as u64 == low_bits_mask(bit_len) as u64);
            lemma_u64_low_bits_mask_is_mod(shifted, bit_len);
        }
    }
}

} // verus!
