//! Bit codec: bytes to ordered bit sequences, and fixed-width checksums.
//!
//! One bit order is used throughout the crate: the bits of a byte are listed
//! from the most significant to the least significant, and bytes keep their
//! order, so bit 0 of an encoded buffer is the top bit of its first byte.

use vstd::prelude::*;
use vstd::arithmetic::div_mod::{
    lemma_basic_div, lemma_div_basics, lemma_div_denominator, lemma_div_is_ordered,
};
use vstd::arithmetic::power2::{
    lemma2_to64, lemma_pow2_pos, lemma_pow2_strictly_increases, lemma_pow2_unfold, pow2,
};
use vstd::bits::{lemma_u32_shr_is_div, lemma_u64_shr_is_div, lemma_u8_shr_is_div};

verus! {

/// Bit `k` of `value`, where bit 0 is the least significant one.
pub open spec fn bit_of(value: nat, k: nat) -> bool {
    (value / pow2(k)) % 2 == 1
}

/// The eight bits of `byte`, least significant first.
pub open spec fn le_bits_of_byte(byte: u8) -> Seq<bool> {
    Seq::new(8, |i: int| bit_of(byte as nat, i as nat))
}

/// The eight bits of `byte`, most significant first.
pub open spec fn be_bits_of_byte(byte: u8) -> Seq<bool> {
    Seq::new(8, |i: int| bit_of(byte as nat, (7 - i) as nat))
}

/// Testing bit `k` of a byte with a shift and a mask reads `bit_of`.
proof fn lemma_u8_bit(byte: u8, k: u8)
    requires
        k < 8,
    ensures
        ((byte >> k) & 1 == 1) == bit_of(byte as nat, k as nat),
{
    let shifted = byte >> k;
    assert((shifted & 1 == 1) == (shifted % 2 == 1)) by (bit_vector);
    lemma_u8_shr_is_div(byte, k);
}

/// Lists the bits of one byte from the least significant upwards.
pub fn bytes_to_le_bits(byte: u8) -> (bits: Vec<bool>)
    ensures
        bits@ == le_bits_of_byte(byte),
{
    let mut bits: Vec<bool> = Vec::new();
    let mut i: u8 = 0;
    while i < 8
        invariant
            i <= 8,
            bits@.len() == i,
            forall|j: int| 0 <= j < i ==> bits@[j] == bit_of(byte as nat, j as nat),
        decreases 8 - i,
    {
        proof {
            lemma_u8_bit(byte, i);
        }
        let bit = (byte >> i) & 1 == 1;
        bits.push(bit);
        i += 1;
    }
    bits
}

/// Lists the bits of one byte from the most significant downwards.
pub fn bytes_to_be_bits(byte: &u8) -> (bits: Vec<bool>)
    ensures
        bits@ == be_bits_of_byte(*byte),
{
    let mut bits: Vec<bool> = Vec::new();
    let mut i: u8 = 0;
    while i < 8
        invariant
            i <= 8,
            bits@.len() == i,
            forall|j: int| 0 <= j < i ==> bits@[j] == bit_of(*byte as nat, (7 - j) as nat),
        decreases 8 - i,
    {
        let k: u8 = 7 - i;
        proof {
            lemma_u8_bit(*byte, k);
        }
        let bit = (*byte >> k) & 1 == 1;
        bits.push(bit);
        i += 1;
    }
    bits
}

/// The bits of a byte string: eight per byte, bytes in order, each byte
/// most significant bit first.
pub open spec fn bits_of_bytes(bytes: Seq<u8>) -> Seq<bool> {
    Seq::new(8 * bytes.len(), |i: int| bit_of(bytes[i / 8] as nat, (7 - i % 8) as nat))
}

/// Encodes a byte buffer as its bit sequence.
pub fn bytes_to_bits(bytes: &[u8]) -> (bits: Vec<bool>)
    ensures
        bits@ == bits_of_bytes(bytes@),
{
    let mut bits: Vec<bool> = Vec::new();
    let mut i: usize = 0;
    while i < bytes.len()
        invariant
            i <= bytes.len(),
            bits@.len() == 8 * i,
            forall|j: int|
                0 <= j < 8 * i ==> bits@[j] == bit_of(bytes@[j / 8] as nat, (7 - j % 8) as nat),
        decreases bytes.len() - i,
    {
        let mut byte_bits = bytes_to_be_bits(&bytes[i]);
        bits.append(&mut byte_bits);
        i += 1;
    }
    bits
}

/// The `count` low bytes of `value`, least significant byte first.
pub open spec fn le_bytes(value: nat, count: nat) -> Seq<u8> {
    Seq::new(count, |i: int| ((value / pow2((8 * i) as nat)) % 256) as u8)
}

/// The `count` low bytes of `value`, most significant byte first.
pub open spec fn be_bytes(value: nat, count: nat) -> Seq<u8> {
    Seq::new(count, |i: int| ((value / pow2((8 * (count - 1 - i)) as nat)) % 256) as u8)
}

/// Shifting and masking a word reads one of its bytes.
proof fn lemma_u32_byte(value: u32, shift: u32)
    requires
        shift < 32,
    ensures
        (value >> shift) & 0xff == (value as nat / pow2(shift as nat)) % 256,
        (value >> shift) & 0xff < 256,
{
    let shifted = value >> shift;
    assert(shifted & 0xff == shifted % 256) by (bit_vector);
    lemma_u32_shr_is_div(value, shift);
}

/// Shifting and masking a double word reads one of its bytes.
proof fn lemma_u64_byte(value: u64, shift: u64)
    requires
        shift < 64,
    ensures
        (value >> shift) & 0xff == (value as nat / pow2(shift as nat)) % 256,
        (value >> shift) & 0xff < 256,
{
    let shifted = value >> shift;
    assert(shifted & 0xff == shifted % 256) by (bit_vector);
    lemma_u64_shr_is_div(value, shift);
}

/// The four bytes of a word, least significant first.
pub fn u32_to_le_bytes(value: u32) -> (bytes: [u8; 4])
    ensures
        bytes@ == le_bytes(value as nat, 4),
{
    proof {
        lemma_u32_byte(value, 0);
        lemma_u32_byte(value, 8);
        lemma_u32_byte(value, 16);
        lemma_u32_byte(value, 24);
    }
    let bytes = [
        (value & 0xff) as u8,
        ((value >> 8) & 0xff) as u8,
        ((value >> 16) & 0xff) as u8,
        ((value >> 24) & 0xff) as u8,
    ];
    assert(value >> 0 == value) by (bit_vector);
    bytes
}

/// The four bytes of a word, most significant first.
pub fn u32_to_be_bytes(value: u32) -> (bytes: [u8; 4])
    ensures
        bytes@ == be_bytes(value as nat, 4),
{
    proof {
        lemma_u32_byte(value, 0);
        lemma_u32_byte(value, 8);
        lemma_u32_byte(value, 16);
        lemma_u32_byte(value, 24);
    }
    let bytes = [
        ((value >> 24) & 0xff) as u8,
        ((value >> 16) & 0xff) as u8,
        ((value >> 8) & 0xff) as u8,
        (value & 0xff) as u8,
    ];
    assert(value >> 0 == value) by (bit_vector);
    bytes
}

/// The word that four bytes spell, most significant byte first.
pub open spec fn be_word(bytes: Seq<u8>) -> u32 {
    (bytes[0] * 0x100_0000 + bytes[1] * 0x1_0000 + bytes[2] * 0x100 + bytes[3]) as u32
}

/// Reads a word from four bytes, most significant byte first.
pub fn u32_from_be_bytes(bytes: [u8; 4]) -> (word: u32)
    ensures
        word == be_word(bytes@),
{
    (bytes[0] as u32) * 0x100_0000 + (bytes[1] as u32) * 0x1_0000 + (bytes[2] as u32) * 0x100
        + (bytes[3] as u32)
}

/// The eight bytes of a double word, least significant first.
pub fn u64_to_le_bytes(value: u64) -> (bytes: [u8; 8])
    ensures
        bytes@ == le_bytes(value as nat, 8),
{
    proof {
        lemma_u64_byte(value, 0);
        lemma_u64_byte(value, 8);
        lemma_u64_byte(value, 16);
        lemma_u64_byte(value, 24);
        lemma_u64_byte(value, 32);
        lemma_u64_byte(value, 40);
        lemma_u64_byte(value, 48);
        lemma_u64_byte(value, 56);
    }
    let bytes = [
        (value & 0xff) as u8,
        ((value >> 8) & 0xff) as u8,
        ((value >> 16) & 0xff) as u8,
        ((value >> 24) & 0xff) as u8,
        ((value >> 32) & 0xff) as u8,
        ((value >> 40) & 0xff) as u8,
        ((value >> 48) & 0xff) as u8,
        ((value >> 56) & 0xff) as u8,
    ];
    assert(value >> 0 == value) by (bit_vector);
    bytes
}

/// The 32 bits of a word: its bytes from the least significant upwards, the
/// bits of each byte from the most significant downwards.
pub fn u32_to_bits(value: u32) -> (bits: Vec<bool>)
    ensures
        bits@ == bits_of_bytes(le_bytes(value as nat, 4)),
{
    let bytes = u32_to_le_bytes(value);
    bytes_to_bits(bytes.as_slice())
}

/// The 64 bits of a double word: its bytes from the least significant
/// upwards, the bits of each byte from the most significant downwards.
pub fn u64_to_bits(value: u64) -> (bits: Vec<bool>)
    ensures
        bits@ == bits_of_bytes(le_bytes(value as nat, 8)),
{
    let bytes = u64_to_le_bytes(value);
    bytes_to_bits(bytes.as_slice())
}

/// Why a checksum could not be produced.
#[derive(Debug, Clone, Copy, PartialEq, Eq, Structural)]
pub enum ChecksumError {
    /// The value has significant bits above the requested width.
    Truncated,
}

/// The low `width` bits of `value`, most significant first.
pub open spec fn checksum_bits(value: u32, width: nat) -> Seq<bool> {
    Seq::new(width, |i: int| bit_of(value as nat, (width - 1 - i) as nat))
}

/// Testing bit `k` of a word with a shift and a mask reads `bit_of`.
proof fn lemma_u32_bit(value: u32, k: u32)
    requires
        k < 32,
    ensures
        ((value >> k) & 1 == 1) == bit_of(value as nat, k as nat),
{
    let shifted = value >> k;
    assert((shifted & 1 == 1) == (shifted % 2 == 1)) by (bit_vector);
    lemma_u32_shr_is_div(value, k);
}

/// Every bit of a word at position 32 or above is clear.
proof fn lemma_u32_high_bit(value: u32, k: nat)
    requires
        k >= 32,
    ensures
        value < pow2(k),
        !bit_of(value as nat, k),
{
    lemma2_to64();
    if k > 32 {
        lemma_pow2_strictly_increases(32, k);
    }
    lemma_basic_div(value as int, pow2(k) as int);
}

/// A word is below `2^k` exactly when shifting it right by `k` leaves nothing.
proof fn lemma_u32_fits(value: u32, k: u32)
    requires
        k < 32,
    ensures
        (value >> k == 0) == (value < pow2(k as nat)),
{
    lemma_u32_shr_is_div(value, k);
    lemma_pow2_pos(k as nat);
    let d = pow2(k as nat) as int;
    if value < d {
        lemma_basic_div(value as int, d);
    } else {
        lemma_div_is_ordered(d, value as int, d);
        lemma_div_basics(d);
    }
}

/// Writes `value` as exactly `bit_lens` bits, most significant first.
///
/// Widths above 32 give leading zero bits.  A width too small to hold the
/// value is refused rather than silently dropping its upper bits.
pub fn checksum(value: u32, bit_lens: usize) -> (result: Result<Vec<bool>, ChecksumError>)
    ensures
        match result {
            Ok(bits) => value < pow2(bit_lens as nat) && bits@ == checksum_bits(
                value,
                bit_lens as nat,
            ),
            Err(e) => value >= pow2(bit_lens as nat) && e == ChecksumError::Truncated,
        },
{
    if bit_lens < 32 {
        proof {
            lemma_u32_fits(value, bit_lens as u32);
        }
        if (value >> (bit_lens as u32)) != 0 {
            return Err(ChecksumError::Truncated);
        }
    } else {
        proof {
            lemma_u32_high_bit(value, bit_lens as nat);
        }
    }
    let mut bits: Vec<bool> = Vec::new();
    let mut i: usize = 0;
    while i < bit_lens
        invariant
            i <= bit_lens,
            bits@.len() == i,
            forall|j: int|
                0 <= j < i ==> bits@[j] == bit_of(value as nat, (bit_lens - 1 - j) as nat),
        decreases bit_lens - i,
    {
        let k: usize = bit_lens - 1 - i;
        let bit = if k < 32 {
            proof {
                lemma_u32_bit(value, k as u32);
            }
            (value >> (k as u32)) & 1 == 1
        } else {
            proof {
                lemma_u32_high_bit(value, k as nat);
            }
            false
        };
        bits.push(bit);
        i += 1;
    }
    Ok(bits)
}

/// The number that a bit string spells, most significant bit first.
pub open spec fn bits_value(bits: Seq<bool>) -> nat
    decreases bits.len(),
{
    if bits.len() == 0 {
        0
    } else {
        2 * bits_value(bits.drop_last()) + if bits.last() {
            1nat
        } else {
            0nat
        }
    }
}

/// Bit `k + 1` of a number is bit `k` of its half.
proof fn lemma_bit_of_half(value: nat, k: nat)
    ensures
        bit_of(value, k + 1) == bit_of(value / 2, k),
{
    lemma_pow2_pos(k);
    lemma_pow2_unfold(k + 1);
    lemma_div_denominator(value as int, 2, pow2(k) as int);
}

/// A checksum spells the value it was made from: where the width holds the
/// value, reading the bits back as a binary number gives the value again.
pub proof fn lemma_checksum_value(value: u32, width: nat)
    requires
        value < pow2(width),
    ensures
        checksum_bits(value, width).len() == width,
        bits_value(checksum_bits(value, width)) == value,
    decreases width,
{
    lemma2_to64();
    let bits = checksum_bits(value, width);
    if width > 0 {
        let half = (value / 2) as u32;
        let rest = (width - 1) as nat;
        lemma_pow2_unfold(width);
        assert forall|i: int| 0 <= i < rest implies bits.drop_last()[i] == checksum_bits(
            half,
            rest,
        )[i] by {
            lemma_bit_of_half(value as nat, (rest - 1 - i) as nat);
        }
        assert(bits.drop_last() =~= checksum_bits(half, rest));
        assert(bits.last() == (value % 2 == 1)) by {
            assert(value as nat / 1 == value);
        }
        lemma_checksum_value(half, rest);
    }
}

} // verus!
