//! How the format spells integers and bit fields in bytes.
//!
//! Every integer is little-endian. Signed integers are two's complement.
//! The models here are arithmetic, so that a field's value can be read off
//! a byte without reasoning about bit operations.
use vstd::prelude::*;

verus! {

/// The weight of bit `index` of a byte: 1 for bit 0, 128 for bit 7.
pub open spec fn bit_weight(index: int) -> int {
    if index <= 0 {
        1
    } else if index == 1 {
        2
    } else if index == 2 {
        4
    } else if index == 3 {
        8
    } else if index == 4 {
        16
    } else if index == 5 {
        32
    } else if index == 6 {
        64
    } else if index == 7 {
        128
    } else {
        256
    }
}

/// Whether bit `index` of `byte` is set. Bit 0 is the least significant.
pub open spec fn bit(byte: u8, index: int) -> bool {
    (byte as int / bit_weight(index)) % 2 == 1
}

/// The number spelled by the `count` least significant bits of `byte`.
pub open spec fn low_bits(byte: u8, count: int) -> u8 {
    (byte as int % bit_weight(count)) as u8
}

/// The byte read as a two's complement number.
pub open spec fn signed_byte(byte: u8) -> i8 {
    if byte < 128 {
        byte as i8
    } else {
        (byte as int - 256) as i8
    }
}

/// The unsigned 16-bit integer whose low byte is `bytes[at]`.
pub open spec fn u16_at(bytes: Seq<u8>, at: int) -> u16 {
    (bytes[at] as int + 256 * bytes[at + 1] as int) as u16
}

/// The signed 16-bit integer whose low byte is `bytes[at]`.
pub open spec fn i16_at(bytes: Seq<u8>, at: int) -> i16 {
    let raw = u16_at(bytes, at) as int;
    if raw < 32768 {
        raw as i16
    } else {
        (raw - 65536) as i16
    }
}

/// The unsigned 32-bit integer whose low byte is `bytes[at]`.
pub open spec fn u32_at(bytes: Seq<u8>, at: int) -> u32 {
    (bytes[at] as int + 256 * bytes[at + 1] as int + 65536 * bytes[at + 2] as int + 16777216
        * bytes[at + 3] as int) as u32
}

/// Masking a byte keeps its low bits.
pub proof fn lemma_mask_keeps_low_bits(byte: u8)
    ensures
        byte & 0b0000_0001 == low_bits(byte, 1),
        byte & 0b0000_0011 == low_bits(byte, 2),
        byte & 0b0000_0111 == low_bits(byte, 3),
        byte & 0b0000_1111 == low_bits(byte, 4),
        byte & 0b0011_1111 == low_bits(byte, 6),
{
    assert(byte & 0b0000_0001 == byte % 2) by (bit_vector);
    assert(byte & 0b0000_0011 == byte % 4) by (bit_vector);
    assert(byte & 0b0000_0111 == byte % 8) by (bit_vector);
    assert(byte & 0b0000_1111 == byte % 16) by (bit_vector);
    assert(byte & 0b0011_1111 == byte % 64) by (bit_vector);
}

/// Masking a 16-bit value with `0x03ff` keeps its ten low bits.
pub proof fn lemma_mask_keeps_low_ten_bits(value: u16)
    ensures
        value & 0b0000_0011_1111_1111 == value % 1024,
{
    assert(value & 0b0000_0011_1111_1111 == value % 1024) by (bit_vector);
}

/// Masking a byte with one bit and comparing with zero tests that bit.
pub proof fn lemma_mask_tests_bit(byte: u8)
    ensures
        (byte & 0b0000_0001 > 0) == bit(byte, 0),
        (byte & 0b0001_0000 > 0) == bit(byte, 4),
        (byte & 0b0010_0000 > 0) == bit(byte, 5),
        (byte & 0b1000_0000 > 0) == bit(byte, 7),
{
    assert((byte & 0b0000_0001 > 0) == (byte % 2 == 1)) by (bit_vector);
    assert((byte & 0b0001_0000 > 0) == ((byte / 16) % 2 == 1)) by (bit_vector);
    assert((byte & 0b0010_0000 > 0) == ((byte / 32) % 2 == 1)) by (bit_vector);
    assert((byte & 0b1000_0000 > 0) == ((byte / 128) % 2 == 1)) by (bit_vector);
}

/// Reads the byte as a two's complement number.
pub fn to_signed_byte(byte: u8) -> (value: i8)
    ensures
        value == signed_byte(byte),
{
    if byte < 128 {
        byte as i8
    } else {
        (byte as i16 - 256) as i8
    }
}

/// Reads the little-endian unsigned 16-bit integer at `at`.
pub fn read_u16(bytes: &[u8], at: usize) -> (value: u16)
    requires
        at + 2 <= bytes@.len(),
    ensures
        value == u16_at(bytes@, at as int),
{
    let low: u16 = bytes[at] as u16;
    let high: u16 = bytes[at + 1] as u16;
    low + 256 * high
}

/// Reads the little-endian signed 16-bit integer at `at`.
pub fn read_i16(bytes: &[u8], at: usize) -> (value: i16)
    requires
        at + 2 <= bytes@.len(),
    ensures
        value == i16_at(bytes@, at as int),
{
    let raw: u16 = read_u16(bytes, at);
    if raw < 32768 {
        raw as i16
    } else {
        (raw as i32 - 65536) as i16
    }
}

/// Reads the little-endian unsigned 32-bit integer at `at`.
pub fn read_u32(bytes: &[u8], at: usize) -> (value: u32)
    requires
        at + 4 <= bytes@.len(),
    ensures
        value == u32_at(bytes@, at as int),
{
    let b0: u32 = bytes[at] as u32;
    let b1: u32 = bytes[at + 1] as u32;
    let b2: u32 = bytes[at + 2] as u32;
    let b3: u32 = bytes[at + 3] as u32;
    b0 + 256 * b1 + 65536 * b2 + 16777216 * b3
}

} // verus!
