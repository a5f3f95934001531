//! Conversions between the signed and the unsigned sample kinds of one size.
//! Both kinds divide the same range into the same steps: the unsigned value is
//! the signed one moved up by half the range.

use vstd::prelude::*;

verus! {

/// Whether a value is a signed sample of 24 bits: the highest byte of its 32
/// bits repeats the sign.
pub open spec fn is_i24(value: i32) -> bool {
    -0x80_0000 <= value < 0x80_0000
}

/// Whether a value is an unsigned sample of 24 bits: the highest byte of its
/// 32 bits is unused.
pub open spec fn is_u24(value: u32) -> bool {
    value < 0x100_0000
}

/// Tells whether a value is a signed sample of 24 bits.
pub fn fits_i24(value: i32) -> (b: bool)
    ensures
        b == is_i24(value),
{
    -0x80_0000 <= value && value < 0x80_0000
}

/// Tells whether a value is an unsigned sample of 24 bits.
pub fn fits_u24(value: u32) -> (b: bool)
    ensures
        b == is_u24(value),
{
    value < 0x100_0000
}

pub fn i8_to_u8(s: i8) -> (r: u8)
    ensures
        r == s + 0x80,
{
    if s < 0 {
        (s + 127 + 1) as u8
    } else {
        (s as u8) + 128
    }
}

pub fn u8_to_i8(s: u8) -> (r: i8)
    ensures
        r == s - 0x80,
{
    if s < 128 {
        s as i8 - 127 - 1
    } else {
        (s - 128) as i8
    }
}

pub fn i16_to_u16(s: i16) -> (r: u16)
    ensures
        r == s + 0x8000,
{
    if s < 0 {
        (s + 32_767 + 1) as u16
    } else {
        s as u16 + 32_768
    }
}

pub fn u16_to_i16(s: u16) -> (r: i16)
    ensures
        r == s - 0x8000,
{
    if s < 32_768 {
        s as i16 - 32_767 - 1
    } else {
        (s - 32_768) as i16
    }
}

pub fn i24_to_u24(s: i32) -> (r: u32)
    requires
        is_i24(s),
    ensures
        r == s + 0x80_0000,
        is_u24(r),
{
    (s + 0x80_0000) as u32
}

pub fn u24_to_i24(s: u32) -> (r: i32)
    requires
        is_u24(s),
    ensures
        r == s - 0x80_0000,
        is_i24(r),
{
    s as i32 - 0x80_0000
}

} // verus!
