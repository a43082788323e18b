//! Widening IEEE 754 half-precision pixel values to single precision, on
//! their bit patterns.

use vstd::prelude::*;

verus! {

/// The exponent field (bits 10..15) of a half-precision pattern.
pub open spec fn half_exponent(bits: u16) -> int {
    (bits as int / 1024) % 32
}

/// The mantissa field (bits 0..10) of a half-precision pattern.
pub open spec fn half_mantissa(bits: u16) -> int {
    bits as int % 1024
}

/// The single-precision bit pattern of the half-precision value `bits`.
/// The sign carries over; a zero exponent (zero or subnormal) gives a
/// signed zero; the all-ones exponent (infinity or NaN) stays all ones with
/// its mantissa; any other exponent is rebiased from 15 to 127, the
/// mantissa widened by 13 zero bits.
pub fn f16_bits_to_f32_bits(bits: u16) -> (r: u32)
    ensures
        r as int / 0x8000_0000 == bits as int / 0x8000,
        (r as int / 0x80_0000) % 256 == (if half_exponent(bits) == 0 {
            0
        } else if half_exponent(bits) == 31 {
            255
        } else {
            half_exponent(bits) + 112
        }),
        r as int % 0x80_0000 == (if half_exponent(bits) == 0 {
            0
        } else {
            half_mantissa(bits) * 0x2000
        }),
{
    let b = bits as u32;
    let sign: u32 = (b & 0x8000) << 16;
    let exp: u32 = (b & 0x7C00) >> 10;
    let mant: u32 = b & 0x03FF;
    assert(exp == (b / 1024) % 32 && mant == b % 1024) by (bit_vector)
        requires
            b < 0x10000,
            exp == (b & 0x7C00) >> 10,
            mant == b & 0x03FF,
    ;
    let r: u32 = if exp == 0 {
        sign
    } else if exp == 31 {
        sign | 0x7F80_0000 | (mant << 13)
    } else {
        sign | ((exp + 112) << 23) | (mant << 13)
    };
    assert(r / 0x8000_0000 == b / 0x8000 && (r / 0x80_0000) % 256 == (if exp == 0 {
        0
    } else if exp == 31 {
        255
    } else {
        (exp + 112) as u32
    }) && r % 0x80_0000 == (if exp == 0 {
        0
    } else {
        mant * 0x2000
    })) by (bit_vector)
        requires
            b < 0x10000,
            sign == (b & 0x8000) << 16,
            exp == (b & 0x7C00) >> 10,
            mant == b & 0x03FF,
            exp == 0 ==> r == sign,
            exp == 31 ==> r == sign | 0x7F80_0000 | (mant << 13),
            exp != 0 && exp != 31 ==> r == sign | (((exp + 112) as u32) << 23) | (mant << 13),
    ;
    r
}

} // verus!
