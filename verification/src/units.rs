//! Units of length and time, and the arithmetic that converts between them.
//!
//! A length is a whole number of thousandths of a pixel, a speed is a number
//! of those per second, and a time is a whole number of microseconds.

use vstd::prelude::*;

verus! {

/// Microseconds in one second.
pub const MICROS_PER_SECOND: u64 = 1_000_000;

/// Length units in one pixel.
pub const UNITS_PER_PIXEL: u32 = 1000;

/// The nearest value to `v` that an `i32` coordinate can hold.
pub open spec fn clamp_i32(v: int) -> int {
    if v < i32::MIN {
        i32::MIN as int
    } else if v > i32::MAX {
        i32::MAX as int
    } else {
        v
    }
}

/// The nearest value to `v` that a `u32` can hold.
pub open spec fn clamp_u32(v: int) -> int {
    if v < 0 {
        0
    } else if v > u32::MAX {
        u32::MAX as int
    } else {
        v
    }
}

/// How far something moving at `speed` gets in `micros` microseconds,
/// rounded down to a whole unit.
pub open spec fn travel(speed: u32, micros: u32) -> int {
    (speed * micros) / 1_000_000
}

/// A length rounded to the nearest whole pixel, halves rounding up.
pub open spec fn whole_pixels(length: u32) -> int {
    (length + 500) / 1000
}

/// Half of a coordinate, rounded towards zero.
pub open spec fn half(v: int) -> int {
    if v >= 0 {
        v / 2
    } else {
        -((-v) / 2)
    }
}

/// Brings a wide intermediate result back into the range of a coordinate.
pub fn saturate(v: i64) -> (r: i32)
    ensures
        r == clamp_i32(v as int),
{
    if v < -0x8000_0000 {
        -0x8000_0000
    } else if v > 0x7fff_ffff {
        0x7fff_ffff
    } else {
        v as i32
    }
}

/// Brings a wide intermediate result back into the range of a `u32`.
pub fn saturate_u32(v: u64) -> (r: u32)
    ensures
        r == clamp_u32(v as int),
{
    if v > 0xffff_ffff {
        0xffff_ffff
    } else {
        v as u32
    }
}

/// Executable form of [`travel`].
pub fn distance(speed: u32, micros: u32) -> (d: u64)
    ensures
        d == travel(speed, micros),
        d <= 0x1_0000_0000_0000,
{
    assert(speed * micros <= 0xffff_ffff * 0xffff_ffff) by (nonlinear_arith)
        requires
            speed <= 0xffff_ffff,
            micros <= 0xffff_ffff,
    ;
    (speed as u64) * (micros as u64) / MICROS_PER_SECOND
}

/// Executable form of [`whole_pixels`].
pub fn round_to_pixels(length: u32) -> (p: u32)
    ensures
        p == whole_pixels(length),
        p <= 4_294_968,
{
    ((length as u64 + 500) / 1000) as u32
}

/// Executable form of [`half`].
pub fn halve(v: i32) -> (r: i32)
    ensures
        r == half(v as int),
{
    if v >= 0 {
        v / 2
    } else {
        let up: i64 = -(v as i64);
        (-(up / 2)) as i32
    }
}

} // verus!
