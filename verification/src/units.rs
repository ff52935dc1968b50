//! Fixed-point scalars.
//!
//! A scalar is an `i32` that counts steps of `1 / UNIT` of a logical unit.
//! Sums and differences saturate at the ends of the `i32` range, so no
//! operation of the library can overflow.
use vstd::prelude::*;

verus! {

/// The number of fixed-point steps in one logical unit.
pub const UNIT: i32 = 1024;

/// The value of `v` brought into the `i32` range.
pub open spec fn clamp(v: int) -> i32 {
    if v < i32::MIN {
        i32::MIN
    } else if v > i32::MAX {
        i32::MAX
    } else {
        v as i32
    }
}

/// Whether `v` lies in the `i32` range, so that [`clamp`] leaves it as it is.
pub open spec fn fits(v: int) -> bool {
    i32::MIN <= v <= i32::MAX
}

/// Half of `v`, rounded towards zero.
pub open spec fn halved(v: int) -> int {
    if v >= 0 {
        v / 2
    } else {
        -((-v) / 2)
    }
}

/// The number of whole pixels that the scalar `v` covers at the fixed-point
/// scale factor `scale`: nothing for a negative scalar, and no more than
/// `u32::MAX`.
pub open spec fn pixels(v: i32, scale: u32) -> u32 {
    if v <= 0 {
        0
    } else {
        let whole: int = (v as int * scale as int) / (UNIT as int * UNIT as int);
        if whole > u32::MAX {
            u32::MAX
        } else {
            whole as u32
        }
    }
}

/// Brings a wide value into the `i32` range.
pub fn saturate(v: i64) -> (r: i32)
    ensures
        r == clamp(v as int),
{
    if v < i32::MIN as i64 {
        i32::MIN
    } else if v > i32::MAX as i64 {
        i32::MAX
    } else {
        v as i32
    }
}

/// The scalar that stands for `n` whole logical units.
pub fn units(n: i32) -> (r: i32)
    ensures
        r == clamp(n as int * UNIT as int),
{
    assert(UNIT == 1024);
    saturate(n as i64 * 1024)
}

/// The saturating sum of two scalars.
pub fn plus(a: i32, b: i32) -> (r: i32)
    ensures
        r == clamp(a as int + b as int),
{
    saturate(a as i64 + b as i64)
}

/// The saturating difference of two scalars.
pub fn minus(a: i32, b: i32) -> (r: i32)
    ensures
        r == clamp(a as int - b as int),
{
    saturate(a as i64 - b as i64)
}

/// Half of a scalar, rounded towards zero.
pub fn half(a: i32) -> (r: i32)
    ensures
        r == halved(a as int),
{
    if a >= 0 {
        a / 2
    } else {
        let wide: i64 = -(a as i64);
        let h: i64 = wide / 2;
        (-h) as i32
    }
}

/// The number of whole pixels that `v` covers at the scale factor `scale`.
pub fn to_pixels(v: i32, scale: u32) -> (r: u32)
    ensures
        r == pixels(v, scale),
{
    if v <= 0 {
        0
    } else {
        assert(v as int * scale as int <= 0x7fff_ffff * 0xffff_ffff) by (nonlinear_arith)
            requires
                0 < v <= 0x7fff_ffff,
                0 <= scale <= 0xffff_ffff,
        ;
        let product: u64 = v as u64 * scale as u64;
        assert(UNIT as int * UNIT as int == 1_048_576);
        let whole: u64 = product / 1_048_576;
        if whole > u32::MAX as u64 {
            u32::MAX
        } else {
            whole as u32
        }
    }
}

} // verus!
