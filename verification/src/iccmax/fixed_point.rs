//! Signed 15.16 fixed-point numbers as floating-point numbers.

use crate::float_bits::{
    f32_nearest, f64_is_infinite, f64_is_nan, f64_value, s15_fixed16_number_to_double,
    s15_fixed16_number_to_float,
};
use vstd::arithmetic::power2::{lemma2_to64, lemma_pow2_adds, lemma_pow2_pos, pow2};
use vstd::prelude::*;

verus! {

/// A tristimulus value of binary64 patterns.
#[derive(Clone, Copy, Debug, PartialEq, Eq, Structural)]
pub struct Xyzd {
    pub x: u64,
    pub y: u64,
    pub z: u64,
}

/// The binary64 pattern is worth exactly `x / 65536`. Zero is the positive one.
pub open spec fn is_s15(bits: u64, x: i32) -> bool {
    &&& !f64_is_nan(bits) && !f64_is_infinite(bits)
    &&& f64_value(bits) == x * pow2(1058)
    &&& bits >= 0x8000_0000_0000_0000 <==> x < 0
}

/// Makes a tristimulus value of three fixed-point numbers.
pub fn s15_to_xyzd(x: i32, y: i32, z: i32) -> (r: Xyzd)
    ensures
        is_s15(r.x, x),
        is_s15(r.y, y),
        is_s15(r.z, z),
{
    Xyzd {
        x: s15_fixed16_number_to_double(x),
        y: s15_fixed16_number_to_double(y),
        z: s15_fixed16_number_to_double(z),
    }
}

/// Makes a binary32 number of a fixed-point number: the nearest one, and of two that are
/// equally near the even one.
pub fn s15_to_f32(x: i32) -> (r: u32)
    ensures
        f32_nearest(r, x * pow2(133)),
        r >= 0x8000_0000 <==> x < 0,
{
    s15_fixed16_number_to_float(x)
}

/// A fixed-point number counts parts of `1 / 65536`: taken 65536 times, its binary64 number is
/// worth the integer. Different integers never give the same number, and the larger one gives the larger
/// number. The sign bit is set for negative integers alone.
pub proof fn lemma_fixed_point_counts_parts_of_one(a: u64, x: i32, b: u64, y: i32)
    requires
        is_s15(a, x),
        is_s15(b, y),
    ensures
        !f64_is_nan(a) && !f64_is_infinite(a),
        0x1_0000 * f64_value(a) == x * pow2(1074),
        a >= 0x8000_0000_0000_0000 <==> x < 0,
        f64_value(a) < f64_value(b) <==> x < y,
{
    lemma2_to64();
    lemma_pow2_adds(16, 1058);
    lemma_pow2_pos(1058);
    let p = pow2(1058) as int;
    assert(0x1_0000 * (x * p) == x * (0x1_0000 * p)) by (nonlinear_arith);
    assert(x * p < y * p <==> x < y) by (nonlinear_arith)
        requires
            p > 0,
    ;
}

} // verus!
