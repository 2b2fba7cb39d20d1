//! Binary floating-point numbers as bit patterns.
//!
//! A number is held as the pattern that the format stores: `u32` for binary32 and `u64` for
//! binary64. What a pattern is worth is a whole number of the format's smallest steps,
//! 2^-149 for binary32 and 2^-1074 for binary64.

use vstd::arithmetic::power2::{
    lemma2_to64, lemma2_to64_rest, lemma_pow2_adds, lemma_pow2_pos, lemma_pow2_strictly_increases,
    pow2,
};
use vstd::prelude::*;

verus! {

/// The worth of an exponent field and a fraction field of `bits` bits, in smallest steps.
/// With the largest exponent and no fraction this is above every finite number, and stands
/// for infinity.
pub open spec fn magnitude(exponent: nat, fraction: nat, bits: nat) -> nat {
    if exponent == 0 {
        fraction
    } else {
        (pow2(bits) + fraction) * pow2((exponent - 1) as nat)
    }
}

/// The exponent field of a binary32 pattern.
pub open spec fn f32_exponent(b: u32) -> nat {
    (b as nat / 0x80_0000) % 0x100
}

/// The fraction field of a binary32 pattern.
pub open spec fn f32_fraction(b: u32) -> nat {
    b as nat % 0x80_0000
}

/// Whether a binary32 pattern is not a number.
pub open spec fn f32_is_nan(b: u32) -> bool {
    f32_exponent(b) == 0xff && f32_fraction(b) != 0
}

/// Whether a binary32 pattern is an infinity.
pub open spec fn f32_is_infinite(b: u32) -> bool {
    f32_exponent(b) == 0xff && f32_fraction(b) == 0
}

/// The worth of a binary32 pattern, in steps of 2^-149.
pub open spec fn f32_value(b: u32) -> int {
    let m = magnitude(f32_exponent(b), f32_fraction(b), 23) as int;
    if b >= 0x8000_0000 {
        -m
    } else {
        m
    }
}

/// The exponent field of a binary64 pattern.
pub open spec fn f64_exponent(b: u64) -> nat {
    (b as nat / 0x10_0000_0000_0000) % 0x800
}

/// The fraction field of a binary64 pattern.
pub open spec fn f64_fraction(b: u64) -> nat {
    b as nat % 0x10_0000_0000_0000
}

/// Whether a binary64 pattern is not a number.
pub open spec fn f64_is_nan(b: u64) -> bool {
    f64_exponent(b) == 0x7ff && f64_fraction(b) != 0
}

/// Whether a binary64 pattern is an infinity.
pub open spec fn f64_is_infinite(b: u64) -> bool {
    f64_exponent(b) == 0x7ff && f64_fraction(b) == 0
}

/// The worth of a binary64 pattern, in steps of 2^-1074.
pub open spec fn f64_value(b: u64) -> int {
    let m = magnitude(f64_exponent(b), f64_fraction(b), 52) as int;
    if b >= 0x8000_0000_0000_0000 {
        -m
    } else {
        m
    }
}

/// `a < b` on binary64 numbers; false where either is not a number.
pub open spec fn f64_lt_spec(a: u64, b: u64) -> bool {
    !f64_is_nan(a) && !f64_is_nan(b) && f64_value(a) < f64_value(b)
}

/// `a <= b` on binary64 numbers; false where either is not a number.
pub open spec fn f64_le_spec(a: u64, b: u64) -> bool {
    !f64_is_nan(a) && !f64_is_nan(b) && f64_value(a) <= f64_value(b)
}

/// `a` is at least as close to `v` as `b` is.
pub open spec fn as_close(v: int, a: int, b: int) -> bool {
    (if a >= v { a - v } else { v - a }) <= (if b >= v { b - v } else { v - b })
}

/// `r` is the binary32 number nearest to `v` steps of 2^-149. Of two that are equally near
/// it is the one whose fraction field is even.
pub open spec fn f32_nearest(r: u32, v: int) -> bool {
    &&& !f32_is_nan(r) && !f32_is_infinite(r)
    &&& forall|c: u32|
        !f32_is_nan(c) && !f32_is_infinite(c) ==> {
            &&& as_close(v, f32_value(r), #[trigger] f32_value(c))
            &&& as_close(v, f32_value(c), f32_value(r)) && f32_value(c) != f32_value(r)
                ==> f32_fraction(r) % 2 == 0
        }
}

/// `x <= y` for a binary64 and a binary32 number; false where either is not a number.
pub open spec fn f64_le_f32_spec(x: u64, y: u32) -> bool {
    &&& !f64_is_nan(x)
    &&& !f32_is_nan(y)
    &&& if f32_is_infinite(y) {
        y < 0x8000_0000 || x == 0xfff0_0000_0000_0000
    } else {
        f64_value(x) <= f32_value(y) * pow2(925)
    }
}

/// A larger exponent field, or the same one with a larger fraction, is worth more.
proof fn lemma_magnitude_grows(e1: nat, f1: nat, e2: nat, f2: nat, bits: nat)
    requires
        f1 < pow2(bits),
        f2 < pow2(bits),
        e1 < e2 || (e1 == e2 && f1 < f2),
    ensures
        magnitude(e1, f1, bits) < magnitude(e2, f2, bits),
{
    let p = pow2(bits);
    if e1 == e2 {
        if e1 > 0 {
            let q = pow2((e1 - 1) as nat);
            lemma_pow2_pos((e1 - 1) as nat);
            assert((p + f1) * q < (p + f2) * q) by (nonlinear_arith)
                requires
                    f1 < f2,
                    q > 0,
            ;
        }
    } else if e1 == 0 {
        let q = pow2((e2 - 1) as nat);
        lemma_pow2_pos((e2 - 1) as nat);
        assert(f1 < (p + f2) * q) by (nonlinear_arith)
            requires
                f1 < p,
                f2 >= 0,
                q >= 1,
        ;
    } else {
        let q1 = pow2((e1 - 1) as nat);
        let q2 = pow2((e2 - 1) as nat);
        lemma_pow2_pos((e1 - 1) as nat);
        assert(q2 >= 2 * q1) by {
            lemma_pow2_adds(1, (e1 - 1) as nat);
            lemma2_to64();
            if e1 < e2 - 1 {
                lemma_pow2_strictly_increases(e1, (e2 - 1) as nat);
            }
        }
        assert((p + f1) * q1 < (p + f2) * q2) by (nonlinear_arith)
            requires
                f1 < p,
                f2 >= 0,
                q2 >= 2 * q1,
                q1 >= 1,
        ;
    }
}

/// Orders two binary64 patterns without their sign as their worth is ordered.
proof fn lemma_f64_magnitude_orders(a: u64, b: u64)
    requires
        a < 0x8000_0000_0000_0000,
        b < 0x8000_0000_0000_0000,
    ensures
        a < b ==> f64_value(a) < f64_value(b),
        f64_value(a) >= 0,
{
    lemma2_to64_rest();
    assert(pow2(52) == 0x10_0000_0000_0000);
    if a < b {
        lemma_magnitude_grows(
            f64_exponent(a),
            f64_fraction(a),
            f64_exponent(b),
            f64_fraction(b),
            52,
        );
    }
}

/// The sign bit turns the worth of a pattern round, and nothing else.
proof fn lemma_f64_sign(b: u64)
    ensures
        b >= 0x8000_0000_0000_0000 ==> f64_value(b) == -f64_value(
            (b - 0x8000_0000_0000_0000) as u64,
        ),
{
    if b >= 0x8000_0000_0000_0000 {
        let m = (b - 0x8000_0000_0000_0000) as u64;
        assert(b as nat / 0x10_0000_0000_0000 == m as nat / 0x10_0000_0000_0000 + 0x800);
        assert(f64_exponent(b) == f64_exponent(m));
        assert(f64_fraction(b) == f64_fraction(m));
    }
}

/// Binary64 numbers are ordered by sign, and then by the pattern without it.
proof fn lemma_f64_orders(a: u64, b: u64)
    ensures
        ({
            let top = 0x8000_0000_0000_0000u64;
            let (ma, mb) = (a % top, b % top);
            f64_value(a) < f64_value(b) <==> if a >= top {
                if b >= top {
                    mb < ma
                } else {
                    ma != 0 || mb != 0
                }
            } else {
                b < top && ma < mb
            }
        }),
{
    let top = 0x8000_0000_0000_0000u64;
    let ma = a % top;
    let mb = b % top;
    lemma_f64_sign(a);
    lemma_f64_sign(b);
    lemma_f64_magnitude_orders(ma, mb);
    lemma_f64_magnitude_orders(mb, ma);
    lemma_f64_magnitude_orders(0, ma);
    lemma_f64_magnitude_orders(0, mb);
    assert(f64_value(0) == 0);
    let va = f64_value(ma);
    let vb = f64_value(mb);
    assert(f64_value(a) == if a >= top { -va } else { va });
    assert(f64_value(b) == if b >= top { -vb } else { vb });
}

/// Whether a binary64 pattern is not a number.
fn f64_nan(b: u64) -> (r: bool)
    ensures
        r == f64_is_nan(b),
{
    b / 0x10_0000_0000_0000 % 0x800 == 0x7ff && b % 0x10_0000_0000_0000 != 0
}

/// Compares two binary64 numbers: `a < b`.
pub fn f64_lt(a: u64, b: u64) -> (r: bool)
    ensures
        r == f64_lt_spec(a, b),
{
    if f64_nan(a) || f64_nan(b) {
        return false;
    }
    let top: u64 = 0x8000_0000_0000_0000;
    let ma: u64 = a % top;
    let mb: u64 = b % top;
    proof {
        lemma_f64_orders(a, b);
    }
    if a >= top {
        if b >= top {
            mb < ma
        } else {
            ma != 0 || mb != 0
        }
    } else {
        b < top && ma < mb
    }
}

/// Compares two binary64 numbers: `a <= b`.
pub fn f64_le(a: u64, b: u64) -> (r: bool)
    ensures
        r == f64_le_spec(a, b),
{
    !f64_nan(a) && !f64_nan(b) && !f64_lt(b, a)
}

/// Doubles `m` until it has its leading bit at `top`.
fn normalise(m: u64, top: u64, bits: u64) -> (r: (u64, u64))
    requires
        bits <= 52,
        top == pow2(bits as nat),
        0 < m < 2 * top,
    ensures
        r.1 <= bits,
        r.0 == m * pow2(r.1 as nat),
        top <= r.0 < 2 * top,
{
    let mut f: u64 = m;
    let mut s: u64 = 0;
    proof {
        lemma2_to64();
        lemma2_to64_rest();
        lemma_pow2_pos(bits as nat);
        if bits < 52 {
            lemma_pow2_strictly_increases(bits as nat, 52);
        }
        assert(m * pow2(0) == m);
    }
    while f < top
        invariant
            bits <= 52,
            top == pow2(bits as nat),
            top <= 0x10_0000_0000_0000,
            0 < m,
            f == m * pow2(s as nat),
            f < 2 * top,
            s <= bits,
        decreases 2 * top - f,
    {
        proof {
            lemma_pow2_adds(1, s as nat);
            lemma2_to64();
            lemma_pow2_pos(s as nat);
            let q = pow2(s as nat);
            assert(m * (2 * q) == 2 * (m * q)) by (nonlinear_arith);
            assert(q <= m * q) by (nonlinear_arith)
                requires
                    m >= 1,
                    q >= 1,
            ;
            if s == bits {
                assert(false);
            }
            assert(m * q >= 1) by (nonlinear_arith)
                requires
                    m >= 1,
                    q >= 1,
            ;
        }
        f = f * 2;
        s = s + 1;
    }
    (f, s)
}

/// Widens a binary32 number to binary64, which holds every one of them.
pub fn widen(b: u32) -> (r: u64)
    ensures
        f64_is_nan(r) <==> f32_is_nan(b),
        f64_is_infinite(r) <==> f32_is_infinite(b),
        r >= 0x8000_0000_0000_0000 <==> b >= 0x8000_0000,
        !f32_is_nan(b) && !f32_is_infinite(b) ==> f64_value(r) == f32_value(b) * pow2(925),
{
    let exponent: u64 = b as u64 / 0x80_0000 % 0x100;
    let fraction: u64 = b as u64 % 0x80_0000;
    let step: u64 = 0x10_0000_0000_0000;
    proof {
        lemma2_to64();
        lemma2_to64_rest();
    }
    let mag: u64 = if exponent == 0xff {
        0x7ff * step + fraction * 0x2000_0000
    } else if exponent > 0 {
        let r: u64 = (exponent + 896) * step + fraction * 0x2000_0000;
        proof {
            let e = exponent as nat;
            assert((0x10_0000_0000_0000 + fraction * 0x2000_0000) == (0x80_0000 + fraction)
                * 0x2000_0000);
            lemma_pow2_adds(925, (e - 1) as nat);
            lemma_pow2_adds(29, (e + 895) as nat);
            let q = pow2((e - 1) as nat);
            assert((0x80_0000 + fraction) * 0x2000_0000 * pow2((e + 895) as nat) == (0x80_0000
                + fraction) * q * pow2(925)) by (nonlinear_arith)
                requires
                    0x2000_0000 * pow2((e + 895) as nat) == pow2((e + 924) as nat),
                    pow2(925) * q == pow2((e + 924) as nat),
            ;
            assert(f64_exponent(r) == e + 896);
            assert(f64_fraction(r) == fraction * 0x2000_0000);
        }
        r
    } else if fraction == 0 {
        assert(0 * pow2(925) == 0);
        0
    } else {
        let (f, s) = normalise(fraction, 0x80_0000, 23);
        let r: u64 = (897 - s) * step + (f - 0x80_0000) * 0x2000_0000;
        proof {
            lemma_pow2_adds(29, (896 - s) as nat);
            lemma_pow2_adds(s as nat, (925 - s) as nat);
            assert(f64_exponent(r) == 897 - s);
            assert(f64_fraction(r) == (f - 0x80_0000) * 0x2000_0000);
            assert(0x10_0000_0000_0000 + (f - 0x80_0000) * 0x2000_0000 == f * 0x2000_0000);
            assert(f * 0x2000_0000 * pow2((896 - s) as nat) == fraction * pow2(925))
                by (nonlinear_arith)
                requires
                    f == fraction * pow2(s as nat),
                    0x2000_0000 * pow2((896 - s) as nat) == pow2((925 - s) as nat),
                    pow2(s as nat) * pow2((925 - s) as nat) == pow2(925),
            ;
        }
        r
    };
    if b >= 0x8000_0000 {
        proof {
            let r = (mag + 0x8000_0000_0000_0000) as u64;
            lemma_f64_sign(r);
            let m = magnitude(f32_exponent(b), f32_fraction(b), 23) as int;
            assert((-m) * pow2(925) == -(m * pow2(925))) by (nonlinear_arith);
        }
        mag + 0x8000_0000_0000_0000
    } else {
        mag
    }
}

/// Compares a binary64 number with a binary32 number: `x <= y`.
pub fn f64_le_f32(x: u64, y: u32) -> (r: bool)
    ensures
        r == f64_le_f32_spec(x, y),
{
    let w: u64 = widen(y);
    proof {
        if f32_is_infinite(y) {
            assert(w == 0x7ff0_0000_0000_0000 || w == 0xfff0_0000_0000_0000);
            lemma_f64_orders(w, x);
        }
    }
    f64_le(x, w)
}

/// The binary64 number that is worth a signed 15.16 fixed-point number: `x / 65536`.
pub fn s15_fixed16_number_to_double(x: i32) -> (r: u64)
    ensures
        !f64_is_nan(r) && !f64_is_infinite(r),
        f64_value(r) == x * pow2(1058),
        r >= 0x8000_0000_0000_0000 <==> x < 0,
{
    proof {
        lemma2_to64();
        lemma2_to64_rest();
    }
    if x == 0 {
        assert(0 * pow2(1058) == 0);
        return 0;
    }
    let m: u64 = if x < 0 {
        (-(x as i64)) as u64
    } else {
        x as u64
    };
    let (f, s) = normalise(m, 0x10_0000_0000_0000, 52);
    let mag: u64 = (1059 - s) * 0x10_0000_0000_0000 + (f - 0x10_0000_0000_0000);
    proof {
        lemma_pow2_adds(s as nat, (1058 - s) as nat);
        assert(f64_exponent(mag) == 1059 - s);
        assert(f64_fraction(mag) == f - 0x10_0000_0000_0000);
        assert(f * pow2((1058 - s) as nat) == m * pow2(1058)) by (nonlinear_arith)
            requires
                f == m * pow2(s as nat),
                pow2(s as nat) * pow2((1058 - s) as nat) == pow2(1058),
        ;
        assert((-x) * pow2(1058) == -(x * pow2(1058))) by (nonlinear_arith);
        lemma_f64_sign((mag + 0x8000_0000_0000_0000) as u64);
    }
    if x < 0 {
        mag + 0x8000_0000_0000_0000
    } else {
        mag
    }
}

/// Orders two binary32 patterns without their sign as their worth is ordered.
proof fn lemma_f32_magnitude_orders(a: u32, b: u32)
    requires
        a < 0x8000_0000,
        b < 0x8000_0000,
    ensures
        a < b ==> f32_value(a) < f32_value(b),
        f32_value(a) >= 0,
{
    lemma2_to64();
    if a < b {
        lemma_magnitude_grows(
            f32_exponent(a),
            f32_fraction(a),
            f32_exponent(b),
            f32_fraction(b),
            23,
        );
    }
}

/// The sign bit turns the worth of a pattern round, and nothing else.
proof fn lemma_f32_sign(b: u32)
    requires
        b >= 0x8000_0000,
    ensures
        f32_value(b) == -f32_value((b - 0x8000_0000) as u32),
        f32_exponent(b) == f32_exponent((b - 0x8000_0000) as u32),
        f32_fraction(b) == f32_fraction((b - 0x8000_0000) as u32),
{
    let m = (b - 0x8000_0000) as u32;
    assert(b as nat / 0x80_0000 == m as nat / 0x80_0000 + 0x100);
}

/// A number between two neighbouring patterns is nearest to the closer of them, or where
/// they are equally close to the even one.
proof fn lemma_f32_nearest_of_two(low: u32, v: int, up: bool)
    requires
        low + 1 < 0x7f80_0000,
        f32_value(low) <= v <= f32_value((low + 1) as u32),
        ({
            let below = v - f32_value(low);
            let above = f32_value((low + 1) as u32) - v;
            up == (above < below || (above == below && low % 2 == 1))
        }),
    ensures
        f32_nearest(
            if up {
                (low + 1) as u32
            } else {
                low
            },
            v,
        ),
{
    let high = (low + 1) as u32;
    let r = if up {
        high
    } else {
        low
    };
    lemma_f32_magnitude_orders(low, high);
    assert(f32_fraction(r) % 2 == r % 2);
    assert forall|c: u32| !f32_is_nan(c) && !f32_is_infinite(c) implies {
        &&& as_close(v, f32_value(r), #[trigger] f32_value(c))
        &&& as_close(v, f32_value(c), f32_value(r)) && f32_value(c) != f32_value(r)
            ==> f32_fraction(r) % 2 == 0
    } by {
        if c >= 0x8000_0000 {
            lemma_f32_sign(c);
            let m = (c - 0x8000_0000) as u32;
            lemma_f32_magnitude_orders(m, low);
            assert(f32_value(c) <= 0 <= f32_value(low));
        } else {
            lemma_f32_magnitude_orders(c, low);
            lemma_f32_magnitude_orders(high, c);
        }
        assert(f32_value(c) <= f32_value(low) || f32_value(c) >= f32_value(high));
    }
}

/// Turning both the number and the pattern round keeps the pattern nearest.
proof fn lemma_f32_nearest_negated(r: u32, v: int)
    requires
        r < 0x8000_0000,
        f32_nearest(r, v),
    ensures
        f32_nearest((r + 0x8000_0000) as u32, -v),
{
    let n = (r + 0x8000_0000) as u32;
    lemma_f32_sign(n);
    assert forall|c: u32| !f32_is_nan(c) && !f32_is_infinite(c) implies {
        &&& as_close(-v, f32_value(n), #[trigger] f32_value(c))
        &&& as_close(-v, f32_value(c), f32_value(n)) && f32_value(c) != f32_value(n)
            ==> f32_fraction(n) % 2 == 0
    } by {
        let d = if c >= 0x8000_0000 {
            (c - 0x8000_0000) as u32
        } else {
            (c + 0x8000_0000) as u32
        };
        if c >= 0x8000_0000 {
            lemma_f32_sign(c);
        } else {
            lemma_f32_sign(d);
        }
        assert(f32_value(d) == -f32_value(c));
        assert(as_close(v, f32_value(r), f32_value(d)));
    }
}

/// The binary32 pattern nearest to a magnitude of `m / 65536`.
fn nearest_magnitude(m: u64) -> (r: u32)
    requires
        0 < m <= 0x8000_0000,
    ensures
        r < 0x8000_0000,
        f32_nearest(r, m * pow2(133)),
{
    proof {
        lemma2_to64();
        lemma2_to64_rest();
    }
    if m < 0x100_0000 {
        let (f, s) = normalise(m, 0x80_0000, 23);
        let r: u32 = ((134 - s) * 0x80_0000 + (f - 0x80_0000)) as u32;
        proof {
            lemma_pow2_adds(s as nat, (133 - s) as nat);
            assert(f32_exponent(r) == 134 - s);
            assert(f32_fraction(r) == f - 0x80_0000);
            assert(f * pow2((133 - s) as nat) == m * pow2(133)) by (nonlinear_arith)
                requires
                    f == m * pow2(s as nat),
                    pow2(s as nat) * pow2((133 - s) as nat) == pow2(133),
            ;
        }
        return r;
    }
    let mut unit: u64 = 1;
    let mut t: u64 = 0;
    while m / unit >= 0x100_0000
        invariant
            0x100_0000 <= m <= 0x8000_0000,
            unit == pow2(t as nat),
            1 <= unit <= 0x100,
            t <= 8,
            m / unit >= 0x80_0000,
        decreases 8 - t,
    {
        assert(m >= 0x100_0000 * unit) by (nonlinear_arith)
            requires
                m / unit >= 0x100_0000,
                unit > 0,
        ;
        proof {
            lemma_pow2_adds(1, t as nat);
            lemma2_to64();
            if t == 8 {
                assert(false);
            }
        }
        let twice: u64 = unit * 2;
        assert(m / twice >= 0x80_0000) by (nonlinear_arith)
            requires
                m >= 0x100_0000 * unit,
                twice == unit * 2,
                unit > 0,
        ;
        assert(twice <= 0x100) by (nonlinear_arith)
            requires
                m >= 0x100_0000 * unit,
                m <= 0x8000_0000,
                twice == unit * 2,
        ;
        unit = twice;
        t = t + 1;
    }
    let q: u64 = m / unit;
    let rem: u64 = m % unit;
    let low: u32 = ((134 + t) * 0x80_0000 + (q - 0x80_0000)) as u32;
    let up = 2 * rem > unit || (2 * rem == unit && low % 2 == 1);
    proof {
        let high = (low + 1) as u32;
        let e = pow2((133 + t) as nat);
        let p = pow2(133);
        lemma_pow2_adds(t as nat, 133);
        lemma_pow2_pos(133);
        assert(f32_exponent(low) == 134 + t);
        assert(f32_fraction(low) == q - 0x80_0000);
        assert(f32_value(low) == q * e);
        assert(f32_value(high) == (q + 1) * e) by {
            if q + 1 < 0x100_0000 {
                assert(f32_exponent(high) == 134 + t);
                assert(f32_fraction(high) == q + 1 - 0x80_0000);
            } else {
                assert(f32_exponent(high) == 135 + t);
                assert(f32_fraction(high) == 0);
                lemma_pow2_adds(1, (133 + t) as nat);
                assert(0x80_0000 * (2 * e) == 0x100_0000 * e) by (nonlinear_arith);
            }
        }
        assert(m == unit * q + rem) by (nonlinear_arith)
            requires
                q == m / unit,
                rem == m % unit,
                unit > 0,
        ;
        let v = m * p;
        assert(v - q * e == rem * p && (q + 1) * e - v == (unit - rem) * p) by (nonlinear_arith)
            requires
                v == m * p,
                m == unit * q + rem,
                e == unit * p,
        ;
        assert(rem * p >= 0 && (unit - rem) * p >= 0) by (nonlinear_arith)
            requires
                0 <= rem <= unit,
                p > 0,
        ;
        assert((unit - rem) * p < rem * p <==> unit - rem < rem) by (nonlinear_arith)
            requires
                p > 0,
        ;
        assert((unit - rem) * p == rem * p <==> unit - rem == rem) by (nonlinear_arith)
            requires
                p > 0,
        ;
        lemma_f32_nearest_of_two(low, v as int, up);
    }
    if up {
        low + 1
    } else {
        low
    }
}

/// The binary32 number nearest to a signed 15.16 fixed-point number, `x / 65536`.
pub fn s15_fixed16_number_to_float(x: i32) -> (r: u32)
    ensures
        f32_nearest(r, x * pow2(133)),
        r >= 0x8000_0000 <==> x < 0,
{
    if x == 0 {
        proof {
            lemma2_to64();
            assert(0 * pow2(133) == 0);
            assert(f32_value(0) == 0);
        }
        return 0;
    }
    let m: u64 = if x < 0 {
        (-(x as i64)) as u64
    } else {
        x as u64
    };
    let r: u32 = nearest_magnitude(m);
    if x < 0 {
        proof {
            lemma_f32_nearest_negated(r, m * pow2(133));
            assert(-(m * pow2(133)) == x * pow2(133)) by (nonlinear_arith)
                requires
                    m == -x,
            ;
        }
        r + 0x8000_0000
    } else {
        r
    }
}

/// A binary32 pattern is a sign bit, eight bits of exponent and 23 bits of fraction. It is worth
/// its fraction where the exponent is zero, and else one and its fraction, times two for every
/// step of the exponent beyond the first. The largest exponent stands for infinity, and with a
/// fraction for what is not a number.
pub proof fn lemma_binary32_is_sign_exponent_and_fraction(b: u32, sign: bool, e: nat, f: nat)
    requires
        e < 0x100,
        f < 0x80_0000,
        b == (if sign {
            0x8000_0000int
        } else {
            0
        }) + e * 0x80_0000 + f,
    ensures
        f32_is_nan(b) <==> e == 0xff && f != 0,
        f32_is_infinite(b) <==> e == 0xff && f == 0,
        f32_fraction(b) == f,
        ({
            let worth = if e == 0 {
                f as int
            } else {
                ((0x80_0000 + f) * pow2((e - 1) as nat)) as int
            };
            f32_value(b) == if sign {
                -worth
            } else {
                worth
            }
        }),
{
    lemma2_to64();
    assert(f32_exponent(b) == e);
    assert(f32_fraction(b) == f);
}

/// A binary64 pattern is a sign bit, eleven bits of exponent and 52 bits of fraction, and is worth
/// what such a pattern of 32 bits is, with 52 bits of fraction in place of 23.
pub proof fn lemma_binary64_is_sign_exponent_and_fraction(b: u64, sign: bool, e: nat, f: nat)
    requires
        e < 0x800,
        f < 0x10_0000_0000_0000,
        b == (if sign {
            0x8000_0000_0000_0000int
        } else {
            0
        }) + e * 0x10_0000_0000_0000 + f,
    ensures
        f64_is_nan(b) <==> e == 0x7ff && f != 0,
        f64_is_infinite(b) <==> e == 0x7ff && f == 0,
        ({
            let worth = if e == 0 {
                f as int
            } else {
                ((0x10_0000_0000_0000 + f) * pow2((e - 1) as nat)) as int
            };
            f64_value(b) == if sign {
                -worth
            } else {
                worth
            }
        }),
{
    lemma2_to64_rest();
    assert(f64_exponent(b) == e);
    assert(f64_fraction(b) == f);
}

/// Comparisons go by worth, and are false where a pattern is not a number. Of two numbers one is
/// below the other or they are worth the same.
pub proof fn lemma_comparisons_go_by_worth(a: u64, b: u64)
    ensures
        f64_is_nan(a) || f64_is_nan(b) ==> !f64_lt_spec(a, b) && !f64_le_spec(a, b),
        !f64_is_nan(a) && !f64_is_nan(b) ==> {
            &&& f64_lt_spec(a, b) <==> f64_value(a) < f64_value(b)
            &&& f64_le_spec(a, b) <==> f64_value(a) <= f64_value(b)
        },
{
}

/// A binary32 number counts 2^925 times as many steps of binary64 as it does of binary32. Nothing
/// that is a number is above infinity, and only infinity itself is not above its negative.
pub proof fn lemma_mixed_comparisons_go_by_worth(x: u64, y: u32)
    ensures
        f64_is_nan(x) || f32_is_nan(y) ==> !f64_le_f32_spec(x, y),
        !f64_is_nan(x) && !f32_is_nan(y) && !f32_is_infinite(y) ==> (f64_le_f32_spec(x, y)
            <==> f64_value(x) <= f32_value(y) * pow2(925)),
        !f64_is_nan(x) ==> f64_le_f32_spec(x, 0x7f80_0000),
        f64_le_f32_spec(x, 0xff80_0000) <==> x == 0xfff0_0000_0000_0000,
{
}

/// No finite binary32 number is closer than the nearest one, and one that is as close leaves it an
/// even fraction.
pub proof fn lemma_nothing_is_closer_than_the_nearest(r: u32, v: int, c: u32)
    requires
        f32_nearest(r, v),
        !f32_is_nan(c),
        !f32_is_infinite(c),
    ensures
        !f32_is_nan(r) && !f32_is_infinite(r),
        ({
            let (near, other) = (f32_value(r) - v, f32_value(c) - v);
            &&& near * near <= other * other
            &&& f32_value(c) != f32_value(r) && near * near == other * other ==> f32_fraction(r) % 2
                == 0
        }),
{
    let (near, other) = (f32_value(r) - v, f32_value(c) - v);
    assert(as_close(v, f32_value(r), f32_value(c)));
    let m = if near < 0 { -near } else { near };
    let n = if other < 0 { -other } else { other };
    assert(near * near == m * m) by (nonlinear_arith)
        requires
            m == near || m == -near,
    ;
    assert(other * other == n * n) by (nonlinear_arith)
        requires
            n == other || n == -other,
    ;
    assert(m * m <= n * n) by (nonlinear_arith)
        requires
            0 <= m <= n,
    ;
    if m * m == n * n {
        assert(m == n) by (nonlinear_arith)
            requires
                0 <= m <= n,
                m * m == n * n,
        ;
    }
}

} // verus!
