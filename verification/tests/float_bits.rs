//! Bit patterns against the machine's own floating-point numbers.

use moxcms::float_bits::{
    f64_le, f64_le_f32, f64_lt, s15_fixed16_number_to_double, s15_fixed16_number_to_float, widen,
};
use moxcms::iccmax::fixed_point::{s15_to_f32, s15_to_xyzd};

const DOUBLES: &[f64] = &[
    0.0,
    -0.0,
    5e-324,
    -5e-324,
    2.2250738585072014e-308,
    2.225073858507201e-308,
    1e-45,
    1.401298464324817e-45,
    0.001,
    0.0010000000000000002,
    0.25,
    0.5,
    0.50000001,
    1.0,
    -1.0,
    1.0000000000000002,
    65535.0,
    3.4028234663852886e38,
    3.5e38,
    -3.5e38,
    1.7976931348623157e308,
    -1.7976931348623157e308,
    f64::INFINITY,
    f64::NEG_INFINITY,
    f64::NAN,
];

const SINGLES: &[f32] = &[
    0.0,
    -0.0,
    1e-45,
    -1e-45,
    1.1754942e-38,
    1.1754944e-38,
    -1.1754944e-38,
    0.1,
    0.25,
    0.3127,
    0.5,
    1.0,
    -1.0,
    1.0000001,
    3.4028235e38,
    -3.4028235e38,
    f32::INFINITY,
    f32::NEG_INFINITY,
    f32::NAN,
];

#[test]
fn doubles_compare_as_the_machine_does() {
    for &a in DOUBLES {
        for &b in DOUBLES {
            assert_eq!(f64_lt(a.to_bits(), b.to_bits()), a < b, "{a} < {b}");
            assert_eq!(f64_le(a.to_bits(), b.to_bits()), a <= b, "{a} <= {b}");
        }
    }
}

#[test]
fn singles_widen_exactly() {
    for &s in SINGLES {
        let w = f64::from_bits(widen(s.to_bits()));
        if s.is_nan() {
            assert!(w.is_nan());
        } else {
            assert_eq!(w.to_bits(), (s as f64).to_bits(), "{s}");
        }
    }
    // Every exponent, with a few fractions and both signs.
    for e in 0..255u32 {
        for f in [0, 1, 2, 3, 0x40_0000, 0x3f_ffff, 0x7f_fffe, 0x7f_ffff] {
            for s in [0, 0x8000_0000] {
                let bits = s | (e << 23) | f;
                let expect = f32::from_bits(bits) as f64;
                assert_eq!(widen(bits), expect.to_bits());
            }
        }
    }
}

#[test]
fn doubles_compare_with_singles_as_the_machine_does() {
    for &x in DOUBLES {
        for &y in SINGLES {
            assert_eq!(f64_le_f32(x.to_bits(), y.to_bits()), x <= y as f64, "{x} {y}");
        }
    }
}

const FIXED: &[i32] = &[
    0,
    1,
    -1,
    2,
    3,
    0x8000,
    0xffff,
    0x1_0000,
    -0x1_0000,
    0x1_8000,
    0xf6d6,
    0xd32d,
    0x7f_ffff,
    0x80_0001,
    0x100_0001,
    0x100_0003,
    -0x100_0001,
    0x1ff_ffff,
    0x200_0002,
    0x200_0006,
    0x7fff_ffbf,
    0x7fff_ffc0,
    0x7fff_ffc1,
    i32::MAX,
    i32::MIN,
    i32::MIN + 1,
];

#[test]
fn fixed_point_becomes_the_exact_double() {
    for &x in FIXED {
        let expect = x as f64 / 65536.0;
        assert_eq!(s15_fixed16_number_to_double(x), expect.to_bits(), "{x}");
    }
    let xyz = s15_to_xyzd(0xf6d6, 0x1_0000, 0xd32d);
    assert_eq!(f64::from_bits(xyz.x), 0.964202880859375);
    assert_eq!(f64::from_bits(xyz.y), 1.0);
    assert_eq!(f64::from_bits(xyz.z), 0.8249053955078125);
}

#[test]
fn fixed_point_becomes_the_nearest_single() {
    for &x in FIXED {
        let expect = x as f32 / 65536.0;
        assert_eq!(s15_fixed16_number_to_float(x), expect.to_bits(), "{x}");
        assert_eq!(s15_to_f32(x), expect.to_bits(), "{x}");
    }
    for k in 0..4096u32 {
        let x = k.wrapping_mul(0x9E37_79B1) as i32;
        assert_eq!(s15_to_f32(x), (x as f32 / 65536.0).to_bits(), "{x}");
    }
}
