//! The eight-lane Q0.15 interpolators, on both tiers.

use archmage::{ScalarToken, SimdToken, X64V3Token};
use moxcms::conversions::cell::BarycentricWeight;
use moxcms::conversions::lanes::{ScalarI16x8, V3I16x8};
use moxcms::conversions::simd_interp_q0_15::{
    interpolate_prism, interpolate_pyramid, interpolate_tetra, interpolate_trilinear,
    prism_u8_g33_b256, pyramid_u8_g33_b256, tetra_u8_g33_b256, trilinear_u8_g33_b256, Aligned4I16,
};

fn make_identity_ramp<const BINS: usize, const GRID_SIZE: usize>(
) -> Box<[BarycentricWeight<i16>; BINS]> {
    let mut w = Box::new([BarycentricWeight::<i16>::default(); BINS]);
    let grid = (GRID_SIZE as i32 - 1) as i64;
    for (i, entry) in w.iter_mut().enumerate() {
        let idx_f = i as i64 * grid;
        let x = (idx_f / (BINS - 1) as i64) as i32;
        entry.x = x;
        entry.x_n = (x + 1).min(GRID_SIZE as i32 - 1);
        // Q0.15 weight: fractional part scaled into [0, 0x7FFF]
        let frac = (idx_f - x as i64 * (BINS - 1) as i64) as f64 / (BINS - 1) as f64;
        entry.w = (frac * 32767.0) as i16;
    }
    w
}

fn make_cube<const GRID_SIZE: usize>() -> Vec<Aligned4I16> {
    (0..GRID_SIZE.pow(3))
        .map(|i| Aligned4I16([i as i16, i as i16, i as i16, 0]))
        .collect()
}

fn random_cube<const GRID_SIZE: usize>(seed: u32) -> Vec<Aligned4I16> {
    (0..GRID_SIZE.pow(3))
        .map(|i| {
            let k = (i as u32).wrapping_mul(0x9E37_79B1).wrapping_add(seed);
            let b16 = |shift: u32| -> i16 { k.rotate_left(shift) as u16 as i16 };
            Aligned4I16([b16(0), b16(7), b16(13), b16(21)])
        })
        .collect()
}

fn random_weights<const GRID_SIZE: usize>(seed: u32) -> Box<[BarycentricWeight<i16>; 256]> {
    let mut w = Box::new([BarycentricWeight::<i16>::default(); 256]);
    for (i, entry) in w.iter_mut().enumerate() {
        let k = (i as u32).wrapping_mul(0xB503_2B33).wrapping_add(seed);
        let x = ((k & 0xFFFF) as usize % GRID_SIZE.max(2)) as i32;
        entry.x = x.min(GRID_SIZE as i32 - 1);
        entry.x_n = (entry.x + 1).min(GRID_SIZE as i32 - 1);
        entry.w = ((k >> 16) & 0x7FFF) as i16;
    }
    w
}

fn mulhrs_ref(a: i16, b: i16) -> i16 {
    let prod = (a as i32) * (b as i32);
    ((prod + 0x4000) >> 15) as i16
}

fn widen(x4: [i16; 4]) -> [i16; 8] {
    [x4[0], x4[1], x4[2], x4[3], 0, 0, 0, 0]
}

fn sub(a: [i16; 8], b: [i16; 8]) -> [i16; 8] {
    let mut r = [0i16; 8];
    for i in 0..8 {
        r[i] = a[i].wrapping_sub(b[i]);
    }
    r
}

fn mla(acc: [i16; 8], a: [i16; 8], k: i16) -> [i16; 8] {
    let mut r = [0i16; 8];
    for i in 0..8 {
        r[i] = acc[i].wrapping_add(mulhrs_ref(a[i], k));
    }
    r
}

#[derive(Clone, Copy, Debug, PartialEq)]
enum Method {
    Tetra,
    Trilinear,
    Pyramid,
    Prism,
}

const METHODS: [Method; 4] = [
    Method::Tetra,
    Method::Trilinear,
    Method::Pyramid,
    Method::Prism,
];

/// A plain restatement of the four methods on arrays.
fn reference<const GRID_SIZE: usize>(
    method: Method,
    input: (u8, u8, u8),
    lut: &[BarycentricWeight<i16>; 256],
    cube: &[Aligned4I16],
) -> [i16; 8] {
    let (r, g, b) = (
        lut[input.0 as usize],
        lut[input.1 as usize],
        lut[input.2 as usize],
    );
    let at = |x: bool, y: bool, z: bool| -> [i16; 8] {
        let gx = if x { r.x_n } else { r.x } as usize;
        let gy = if y { g.x_n } else { g.x } as usize;
        let gz = if z { b.x_n } else { b.x } as usize;
        widen(cube[gx * GRID_SIZE * GRID_SIZE + gy * GRID_SIZE + gz].0)
    };
    let (f, t) = (false, true);
    let c0 = at(f, f, f);
    let (dr, dg, db) = (r.w, g.w, b.w);
    let (c1, c2, c3) = match method {
        Method::Tetra => {
            if dr >= dg {
                if dg >= db {
                    (
                        sub(at(t, f, f), c0),
                        sub(at(t, t, f), at(t, f, f)),
                        sub(at(t, t, t), at(t, t, f)),
                    )
                } else if dr >= db {
                    (
                        sub(at(t, f, f), c0),
                        sub(at(t, t, t), at(t, f, t)),
                        sub(at(t, f, t), at(t, f, f)),
                    )
                } else {
                    (
                        sub(at(t, f, t), at(f, f, t)),
                        sub(at(t, t, t), at(t, f, t)),
                        sub(at(f, f, t), c0),
                    )
                }
            } else if dr >= db {
                (
                    sub(at(t, t, f), at(f, t, f)),
                    sub(at(f, t, f), c0),
                    sub(at(t, t, t), at(t, t, f)),
                )
            } else if dg >= db {
                (
                    sub(at(t, t, t), at(f, t, t)),
                    sub(at(f, t, f), c0),
                    sub(at(f, t, t), at(f, t, f)),
                )
            } else {
                (
                    sub(at(t, t, t), at(f, t, t)),
                    sub(at(f, t, t), at(f, f, t)),
                    sub(at(f, f, t), c0),
                )
            }
        }
        Method::Trilinear => {
            let lerp = |a: [i16; 8], b: [i16; 8], w: i16| mla(a, sub(b, a), w);
            let c00 = lerp(at(f, f, f), at(t, f, f), dr);
            let c10 = lerp(at(f, t, f), at(t, t, f), dr);
            let c01 = lerp(at(f, f, t), at(t, f, t), dr);
            let c11 = lerp(at(f, t, t), at(t, t, t), dr);
            return lerp(lerp(c00, c10, dg), lerp(c01, c11, dg), db);
        }
        Method::Pyramid => {
            if dr > db && dg > db {
                (
                    sub(at(t, t, t), at(t, t, f)),
                    sub(at(t, f, f), c0),
                    sub(at(f, t, f), c0),
                )
            } else if db > dr && dg > dr {
                (
                    sub(at(t, t, t), at(f, t, t)),
                    sub(at(f, t, f), c0),
                    sub(at(f, f, t), c0),
                )
            } else {
                (
                    sub(at(t, t, t), at(t, f, t)),
                    sub(at(t, f, f), c0),
                    sub(at(f, f, t), c0),
                )
            }
        }
        Method::Prism => {
            if dr > dg {
                (
                    sub(at(t, t, t), at(t, f, t)),
                    sub(at(t, f, f), c0),
                    sub(at(f, f, t), c0),
                )
            } else {
                (
                    sub(at(t, t, t), at(f, t, t)),
                    sub(at(f, t, f), c0),
                    sub(at(f, f, t), c0),
                )
            }
        }
    };
    mla(mla(mla(c0, c1, dr), c2, dg), c3, db)
}

/// Runs a method on every tier that the processor has.
fn run<const GRID_SIZE: usize>(
    method: Method,
    input: (u8, u8, u8),
    lut: &[BarycentricWeight<i16>; 256],
    cube: &[Aligned4I16],
) -> Vec<[i16; 8]> {
    let (r, g, b) = (input.0 as usize, input.1 as usize, input.2 as usize);
    let mut all = Vec::new();
    let mut out = [77i16; 8];
    let s = ScalarToken;
    match method {
        Method::Tetra => {
            interpolate_tetra::<ScalarI16x8, GRID_SIZE, 256>(s, r, g, b, lut, cube, &mut out)
        }
        Method::Trilinear => {
            interpolate_trilinear::<ScalarI16x8, GRID_SIZE, 256>(s, r, g, b, lut, cube, &mut out)
        }
        Method::Pyramid => {
            interpolate_pyramid::<ScalarI16x8, GRID_SIZE, 256>(s, r, g, b, lut, cube, &mut out)
        }
        Method::Prism => {
            interpolate_prism::<ScalarI16x8, GRID_SIZE, 256>(s, r, g, b, lut, cube, &mut out)
        }
    }
    all.push(out);
    if let Some(v) = X64V3Token::summon() {
        let mut out = [77i16; 8];
        match method {
            Method::Tetra => {
                interpolate_tetra::<V3I16x8, GRID_SIZE, 256>(v, r, g, b, lut, cube, &mut out)
            }
            Method::Trilinear => {
                interpolate_trilinear::<V3I16x8, GRID_SIZE, 256>(v, r, g, b, lut, cube, &mut out)
            }
            Method::Pyramid => {
                interpolate_pyramid::<V3I16x8, GRID_SIZE, 256>(v, r, g, b, lut, cube, &mut out)
            }
            Method::Prism => {
                interpolate_prism::<V3I16x8, GRID_SIZE, 256>(v, r, g, b, lut, cube, &mut out)
            }
        }
        all.push(out);
    }
    all
}

const INPUTS: &[(u8, u8, u8)] = &[
    (0, 0, 0),
    (255, 255, 255),
    (128, 64, 200),
    (1, 254, 128),
    (80, 80, 80),
    (200, 100, 50),
    (10, 200, 100),
    (33, 77, 222),
];

#[test]
fn tetra_q0_15_smoke() {
    const GRID_SIZE: usize = 2;
    const BINS: usize = 256;
    let weights = make_identity_ramp::<BINS, GRID_SIZE>();
    let cube = make_cube::<GRID_SIZE>();
    for out in run::<GRID_SIZE>(Method::Tetra, (128u8, 64u8, 200u8), &weights, &cube) {
        assert_eq!(
            out,
            reference::<GRID_SIZE>(Method::Tetra, (128, 64, 200), &weights, &cube)
        );
    }
}

#[test]
fn trilinear_q0_15_smoke() {
    const GRID_SIZE: usize = 2;
    const BINS: usize = 256;
    let weights = make_identity_ramp::<BINS, GRID_SIZE>();
    let cube = make_cube::<GRID_SIZE>();
    for out in run::<GRID_SIZE>(Method::Trilinear, (30u8, 90u8, 150u8), &weights, &cube) {
        assert_eq!(
            out,
            reference::<GRID_SIZE>(Method::Trilinear, (30, 90, 150), &weights, &cube)
        );
    }
}

#[test]
fn pyramid_q0_15_smoke() {
    const GRID_SIZE: usize = 2;
    const BINS: usize = 256;
    let weights = make_identity_ramp::<BINS, GRID_SIZE>();
    let cube = make_cube::<GRID_SIZE>();
    for out in run::<GRID_SIZE>(Method::Pyramid, (50u8, 100u8, 150u8), &weights, &cube) {
        assert_eq!(
            out,
            reference::<GRID_SIZE>(Method::Pyramid, (50, 100, 150), &weights, &cube)
        );
    }
}

#[test]
fn prism_q0_15_smoke() {
    const GRID_SIZE: usize = 2;
    const BINS: usize = 256;
    let weights = make_identity_ramp::<BINS, GRID_SIZE>();
    let cube = make_cube::<GRID_SIZE>();
    for out in run::<GRID_SIZE>(Method::Prism, (25u8, 75u8, 175u8), &weights, &cube) {
        assert_eq!(
            out,
            reference::<GRID_SIZE>(Method::Prism, (25, 75, 175), &weights, &cube)
        );
    }
}

#[test]
fn every_method_matches_the_restatement_on_every_tier() {
    const GRID_SIZE: usize = 9;
    let weights = random_weights::<GRID_SIZE>(0xC01D_F00D);
    let cube = random_cube::<GRID_SIZE>(0xDEAD_BEEF);
    for method in METHODS {
        for &input in INPUTS {
            let expect = reference::<GRID_SIZE>(method, input, &weights, &cube);
            for got in run::<GRID_SIZE>(method, input, &weights, &cube) {
                assert_eq!(got, expect, "{method:?} {input:?}");
            }
        }
    }
}

#[test]
fn production_shapes_match_the_restatement() {
    let weights = random_weights::<33>(0x1234_5678);
    let cube = random_cube::<33>(0x0BAD_CAFE);
    for &(r, g, b) in INPUTS {
        let mut out = [1i16; 8];
        tetra_u8_g33_b256(r, g, b, &weights, &cube, &mut out);
        assert_eq!(
            out,
            reference::<33>(Method::Tetra, (r, g, b), &weights, &cube)
        );
        trilinear_u8_g33_b256(r, g, b, &weights, &cube, &mut out);
        assert_eq!(
            out,
            reference::<33>(Method::Trilinear, (r, g, b), &weights, &cube)
        );
        pyramid_u8_g33_b256(r, g, b, &weights, &cube, &mut out);
        assert_eq!(
            out,
            reference::<33>(Method::Pyramid, (r, g, b), &weights, &cube)
        );
        prism_u8_g33_b256(r, g, b, &weights, &cube, &mut out);
        assert_eq!(
            out,
            reference::<33>(Method::Prism, (r, g, b), &weights, &cube)
        );
    }
}

/// A table whose first three bins carry the given weights in the cell between lines 0 and 1.
fn three_weights(r: i16, g: i16, b: i16) -> Box<[BarycentricWeight<i16>; 256]> {
    let mut w = Box::new([BarycentricWeight::<i16>::default(); 256]);
    for (i, weight) in [r, g, b].into_iter().enumerate() {
        w[i] = BarycentricWeight {
            x: 0,
            x_n: 1,
            w: weight,
        };
    }
    w
}

/// A cube of two points a side whose values are `100 + 800 x + 400 y + 200 z`.
fn linear_cube() -> Vec<Aligned4I16> {
    (0..8i16)
        .map(|i| {
            let v = 100 + 800 * (i / 4) + 400 * (i / 2 % 2) + 200 * (i % 2);
            Aligned4I16([v, v + 1, 2 * v, -v])
        })
        .collect()
}

#[test]
fn linear_cube_has_known_values() {
    // Fractions of one half, one quarter and one eighth.
    let w = three_weights(0x4000, 0x2000, 0x1000);
    let cube = linear_cube();
    let first = |m: Method| -> Vec<i16> {
        run::<2>(m, (0, 1, 2), &w, &cube)
            .iter()
            .map(|o| o[0])
            .collect()
    };
    for v in first(Method::Tetra) {
        assert_eq!(v, 625);
    }
    for v in first(Method::Trilinear) {
        assert_eq!(v, 625);
    }
    for v in first(Method::Pyramid) {
        assert_eq!(v, 450);
    }
    for v in first(Method::Prism) {
        assert_eq!(v, 525);
    }
    for out in run::<2>(Method::Tetra, (0, 1, 2), &w, &cube) {
        assert_eq!(out, [625, 626, 1250, -625, 0, 0, 0, 0]);
    }
}

#[test]
fn weights_of_zero_give_the_near_entry() {
    let w = three_weights(0, 0, 0);
    let cube = random_cube::<2>(5);
    for method in METHODS {
        for out in run::<2>(method, (0, 1, 2), &w, &cube) {
            assert_eq!(out, widen(cube[0].0));
        }
    }
}

#[test]
fn flat_cube_gives_its_entry() {
    let w = three_weights(0x7fff, 0x1234, 0x0fff);
    let cube: Vec<Aligned4I16> = (0..8).map(|_| Aligned4I16([-5, 12345, 0, -32768])).collect();
    for method in METHODS {
        for out in run::<2>(method, (0, 1, 2), &w, &cube) {
            assert_eq!(out, [-5, 12345, 0, -32768, 0, 0, 0, 0]);
        }
    }
}

#[test]
fn high_lanes_are_zero() {
    let w = random_weights::<9>(3);
    let cube = random_cube::<9>(4);
    for method in METHODS {
        for &input in INPUTS {
            for out in run::<9>(method, input, &w, &cube) {
                assert_eq!(out[4..], [0, 0, 0, 0]);
            }
        }
    }
}

#[test]
fn products_round_half_up_and_wrap_only_at_minus_one() {
    // Along the first axis alone: near plus the rounded product of the difference.
    let along = |d: i16, w: i16| -> Vec<i16> {
        let table = three_weights(w, 0, 0);
        let mut cube: Vec<Aligned4I16> = (0..8).map(|_| Aligned4I16([0; 4])).collect();
        for i in 4..8 {
            cube[i] = Aligned4I16([d; 4]);
        }
        run::<2>(Method::Tetra, (0, 1, 2), &table, &cube)
            .iter()
            .map(|o| o[0])
            .collect()
    };
    for v in along(1, 0x4000) {
        assert_eq!(v, 1);
    }
    for v in along(1, 0x3fff) {
        assert_eq!(v, 0);
    }
    for v in along(-1, 0x4000) {
        assert_eq!(v, 0);
    }
    for v in along(-3, 0x4000) {
        assert_eq!(v, -1);
    }
    for v in along(0x7fff, 0x7fff) {
        assert_eq!(v, 0x7ffe);
    }
    for v in along(i16::MIN, i16::MIN) {
        assert_eq!(v, i16::MIN);
    }
}

#[test]
fn interpolation_stays_near_the_corners() {
    let cube: Vec<Aligned4I16> = [900i16, 17, 30000, 5, 32766, 0, 12000, 31000]
        .iter()
        .map(|&v| Aligned4I16([v; 4]))
        .collect();
    for r in (0..0x7fff).step_by(0x0d01) {
        for g in (0..0x7fff).step_by(0x0b03) {
            for b in (0..0x7fff).step_by(0x0c07) {
                let w = three_weights(r as i16, g as i16, b as i16);
                for out in run::<2>(Method::Trilinear, (0, 1, 2), &w, &cube) {
                    assert!((0..=32766).contains(&out[0]));
                }
                for out in run::<2>(Method::Tetra, (0, 1, 2), &w, &cube) {
                    assert!((-1..=32767).contains(&out[0]));
                }
            }
        }
    }
}

#[test]
fn only_the_vertices_that_are_read_have_to_be_there() {
    // The second axis runs from line 1 back to line 0. The path goes from entry 2 along the
    // second axis to 0, along the first to 4 and along the third to 5; entries 6 and 7, where
    // other vertices would stand, are not there.
    let mut table = Box::new([BarycentricWeight::<i16>::default(); 256]);
    table[0] = BarycentricWeight { x: 0, x_n: 1, w: 0x2000 };
    table[1] = BarycentricWeight { x: 1, x_n: 0, w: 0x4000 };
    table[2] = BarycentricWeight { x: 0, x_n: 1, w: 0x1000 };
    let cube: Vec<Aligned4I16> = (0..6i16).map(|i| Aligned4I16([800 * i; 4])).collect();
    for out in run::<2>(Method::Tetra, (0, 1, 2), &table, &cube) {
        assert_eq!(out[0], 1600 - 800 + 800 + 100);
    }
}
