//! The sixteen-lane Q0.15 interpolators, on both tiers.

use archmage::{ScalarToken, SimdToken, X64V3Token};
use moxcms::conversions::cell::BarycentricWeight;
use moxcms::conversions::lanes::{ScalarI16x16, ScalarI16x8, V3I16x16};
use moxcms::conversions::simd_interp_q0_15::{
    interpolate_tetra, interpolate_trilinear, Aligned4I16,
};
use moxcms::conversions::simd_interp_q0_15_double::{
    interpolate_prism_double, interpolate_pyramid_double, interpolate_tetra_double,
    interpolate_trilinear_double, Aligned16I16,
};

fn mulhrs_ref(a: i16, b: i16) -> i16 {
    let prod = (a as i32) * (b as i32);
    ((prod + 0x4000) >> 15) as i16
}

fn sub(a: [i16; 16], b: [i16; 16]) -> [i16; 16] {
    let mut r = [0i16; 16];
    for i in 0..16 {
        r[i] = a[i].wrapping_sub(b[i]);
    }
    r
}

fn sum(a: [i16; 16], b: [i16; 16]) -> [i16; 16] {
    let mut r = [0i16; 16];
    for i in 0..16 {
        r[i] = a[i].wrapping_add(b[i]);
    }
    r
}

fn mla(acc: [i16; 16], a: [i16; 16], k: i16) -> [i16; 16] {
    let mut r = [0i16; 16];
    for i in 0..16 {
        r[i] = acc[i].wrapping_add(mulhrs_ref(a[i], k));
    }
    r
}

fn random_cube<const GRID_SIZE: usize>(seed: u32) -> Vec<Aligned16I16> {
    (0..GRID_SIZE.pow(3))
        .map(|i| {
            let k = (i as u32).wrapping_mul(0x9E37_79B1).wrapping_add(seed);
            let b16 = |shift: u32| -> i16 { (k.rotate_left(shift) & 0x3FFF) as i16 };
            Aligned16I16([
                b16(0),
                b16(2),
                b16(4),
                0,
                b16(6),
                b16(8),
                b16(10),
                0,
                b16(12),
                b16(14),
                b16(16),
                0,
                b16(18),
                b16(20),
                b16(22),
                0,
            ])
        })
        .collect()
}

fn random_weights<const GRID_SIZE: usize>(seed: u32) -> Box<[BarycentricWeight<i16>; 256]> {
    let mut w = Box::new([BarycentricWeight::<i16>::default(); 256]);
    for (i, entry) in w.iter_mut().enumerate() {
        let k = (i as u32).wrapping_mul(0xB503_2B33).wrapping_add(seed);
        let x = ((k & 0xFFFF) as usize % GRID_SIZE.max(2)) as i32;
        entry.x = x.min(GRID_SIZE as i32 - 1);
        entry.x_n = (entry.x + 1).min(GRID_SIZE as i32 - 1);
        entry.w = ((k >> 16) & 0x7FFF) as i16;
    }
    w
}

#[derive(Clone, Copy, Debug, PartialEq)]
enum Method {
    Tetra,
    Trilinear,
    Pyramid,
    Prism,
}

const METHODS: [Method; 4] = [
    Method::Tetra,
    Method::Trilinear,
    Method::Pyramid,
    Method::Prism,
];

/// A plain restatement of the four methods on arrays.
fn reference<const GRID_SIZE: usize>(
    method: Method,
    input: (u8, u8, u8),
    lut: &[BarycentricWeight<i16>; 256],
    cube: &[Aligned16I16],
) -> [i16; 16] {
    let (r, g, b) = (
        lut[input.0 as usize],
        lut[input.1 as usize],
        lut[input.2 as usize],
    );
    let at = |x: bool, y: bool, z: bool| -> [i16; 16] {
        let gx = if x { r.x_n } else { r.x } as usize;
        let gy = if y { g.x_n } else { g.x } as usize;
        let gz = if z { b.x_n } else { b.x } as usize;
        cube[gx * GRID_SIZE * GRID_SIZE + gy * GRID_SIZE + gz].0
    };
    let (f, t) = (false, true);
    let c0 = at(f, f, f);
    let (dr, dg, db) = (r.w, g.w, b.w);
    match method {
        Method::Tetra => {
            let (c1, c2, c3) = if dr >= dg {
                if dg >= db {
                    (
                        sub(at(t, f, f), c0),
                        sub(at(t, t, f), at(t, f, f)),
                        sub(at(t, t, t), at(t, t, f)),
                    )
                } else if dr >= db {
                    (
                        sub(at(t, f, f), c0),
                        sub(at(t, t, t), at(t, f, t)),
                        sub(at(t, f, t), at(t, f, f)),
                    )
                } else {
                    (
                        sub(at(t, f, t), at(f, f, t)),
                        sub(at(t, t, t), at(t, f, t)),
                        sub(at(f, f, t), c0),
                    )
                }
            } else if dr >= db {
                (
                    sub(at(t, t, f), at(f, t, f)),
                    sub(at(f, t, f), c0),
                    sub(at(t, t, t), at(t, t, f)),
                )
            } else if dg >= db {
                (
                    sub(at(t, t, t), at(f, t, t)),
                    sub(at(f, t, f), c0),
                    sub(at(f, t, t), at(f, t, f)),
                )
            } else {
                (
                    sub(at(t, t, t), at(f, t, t)),
                    sub(at(f, t, t), at(f, f, t)),
                    sub(at(f, f, t), c0),
                )
            };
            mla(mla(mla(c0, c1, dr), c2, dg), c3, db)
        }
        Method::Trilinear => {
            let lerp = |a: [i16; 16], b: [i16; 16], w: i16| mla(a, sub(b, a), w);
            let c00 = lerp(at(f, f, f), at(t, f, f), dr);
            let c10 = lerp(at(f, t, f), at(t, t, f), dr);
            let c01 = lerp(at(f, f, t), at(t, f, t), dr);
            let c11 = lerp(at(f, t, t), at(t, t, t), dr);
            lerp(lerp(c00, c10, dg), lerp(c01, c11, dg), db)
        }
        Method::Pyramid => {
            let (c1, c2, c3, c4, k) = if dr > db && dg > db {
                (
                    sub(at(t, t, t), at(t, t, f)),
                    sub(at(t, f, f), c0),
                    sub(at(f, t, f), c0),
                    sum(sub(sub(c0, at(f, t, f)), at(t, f, f)), at(t, t, f)),
                    mulhrs_ref(dr, dg),
                )
            } else if db > dr && dg > dr {
                (
                    sub(at(f, f, t), c0),
                    sub(at(t, t, t), at(f, t, t)),
                    sub(at(f, t, f), c0),
                    sum(sub(sub(c0, at(f, t, f)), at(f, f, t)), at(f, t, t)),
                    mulhrs_ref(dg, db),
                )
            } else {
                (
                    sub(at(f, f, t), c0),
                    sub(at(t, f, f), c0),
                    sub(at(t, t, t), at(t, f, t)),
                    sum(sub(sub(c0, at(t, f, f)), at(f, f, t)), at(t, f, t)),
                    mulhrs_ref(db, dr),
                )
            };
            mla(mla(mla(mla(c0, c1, db), c2, dr), c3, dg), c4, k)
        }
        Method::Prism => {
            let (c1, c2, c3, c4, c5) = if db > dr {
                let (x0, x1, x2, x3, x4) = (
                    at(f, f, t),
                    at(t, f, t),
                    at(f, t, f),
                    at(f, t, t),
                    at(t, t, t),
                );
                (
                    sub(x0, c0),
                    sub(x1, x0),
                    sub(x2, c0),
                    sum(sub(sub(c0, x2), x0), x3),
                    sum(sub(sub(x0, x3), x1), x4),
                )
            } else {
                let (x0, x1, x2, x3, x4) = (
                    at(t, f, f),
                    at(t, f, t),
                    at(f, t, f),
                    at(t, t, f),
                    at(t, t, t),
                );
                (
                    sub(x1, x0),
                    sub(x0, c0),
                    sub(x2, c0),
                    sum(sub(sub(x0, x3), x1), x4),
                    sum(sub(sub(c0, x2), x0), x3),
                )
            };
            let s = mla(mla(mla(c0, c1, db), c2, dr), c3, dg);
            mla(mla(s, c4, mulhrs_ref(dg, db)), c5, mulhrs_ref(dr, dg))
        }
    }
}

/// Runs a method on every tier that the processor has.
fn run<const GRID_SIZE: usize>(
    method: Method,
    input: (u8, u8, u8),
    lut: &[BarycentricWeight<i16>; 256],
    cube: &[Aligned16I16],
) -> Vec<[i16; 16]> {
    let (r, g, b) = (input.0 as usize, input.1 as usize, input.2 as usize);
    let mut all = Vec::new();
    let mut o = [77i16; 16];
    let s = ScalarToken;
    match method {
        Method::Tetra => {
            interpolate_tetra_double::<ScalarI16x16, GRID_SIZE, 256>(s, r, g, b, lut, cube, &mut o)
        }
        Method::Trilinear => interpolate_trilinear_double::<ScalarI16x16, GRID_SIZE, 256>(
            s, r, g, b, lut, cube, &mut o,
        ),
        Method::Pyramid => interpolate_pyramid_double::<ScalarI16x16, GRID_SIZE, 256>(
            s, r, g, b, lut, cube, &mut o,
        ),
        Method::Prism => {
            interpolate_prism_double::<ScalarI16x16, GRID_SIZE, 256>(s, r, g, b, lut, cube, &mut o)
        }
    }
    all.push(o);
    if let Some(v) = X64V3Token::summon() {
        let mut o = [77i16; 16];
        match method {
            Method::Tetra => {
                interpolate_tetra_double::<V3I16x16, GRID_SIZE, 256>(v, r, g, b, lut, cube, &mut o)
            }
            Method::Trilinear => interpolate_trilinear_double::<V3I16x16, GRID_SIZE, 256>(
                v, r, g, b, lut, cube, &mut o,
            ),
            Method::Pyramid => interpolate_pyramid_double::<V3I16x16, GRID_SIZE, 256>(
                v, r, g, b, lut, cube, &mut o,
            ),
            Method::Prism => {
                interpolate_prism_double::<V3I16x16, GRID_SIZE, 256>(v, r, g, b, lut, cube, &mut o)
            }
        }
        all.push(o);
    }
    all
}

const INPUTS: &[(u8, u8, u8)] = &[
    (0, 0, 0),
    (255, 255, 255),
    (128, 64, 200),
    (1, 254, 128),
    (80, 80, 80),
    (200, 100, 50),
    (10, 200, 100),
    (33, 77, 222),
];

#[test]
fn tetra_double_q15_matches_scalar_reference() {
    const GRID_SIZE: usize = 9;
    let weights = random_weights::<GRID_SIZE>(0xC01D_F00D);
    let cube = random_cube::<GRID_SIZE>(0xDEAD_BEEF);
    for &(ir, ig, ib) in INPUTS {
        let expect = reference::<GRID_SIZE>(Method::Tetra, (ir, ig, ib), &weights, &cube);
        for got in run::<GRID_SIZE>(Method::Tetra, (ir, ig, ib), &weights, &cube) {
            assert_eq!(got, expect, "tetra_double_q15 (r={ir},g={ig},b={ib})");
        }
    }
}

#[test]
fn trilinear_double_q15_smoke() {
    const GRID_SIZE: usize = 2;
    let weights = random_weights::<GRID_SIZE>(1);
    let cube = random_cube::<GRID_SIZE>(2);
    for out in run::<GRID_SIZE>(Method::Trilinear, (30u8, 90u8, 150u8), &weights, &cube) {
        assert_eq!(
            out,
            reference::<GRID_SIZE>(Method::Trilinear, (30, 90, 150), &weights, &cube)
        );
    }
}

#[test]
fn pyramid_double_q15_smoke() {
    const GRID_SIZE: usize = 2;
    let weights = random_weights::<GRID_SIZE>(1);
    let cube = random_cube::<GRID_SIZE>(2);
    for out in run::<GRID_SIZE>(Method::Pyramid, (50u8, 100u8, 150u8), &weights, &cube) {
        assert_eq!(
            out,
            reference::<GRID_SIZE>(Method::Pyramid, (50, 100, 150), &weights, &cube)
        );
    }
}

#[test]
fn prism_double_q15_smoke() {
    const GRID_SIZE: usize = 2;
    let weights = random_weights::<GRID_SIZE>(1);
    let cube = random_cube::<GRID_SIZE>(2);
    for out in run::<GRID_SIZE>(Method::Prism, (25u8, 75u8, 175u8), &weights, &cube) {
        assert_eq!(
            out,
            reference::<GRID_SIZE>(Method::Prism, (25, 75, 175), &weights, &cube)
        );
    }
}

#[test]
fn every_double_method_matches_the_restatement_on_every_tier() {
    const GRID_SIZE: usize = 9;
    let weights = random_weights::<GRID_SIZE>(0x0102_0304);
    let cube: Vec<Aligned16I16> = (0..GRID_SIZE.pow(3))
        .map(|i| {
            let mut lanes = [0i16; 16];
            for (k, lane) in lanes.iter_mut().enumerate() {
                *lane = (i as u32 * 16 + k as u32).wrapping_mul(0x9E37_79B1) as i16;
            }
            Aligned16I16(lanes)
        })
        .collect();
    for method in METHODS {
        for r in (0..=255).step_by(23) {
            for g in (0..=255).step_by(29) {
                for b in (0..=255).step_by(31) {
                    let input = (r as u8, g as u8, b as u8);
                    let expect = reference::<GRID_SIZE>(method, input, &weights, &cube);
                    for got in run::<GRID_SIZE>(method, input, &weights, &cube) {
                        assert_eq!(got, expect, "{method:?} {input:?}");
                    }
                }
            }
        }
    }
}

fn three_weights(r: i16, g: i16, b: i16) -> Box<[BarycentricWeight<i16>; 256]> {
    let mut w = Box::new([BarycentricWeight::<i16>::default(); 256]);
    for (i, weight) in [r, g, b].into_iter().enumerate() {
        w[i] = BarycentricWeight {
            x: 0,
            x_n: 1,
            w: weight,
        };
    }
    w
}

#[test]
fn linear_cube_has_known_values_in_sixteen_lanes() {
    let w = three_weights(0x4000, 0x2000, 0x1000);
    let cube: Vec<Aligned16I16> = (0..8i16)
        .map(|i| Aligned16I16([100 + 800 * (i / 4) + 400 * (i / 2 % 2) + 200 * (i % 2); 16]))
        .collect();
    for method in METHODS {
        for out in run::<2>(method, (0, 1, 2), &w, &cube) {
            assert_eq!(out, [625; 16], "{method:?}");
        }
    }
}

#[test]
fn face_terms_have_known_values() {
    // Only the vertex across the near face in the first two axes differs from zero.
    let mut cube: Vec<Aligned16I16> = (0..8).map(|_| Aligned16I16([0; 16])).collect();
    cube[6] = Aligned16I16([16000; 16]);
    let w = three_weights(0x4000, 0x4000, 0x2000);
    // One half times one half of the vertex, less one quarter on the way to the far vertex.
    for out in run::<2>(Method::Pyramid, (0, 1, 2), &w, &cube) {
        assert_eq!(out, [16000 / 4 - 16000 / 4; 16]);
    }
    // One quarter for the face at the near vertex, less one eighth of the next face.
    for out in run::<2>(Method::Prism, (0, 1, 2), &w, &cube) {
        assert_eq!(out, [16000 / 4 - 16000 / 8; 16]);
    }
}

#[test]
fn weights_of_zero_give_the_near_entry_in_sixteen_lanes() {
    let w = three_weights(0, 0, 0);
    let cube = random_cube::<2>(9);
    for method in METHODS {
        for out in run::<2>(method, (0, 1, 2), &w, &cube) {
            assert_eq!(out, cube[0].0);
        }
    }
}

#[test]
fn flat_cube_gives_its_entry_in_sixteen_lanes() {
    let w = three_weights(0x7fff, 0x2222, 0x5555);
    let entry = [
        1, -2, 3, -4, 500, -600, 700, -800, 9000, -9000, 32767, -32768, 0, 0, 77, 78,
    ];
    let cube: Vec<Aligned16I16> = (0..8).map(|_| Aligned16I16(entry)).collect();
    for method in METHODS {
        for out in run::<2>(method, (0, 1, 2), &w, &cube) {
            assert_eq!(out, entry);
        }
    }
}

#[test]
fn two_pixels_come_out_as_on_their_own() {
    const GRID_SIZE: usize = 5;
    let weights = random_weights::<GRID_SIZE>(0x5555_1111);
    let cube = random_cube::<GRID_SIZE>(0x3333_7777);
    let half = |k: usize| -> Vec<Aligned4I16> {
        cube.iter()
            .map(|e| Aligned4I16([e.0[k], e.0[k + 1], e.0[k + 2], e.0[k + 3]]))
            .collect()
    };
    for &(r, g, b) in INPUTS {
        for k in [0usize, 4, 8, 12] {
            let single = half(k);
            let (ir, ig, ib) = (r as usize, g as usize, b as usize);
            let mut out = [0i16; 8];
            interpolate_tetra::<ScalarI16x8, GRID_SIZE, 256>(
                ScalarToken,
                ir,
                ig,
                ib,
                &weights,
                &single,
                &mut out,
            );
            for both in run::<GRID_SIZE>(Method::Tetra, (r, g, b), &weights, &cube) {
                assert_eq!(both[k..k + 4], out[..4]);
            }
            interpolate_trilinear::<ScalarI16x8, GRID_SIZE, 256>(
                ScalarToken,
                ir,
                ig,
                ib,
                &weights,
                &single,
                &mut out,
            );
            for both in run::<GRID_SIZE>(Method::Trilinear, (r, g, b), &weights, &cube) {
                assert_eq!(both[k..k + 4], out[..4]);
            }
        }
    }
}

/// The exact value of a method, in double precision, on a cell of eight given corners.
fn exact(method: Method, v: &[i16; 8], w: [i16; 3]) -> f64 {
    let at = |x: usize, y: usize, z: usize| v[4 * x + 2 * y + z] as f64;
    let [r, g, b] = w.map(|k| k as f64 / 32768.0);
    let near = at(0, 0, 0);
    let far = at(1, 1, 1);
    match method {
        Method::Tetra => {
            // The path from the near vertex, the larger fraction first.
            let mut axes = [(r, 0usize), (g, 1), (b, 2)];
            axes.sort_by(|p, q| q.0.total_cmp(&p.0));
            let mut place = [0usize; 3];
            let mut sum = near;
            for (fraction, axis) in axes {
                let before = at(place[0], place[1], place[2]);
                place[axis] = 1;
                sum += (at(place[0], place[1], place[2]) - before) * fraction;
            }
            sum
        }
        Method::Trilinear => {
            let mut sum = 0.0;
            for (i, &c) in v.iter().enumerate() {
                let fr = if i & 4 != 0 { r } else { 1.0 - r };
                let fg = if i & 2 != 0 { g } else { 1.0 - g };
                let fb = if i & 1 != 0 { b } else { 1.0 - b };
                sum += c as f64 * fr * fg * fb;
            }
            sum
        }
        Method::Pyramid => {
            let (x, y, z) = (at(1, 0, 0), at(0, 1, 0), at(0, 0, 1));
            if r > b && g > b {
                let xy = at(1, 1, 0);
                near + (far - xy) * b
                    + (x - near) * r
                    + (y - near) * g
                    + (near - x - y + xy) * r * g
            } else if b > r && g > r {
                let yz = at(0, 1, 1);
                near + (z - near) * b
                    + (far - yz) * r
                    + (y - near) * g
                    + (near - y - z + yz) * g * b
            } else {
                let xz = at(1, 0, 1);
                near + (z - near) * b
                    + (x - near) * r
                    + (far - xz) * g
                    + (near - x - z + xz) * b * r
            }
        }
        Method::Prism => {
            let (x, y, z) = (at(1, 0, 0), at(0, 1, 0), at(0, 0, 1));
            let xz = at(1, 0, 1);
            if b > r {
                let yz = at(0, 1, 1);
                near + (z - near) * b
                    + (xz - z) * r
                    + (y - near) * g
                    + (near - y - z + yz) * g * b
                    + (z - yz - xz + far) * r * g
            } else {
                let xy = at(1, 1, 0);
                near + (xz - x) * b
                    + (x - near) * r
                    + (y - near) * g
                    + (x - xy - xz + far) * g * b
                    + (near - y - x + xy) * r * g
            }
        }
    }
}

#[test]
fn results_are_close_to_the_exact_values() {
    let corners = [4000i16, 9000, 300, 12345, 7, 16000, 2500, 8191];
    let cube: Vec<Aligned16I16> = corners.iter().map(|&v| Aligned16I16([v; 16])).collect();
    for (method, bound) in [
        (Method::Tetra, 1.5),
        (Method::Trilinear, 1.5),
        (Method::Pyramid, 2.5),
        (Method::Prism, 3.5),
    ] {
        for r in (0..0x7fff).step_by(0x0d01) {
            for g in (0..0x7fff).step_by(0x0b03) {
                for b in (0..0x7fff).step_by(0x0c07) {
                    let w = [r as i16, g as i16, b as i16];
                    let table = three_weights(w[0], w[1], w[2]);
                    let expect = exact(method, &corners, w);
                    for out in run::<2>(method, (0, 1, 2), &table, &cube) {
                        assert!(
                            (out[0] as f64 - expect).abs() <= bound,
                            "{method:?} {w:?} {} {expect}",
                            out[0]
                        );
                    }
                }
            }
        }
    }
}
