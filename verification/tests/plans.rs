//! The cell lookup and the edge plans, under single-precision arithmetic.

use archmage::{SimdToken, X64V3Token};
use moxcms::conversions::cell::{
    load_bary_weights, prism_plan, pyramid_plan, tetra_plan, BarycentricWeight, Cell, EdgePlan,
    Vertex,
};

const NEAR: Vertex = Vertex {
    x: false,
    y: false,
    z: false,
};

fn lane<const N: usize>(cube: &[[f32; N]], cell: &Cell<f32>, v: Vertex, grid: usize) -> [f32; N] {
    cube[cell.offset(v, grid)]
}

fn along_edges<const N: usize>(
    cube: &[[f32; N]],
    cell: &Cell<f32>,
    plan: EdgePlan,
    grid: usize,
) -> [f32; N] {
    let mut acc = lane(cube, cell, NEAR, grid);
    for (edge, weight) in [(plan.r, cell.r), (plan.g, cell.g), (plan.b, cell.b)] {
        let to = lane(cube, cell, edge.to, grid);
        let from = lane(cube, cell, edge.from, grid);
        for i in 0..N {
            acc[i] = (to[i] - from[i]).mul_add(weight, acc[i]);
        }
    }
    acc
}

#[derive(Clone, Copy)]
enum Method {
    Tetra,
    Trilinear,
    Pyramid,
    Prism,
}

/// Interpolates with the library's lookup and plans.
fn planned<const N: usize, const GRID_SIZE: usize>(
    method: Method,
    (in_r, in_g, in_b): (u8, u8, u8),
    lut: &[BarycentricWeight<f32>; 256],
    cube: &[[f32; N]],
) -> [f32; N] {
    let cell = load_bary_weights(lut, in_r as usize, in_g as usize, in_b as usize);
    let (r, g, b) = (cell.r, cell.g, cell.b);
    match method {
        Method::Tetra => along_edges(cube, &cell, tetra_plan(r >= g, g >= b, r >= b), GRID_SIZE),
        Method::Pyramid => along_edges(
            cube,
            &cell,
            pyramid_plan(r > b, g > b, b > r, g > r),
            GRID_SIZE,
        ),
        Method::Prism => along_edges(cube, &cell, prism_plan(r > g), GRID_SIZE),
        Method::Trilinear => {
            let at = |x: bool, y: bool, z: bool| lane(cube, &cell, Vertex { x, y, z }, GRID_SIZE);
            let lerp = |a: [f32; N], b: [f32; N], t: f32| -> [f32; N] {
                let mut o = [0f32; N];
                for i in 0..N {
                    o[i] = b[i].mul_add(t, a[i] * (1.0 - t));
                }
                o
            };
            let (f, t) = (false, true);
            let c00 = lerp(at(f, f, f), at(t, f, f), r);
            let c10 = lerp(at(f, t, f), at(t, t, f), r);
            let c01 = lerp(at(f, f, t), at(t, f, t), r);
            let c11 = lerp(at(f, t, t), at(t, t, t), r);
            lerp(lerp(c00, c10, g), lerp(c01, c11, g), b)
        }
    }
}

fn make_identity_ramp<const GRID_SIZE: usize>() -> Box<[BarycentricWeight<f32>; 256]> {
    const BINS: usize = 256;
    let mut w = Box::new([BarycentricWeight::<f32>::default(); BINS]);
    for (i, entry) in w.iter_mut().enumerate() {
        let x = (i as f32 * (GRID_SIZE as i32 - 1) as f32 / (BINS - 1) as f32).floor() as i32;
        entry.x = x;
        entry.x_n = (x + 1).min(GRID_SIZE as i32 - 1);
        entry.w = (i as f32 * (GRID_SIZE as i32 - 1) as f32 / (BINS - 1) as f32) - x as f32;
    }
    w
}

fn make_cube<const GRID_SIZE: usize>() -> Vec<[f32; 4]> {
    (0..GRID_SIZE.pow(3))
        .map(|i| [i as f32, i as f32, i as f32, 0.0])
        .collect()
}

fn make_cube_double<const GRID_SIZE: usize>() -> Vec<[f32; 8]> {
    (0..GRID_SIZE.pow(3))
        .map(|i| {
            [
                i as f32, i as f32, i as f32, 0.0, i as f32, i as f32, i as f32, 0.0,
            ]
        })
        .collect()
}

fn random_cube_double<const GRID_SIZE: usize>(seed: u32) -> Vec<[f32; 8]> {
    (0..GRID_SIZE.pow(3))
        .map(|i| {
            let k = (i as u32).wrapping_mul(0x9E37_79B1).wrapping_add(seed);
            let kf = |shift: u32| -> f32 {
                let bits = k.rotate_left(shift) & 0x7FFF_FFFF;
                bits as f32 / 0x4000_0000u32 as f32
            };
            [
                kf(0),
                kf(5),
                kf(11),
                kf(17),
                kf(23),
                kf(2),
                kf(29),
                kf(3),
            ]
        })
        .collect()
}

fn random_weights_double<const GRID_SIZE: usize>(seed: u32) -> Box<[BarycentricWeight<f32>; 256]> {
    let mut w = Box::new([BarycentricWeight::<f32>::default(); 256]);
    for (i, entry) in w.iter_mut().enumerate() {
        let k = (i as u32).wrapping_mul(0xB503_2B33).wrapping_add(seed);
        let x = ((k & 0xFFFF) as usize % GRID_SIZE.max(2)) as i32;
        entry.x = x.min(GRID_SIZE as i32 - 1);
        entry.x_n = (entry.x + 1).min(GRID_SIZE as i32 - 1);
        let bits = (k >> 16) & 0x7FFF_FFFF;
        entry.w = bits as f32 / 0x8000_0000u32 as f32;
    }
    w
}

const EQUIV_INPUTS_DOUBLE: &[(u8, u8, u8)] = &[
    (0, 0, 0),
    (255, 255, 255),
    (128, 64, 200),
    (1, 254, 128),
    (80, 80, 80),
    (200, 100, 50),
    (10, 200, 100),
    (33, 77, 222),
];

fn assert_f32x8_close(got: [f32; 8], expect: [f32; 8], ctx: &str) {
    for lane in 0..8 {
        let diff = (got[lane] - expect[lane]).abs();
        assert!(
            diff < 1e-5,
            "{ctx} lane {lane}: got={} expect={} diff={}",
            got[lane],
            expect[lane],
            diff
        );
    }
}

fn sub8(a: [f32; 8], b: [f32; 8]) -> [f32; 8] {
    let mut r = [0f32; 8];
    for i in 0..8 {
        r[i] = a[i] - b[i];
    }
    r
}

fn mla8(acc: [f32; 8], a: [f32; 8], k: f32) -> [f32; 8] {
    let mut r = [0f32; 8];
    for i in 0..8 {
        r[i] = a[i].mul_add(k, acc[i]);
    }
    r
}

/// A plain restatement of the four methods on arrays, without the library.
fn scalar_double_ref<const GRID_SIZE: usize>(
    method: Method,
    (in_r, in_g, in_b): (u8, u8, u8),
    lut: &[BarycentricWeight<f32>; 256],
    cube: &[[f32; 8]],
) -> [f32; 8] {
    let (r, g, b) = (lut[in_r as usize], lut[in_g as usize], lut[in_b as usize]);
    let (x, y, z) = (r.x, g.x, b.x);
    let (x_n, y_n, z_n) = (r.x_n, g.x_n, b.x_n);
    let (dr, dg, db) = (r.w, g.w, b.w);
    let fetch = |x: i32, y: i32, z: i32| -> [f32; 8] {
        let offset = (x as u32 * (GRID_SIZE as u32 * GRID_SIZE as u32)
            + y as u32 * GRID_SIZE as u32
            + z as u32) as usize;
        cube[offset]
    };
    let c0 = fetch(x, y, z);
    let (c1, c2, c3) = match method {
        Method::Tetra => {
            if dr >= dg {
                if dg >= db {
                    (
                        sub8(fetch(x_n, y, z), c0),
                        sub8(fetch(x_n, y_n, z), fetch(x_n, y, z)),
                        sub8(fetch(x_n, y_n, z_n), fetch(x_n, y_n, z)),
                    )
                } else if dr >= db {
                    (
                        sub8(fetch(x_n, y, z), c0),
                        sub8(fetch(x_n, y_n, z_n), fetch(x_n, y, z_n)),
                        sub8(fetch(x_n, y, z_n), fetch(x_n, y, z)),
                    )
                } else {
                    (
                        sub8(fetch(x_n, y, z_n), fetch(x, y, z_n)),
                        sub8(fetch(x_n, y_n, z_n), fetch(x_n, y, z_n)),
                        sub8(fetch(x, y, z_n), c0),
                    )
                }
            } else if dr >= db {
                (
                    sub8(fetch(x_n, y_n, z), fetch(x, y_n, z)),
                    sub8(fetch(x, y_n, z), c0),
                    sub8(fetch(x_n, y_n, z_n), fetch(x_n, y_n, z)),
                )
            } else if dg >= db {
                (
                    sub8(fetch(x_n, y_n, z_n), fetch(x, y_n, z_n)),
                    sub8(fetch(x, y_n, z), c0),
                    sub8(fetch(x, y_n, z_n), fetch(x, y_n, z)),
                )
            } else {
                (
                    sub8(fetch(x_n, y_n, z_n), fetch(x, y_n, z_n)),
                    sub8(fetch(x, y_n, z_n), fetch(x, y, z_n)),
                    sub8(fetch(x, y, z_n), c0),
                )
            }
        }
        Method::Trilinear => {
            let lerp = |a: [f32; 8], b: [f32; 8], t: f32| -> [f32; 8] {
                let it = 1.0 - t;
                let mut r = [0f32; 8];
                for i in 0..8 {
                    r[i] = b[i].mul_add(t, a[i] * it);
                }
                r
            };
            let c00 = lerp(fetch(x, y, z), fetch(x_n, y, z), dr);
            let c10 = lerp(fetch(x, y_n, z), fetch(x_n, y_n, z), dr);
            let c01 = lerp(fetch(x, y, z_n), fetch(x_n, y, z_n), dr);
            let c11 = lerp(fetch(x, y_n, z_n), fetch(x_n, y_n, z_n), dr);
            return lerp(lerp(c00, c10, dg), lerp(c01, c11, dg), db);
        }
        Method::Pyramid => {
            let far = fetch(x_n, y_n, z_n);
            if dr > db && dg > db {
                (
                    sub8(far, fetch(x_n, y_n, z)),
                    sub8(fetch(x_n, y, z), c0),
                    sub8(fetch(x, y_n, z), c0),
                )
            } else if db > dr && dg > dr {
                (
                    sub8(far, fetch(x, y_n, z_n)),
                    sub8(fetch(x, y_n, z), c0),
                    sub8(fetch(x, y, z_n), c0),
                )
            } else {
                (
                    sub8(far, fetch(x_n, y, z_n)),
                    sub8(fetch(x_n, y, z), c0),
                    sub8(fetch(x, y, z_n), c0),
                )
            }
        }
        Method::Prism => {
            let far = fetch(x_n, y_n, z_n);
            if dr > dg {
                (
                    sub8(far, fetch(x_n, y, z_n)),
                    sub8(fetch(x_n, y, z), c0),
                    sub8(fetch(x, y, z_n), c0),
                )
            } else {
                (
                    sub8(far, fetch(x, y_n, z_n)),
                    sub8(fetch(x, y_n, z), c0),
                    sub8(fetch(x, y, z_n), c0),
                )
            }
        }
    };
    mla8(mla8(mla8(c0, c1, dr), c2, dg), c3, db)
}

#[test]
fn tetra_smoke() {
    const GRID_SIZE: usize = 2;
    let weights = make_identity_ramp::<GRID_SIZE>();
    let cube = make_cube::<GRID_SIZE>();
    let out = planned::<4, GRID_SIZE>(Method::Tetra, (0u8, 0u8, 0u8), &weights, &cube);
    assert_eq!(out, [0.0; 4]);
}

#[test]
fn trilinear_smoke() {
    const GRID_SIZE: usize = 2;
    let weights = make_identity_ramp::<GRID_SIZE>();
    let cube = make_cube::<GRID_SIZE>();
    let out = planned::<4, GRID_SIZE>(Method::Trilinear, (128u8, 64u8, 200u8), &weights, &cube);
    // The cube is linear: four for the first axis, two for the second, one for the third.
    let expect = (4.0 * 128.0 + 2.0 * 64.0 + 200.0) / 255.0;
    assert!((out[0] - expect).abs() < 1e-5);
    assert_eq!(out[3], 0.0);
}

#[test]
fn pyramid_smoke() {
    const GRID_SIZE: usize = 2;
    let weights = make_identity_ramp::<GRID_SIZE>();
    let cube = make_cube::<GRID_SIZE>();
    let out = planned::<4, GRID_SIZE>(Method::Pyramid, (50u8, 100u8, 150u8), &weights, &cube);
    // The first fraction is the smallest: four, two and one with the fractions in turn.
    let expect = (4.0 * 50.0 + 2.0 * 100.0 + 150.0) / 255.0;
    assert!((out[0] - expect).abs() < 1e-5);
}

#[test]
fn prism_smoke() {
    const GRID_SIZE: usize = 2;
    let weights = make_identity_ramp::<GRID_SIZE>();
    let cube = make_cube::<GRID_SIZE>();
    let out = planned::<4, GRID_SIZE>(Method::Prism, (25u8, 75u8, 175u8), &weights, &cube);
    let expect = (4.0 * 25.0 + 2.0 * 75.0 + 175.0) / 255.0;
    assert!((out[0] - expect).abs() < 1e-5);
}

#[test]
fn tetra_double_matches_scalar_reference() {
    const GRID_SIZE: usize = 9;
    let weights = random_weights_double::<GRID_SIZE>(0xC01D_F00D);
    let cube = random_cube_double::<GRID_SIZE>(0xDEAD_BEEF);
    for &(ir, ig, ib) in EQUIV_INPUTS_DOUBLE {
        let expect = scalar_double_ref::<GRID_SIZE>(Method::Tetra, (ir, ig, ib), &weights, &cube);
        let got = planned::<8, GRID_SIZE>(Method::Tetra, (ir, ig, ib), &weights, &cube);
        assert_f32x8_close(got, expect, &format!("tetra_double (r={ir},g={ig},b={ib})"));
    }
}

#[test]
fn trilinear_double_matches_scalar_reference() {
    const GRID_SIZE: usize = 9;
    let weights = random_weights_double::<GRID_SIZE>(0xC01D_F00D);
    let cube = random_cube_double::<GRID_SIZE>(0xDEAD_BEEF);
    for &(ir, ig, ib) in EQUIV_INPUTS_DOUBLE {
        let expect =
            scalar_double_ref::<GRID_SIZE>(Method::Trilinear, (ir, ig, ib), &weights, &cube);
        let got = planned::<8, GRID_SIZE>(Method::Trilinear, (ir, ig, ib), &weights, &cube);
        assert_f32x8_close(
            got,
            expect,
            &format!("trilinear_double (r={ir},g={ig},b={ib})"),
        );
    }
}

#[test]
fn pyramid_double_matches_scalar_reference() {
    const GRID_SIZE: usize = 9;
    let weights = random_weights_double::<GRID_SIZE>(0xC01D_F00D);
    let cube = random_cube_double::<GRID_SIZE>(0xDEAD_BEEF);
    for &(ir, ig, ib) in EQUIV_INPUTS_DOUBLE {
        let expect = scalar_double_ref::<GRID_SIZE>(Method::Pyramid, (ir, ig, ib), &weights, &cube);
        let got = planned::<8, GRID_SIZE>(Method::Pyramid, (ir, ig, ib), &weights, &cube);
        assert_f32x8_close(
            got,
            expect,
            &format!("pyramid_double (r={ir},g={ig},b={ib})"),
        );
    }
}

#[test]
fn prism_double_matches_scalar_reference() {
    const GRID_SIZE: usize = 9;
    let weights = random_weights_double::<GRID_SIZE>(0xC01D_F00D);
    let cube = random_cube_double::<GRID_SIZE>(0xDEAD_BEEF);
    for &(ir, ig, ib) in EQUIV_INPUTS_DOUBLE {
        let expect = scalar_double_ref::<GRID_SIZE>(Method::Prism, (ir, ig, ib), &weights, &cube);
        let got = planned::<8, GRID_SIZE>(Method::Prism, (ir, ig, ib), &weights, &cube);
        assert_f32x8_close(got, expect, &format!("prism_double (r={ir},g={ig},b={ib})"));
    }
}

#[test]
fn tetra_double_smoke() {
    const GRID_SIZE: usize = 2;
    let weights = make_identity_ramp::<GRID_SIZE>();
    let cube = make_cube_double::<GRID_SIZE>();
    let out = planned::<8, GRID_SIZE>(Method::Tetra, (128u8, 64u8, 200u8), &weights, &cube);
    let expect = (4.0 * 128.0 + 2.0 * 64.0 + 200.0) / 255.0;
    assert!((out[0] - expect).abs() < 1e-5);
    assert_eq!(out[..4], out[4..]);
}

#[test]
fn trilinear_double_smoke() {
    const GRID_SIZE: usize = 2;
    let weights = make_identity_ramp::<GRID_SIZE>();
    let cube = make_cube_double::<GRID_SIZE>();
    let out = planned::<8, GRID_SIZE>(Method::Trilinear, (30u8, 90u8, 150u8), &weights, &cube);
    let expect = (4.0 * 30.0 + 2.0 * 90.0 + 150.0) / 255.0;
    assert!((out[0] - expect).abs() < 1e-5);
    assert_eq!(out[..4], out[4..]);
}

#[test]
fn pyramid_double_smoke() {
    const GRID_SIZE: usize = 2;
    let weights = make_identity_ramp::<GRID_SIZE>();
    let cube = make_cube_double::<GRID_SIZE>();
    let out = planned::<8, GRID_SIZE>(Method::Pyramid, (50u8, 100u8, 150u8), &weights, &cube);
    assert_eq!(out[..4], out[4..]);
}

#[test]
fn prism_double_smoke() {
    const GRID_SIZE: usize = 2;
    let weights = make_identity_ramp::<GRID_SIZE>();
    let cube = make_cube_double::<GRID_SIZE>();
    let out = planned::<8, GRID_SIZE>(Method::Prism, (25u8, 75u8, 175u8), &weights, &cube);
    assert_eq!(out[..4], out[4..]);
}

#[test]
fn v3_probe_runs_if_avx2_available() {
    if X64V3Token::summon().is_none() {
        println!("skipped: AVX2+FMA not available at runtime");
        return;
    }
    const GRID_SIZE: usize = 2;
    let cube: Vec<[f32; 4]> = (0..GRID_SIZE.pow(3))
        .map(|i| [i as f32, i as f32, i as f32, 0.0])
        .collect();
    let mut weights = Box::new([BarycentricWeight::<f32>::default(); 256]);
    for (i, entry) in weights.iter_mut().enumerate() {
        let x = (i as f32 * (GRID_SIZE as i32 - 1) as f32 / 255.0).floor() as i32;
        entry.x = x;
        entry.x_n = (x + 1).min(GRID_SIZE as i32 - 1);
        entry.w = (i as f32 * (GRID_SIZE as i32 - 1) as f32 / 255.0) - x as f32;
    }
    let out = planned::<4, GRID_SIZE>(Method::Tetra, (0u8, 0u8, 0u8), &weights, &cube);
    assert_eq!(out, [0.0; 4]);
}

#[test]
fn tetra_edges_form_a_falling_path() {
    for (r, g, b) in [
        (3, 2, 1),
        (3, 1, 2),
        (2, 1, 3),
        (2, 3, 1),
        (1, 3, 2),
        (1, 2, 3),
        (2, 2, 1),
        (1, 2, 2),
        (2, 1, 2),
        (1, 1, 1),
    ] {
        let p = tetra_plan(r >= g, g >= b, r >= b);
        let mut path = [(r, p.r), (g, p.g), (b, p.b)];
        // Along a path from the near vertex the number of axes crossed rises.
        let crossed = |v: Vertex| v.x as u8 + v.y as u8 + v.z as u8;
        path.sort_by_key(|(_, e)| crossed(e.from));
        assert_eq!(path[0].1.from, NEAR);
        assert_eq!(path[1].1.from, path[0].1.to);
        assert_eq!(path[2].1.from, path[1].1.to);
        assert_eq!(crossed(path[2].1.to), 3);
        assert!(path[0].0 >= path[1].0 && path[1].0 >= path[2].0);
    }
}

#[test]
fn offsets_count_along_the_third_axis_first() {
    let cell = Cell {
        x: 1,
        y: 2,
        z: 3,
        x_n: 2,
        y_n: 3,
        z_n: 4,
        r: 0u8,
        g: 0u8,
        b: 0u8,
    };
    assert_eq!(cell.offset(NEAR, 10), 123);
    let far = Vertex {
        x: true,
        y: true,
        z: true,
    };
    assert_eq!(cell.offset(far, 10), 234);
}

#[test]
fn grid_cells_stand_in_the_cube() {
    let grid = 5usize;
    for x in 0..4 {
        for y in 0..4 {
            for z in 0..4 {
                let cell = Cell {
                    x,
                    y,
                    z,
                    x_n: x + 1,
                    y_n: y + 1,
                    z_n: z + 1,
                    r: (),
                    g: (),
                    b: (),
                };
                for i in 0..8 {
                    let v = Vertex {
                        x: i & 4 != 0,
                        y: i & 2 != 0,
                        z: i & 1 != 0,
                    };
                    assert!(cell.offset(v, grid) < grid * grid * grid);
                }
            }
        }
    }
}
