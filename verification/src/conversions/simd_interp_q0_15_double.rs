//! Q0.15 fixed-point interpolators on sixteen 16-bit lanes, for two pixels in one pass.

use crate::conversions::cell::{
    cell_of, load_bary_weights, prism_face_plan, prism_face_plan_of,
    pyramid_face_plan, pyramid_face_plan_of, tetra_plan, AxisPair, BarycentricWeight, Cell,
    EdgePlan, Face, FaceTerm, PrismPlan, PyramidPlan, Vertex,
};
use crate::conversions::lanes::{lanes_splat, mulhrs, q15_mulhrs, wrap16, I16Lanes};
use crate::conversions::simd_interp_q0_15::{
    edge_sum, edge_sum_lanes, lane_at, lerp, mla, q15_mla, sum_edges, tetra_fits,
    tetra_lanes, trilinear_lanes,
};
use vstd::prelude::*;

verus! {

/// A cube entry of sixteen Q0.15 values.
#[derive(Clone, Copy, Debug)]
pub struct Aligned16I16(pub [i16; 16]);

/// The lanes of every entry of a cube.
pub open spec fn cube_lanes_16(cube: Seq<Aligned16I16>) -> Seq<Seq<i16>> {
    Seq::new(cube.len(), |i: int| cube[i].0@)
}

/// The cell is one of the cube's, and the cube of `len` entries holds every point of the grid.
pub open spec fn cell_in_cube(cell: Cell<i16>, grid: int, len: int) -> bool {
    cell.in_grid(grid) && grid * grid * grid <= len
}

/// The four-term pyramidal plan of a cell.
pub open spec fn pyramid_faces(cell: Cell<i16>) -> PyramidPlan {
    pyramid_face_plan_of(cell.r > cell.b, cell.g > cell.b, cell.b > cell.r, cell.g > cell.r)
}

/// The five-term prismatic plan of a cell.
pub open spec fn prism_faces(cell: Cell<i16>) -> PrismPlan {
    prism_face_plan_of(cell.b > cell.r)
}

/// Every vertex that four-term pyramidal interpolation reads stands in a cube of `len` entries.
pub open spec fn pyramid_four_fits(cell: Cell<i16>, grid: int, len: int) -> bool {
    &&& cell.edges_fit(pyramid_faces(cell).edges, grid, len)
    &&& cell.face_fits(pyramid_faces(cell).base.face, grid, len)
}

/// Every vertex that five-term prismatic interpolation reads stands in a cube of `len` entries.
pub open spec fn prism_five_fits(cell: Cell<i16>, grid: int, len: int) -> bool {
    &&& cell.edges_fit(prism_faces(cell).edges, grid, len)
    &&& cell.face_fits(prism_faces(cell).gb.face, grid, len)
    &&& cell.face_fits(prism_faces(cell).rg.face, grid, len)
}

/// What a face's far corner holds beyond the plane through its other three.
pub open spec fn twist(at: spec_fn(Vertex) -> i16, f: Face) -> i16 {
    wrap16(at(f.from) - at(f.u) - at(f.v) + at(f.across))
}

/// The product of the two fractions of a pair of axes.
pub open spec fn pair_weight(axes: AxisPair, r: i16, g: i16, b: i16) -> i16 {
    match axes {
        AxisPair::Rg => mulhrs(r, g),
        AxisPair::Gb => mulhrs(g, b),
        AxisPair::Br => mulhrs(b, r),
    }
}

/// Adds the twist of a face, weighted with the product of its two fractions.
pub open spec fn plus_face(
    acc: i16,
    at: spec_fn(Vertex) -> i16,
    t: FaceTerm,
    r: i16,
    g: i16,
    b: i16,
) -> i16 {
    q15_mla(acc, twist(at, t.face), pair_weight(t.axes, r, g, b))
}

/// Four-term pyramidal interpolation in one lane.
pub open spec fn pyramid_four(at: spec_fn(Vertex) -> i16, r: i16, g: i16, b: i16) -> i16 {
    let plan = pyramid_face_plan_of(r > b, g > b, b > r, g > r);
    plus_face(edge_sum(at, plan.edges, r, g, b), at, plan.base, r, g, b)
}

/// Five-term prismatic interpolation in one lane.
pub open spec fn prism_five(at: spec_fn(Vertex) -> i16, r: i16, g: i16, b: i16) -> i16 {
    let plan = prism_face_plan_of(b > r);
    let s = plus_face(edge_sum(at, plan.edges, r, g, b), at, plan.gb, r, g, b);
    plus_face(s, at, plan.rg, r, g, b)
}

/// [`pyramid_four`] in each of `n` lanes.
pub open spec fn pyramid_four_lanes(
    cube: Seq<Seq<i16>>,
    cell: Cell<i16>,
    grid: int,
    n: nat,
) -> Seq<i16> {
    Seq::new(n, |i: int| pyramid_four(lane_at(cube, cell, grid, i), cell.r, cell.g, cell.b))
}

/// [`prism_five`] in each of `n` lanes.
pub open spec fn prism_five_lanes(
    cube: Seq<Seq<i16>>,
    cell: Cell<i16>,
    grid: int,
    n: nat,
) -> Seq<i16> {
    Seq::new(n, |i: int| prism_five(lane_at(cube, cell, grid, i), cell.r, cell.g, cell.b))
}

/// Loads the cube entry at a vertex.
fn fetch<V: I16Lanes<16>>(
    token: V::Token,
    cube: &[Aligned16I16],
    cell: &Cell<i16>,
    v: Vertex,
    grid: usize,
) -> (r: V)
    requires
        cell.stands(v, grid as int, cube@.len() as int),
    ensures
        r.lanes() == cube_lanes_16(cube@)[cell.offset_of(v, grid as int)],
        r.lanes().len() == 16,
{
    let offset: usize = cell.offset(v, grid);
    V::from_array(token, cube[offset].0)
}

/// Interpolates along the edges of a plan.
fn interpolate_edges<V: I16Lanes<16>>(
    token: V::Token,
    cell: &Cell<i16>,
    plan: EdgePlan,
    grid: usize,
    cube: &[Aligned16I16],
) -> (out: V)
    requires
        cell.edges_fit(plan, grid as int, cube@.len() as int),
    ensures
        out.lanes() == edge_sum_lanes(cube_lanes_16(cube@), *cell, grid as int, plan, 16),
{
    let base: V = fetch(token, cube, cell, Vertex { x: false, y: false, z: false }, grid);
    let r: (V, V) = (
        fetch(token, cube, cell, plan.r.from, grid),
        fetch(token, cube, cell, plan.r.to, grid),
    );
    let g: (V, V) = (
        fetch(token, cube, cell, plan.g.from, grid),
        fetch(token, cube, cell, plan.g.to, grid),
    );
    let b: (V, V) = (
        fetch(token, cube, cell, plan.b.from, grid),
        fetch(token, cube, cell, plan.b.to, grid),
    );
    let out = sum_edges(token, base, r, g, b, (cell.r, cell.g, cell.b));
    assert(out.lanes() =~= edge_sum_lanes(cube_lanes_16(cube@), *cell, grid as int, plan, 16));
    out
}

/// Wrapping around once at the end is the same as after every step.
proof fn lemma_twist_wraps(a: i16, u: i16, v: i16, c: i16)
    ensures
        wrap16(wrap16(wrap16(a - u) - v) + c) == wrap16(a - u - v + c),
{
}

/// The twist of a face in each lane.
pub open spec fn twist_lanes(
    cube: Seq<Seq<i16>>,
    cell: Cell<i16>,
    grid: int,
    f: Face,
    n: nat,
) -> Seq<i16> {
    Seq::new(n, |i: int| twist(lane_at(cube, cell, grid, i), f))
}

/// Reads the twist of a face.
fn load_twist<V: I16Lanes<16>>(
    token: V::Token,
    cell: &Cell<i16>,
    f: Face,
    grid: usize,
    cube: &[Aligned16I16],
) -> (out: V)
    requires
        cell.face_fits(f, grid as int, cube@.len() as int),
    ensures
        out.lanes() == twist_lanes(cube_lanes_16(cube@), *cell, grid as int, f, 16),
{
    let from: V = fetch(token, cube, cell, f.from, grid);
    let u: V = fetch(token, cube, cell, f.u, grid);
    let v: V = fetch(token, cube, cell, f.v, grid);
    let across: V = fetch(token, cube, cell, f.across, grid);
    let out = from.minus(&u).minus(&v).plus(&across);
    let ghost want = twist_lanes(cube_lanes_16(cube@), *cell, grid as int, f, 16);
    assert forall|i: int| 0 <= i < 16 implies out.lanes()[i] == want[i] by {
        lemma_twist_wraps(from.lanes()[i], u.lanes()[i], v.lanes()[i], across.lanes()[i]);
    }
    assert(out.lanes() =~= want);
    out
}

/// The product of the two fractions of a pair of axes, in every lane.
fn load_pair_weight<V: I16Lanes<16>>(token: V::Token, cell: &Cell<i16>, axes: AxisPair) -> (out: V)
    ensures
        out.lanes() == lanes_splat(16, pair_weight(axes, cell.r, cell.g, cell.b)),
{
    let (p, q) = match axes {
        AxisPair::Rg => (cell.r, cell.g),
        AxisPair::Gb => (cell.g, cell.b),
        AxisPair::Br => (cell.b, cell.r),
    };
    let out = q15_mulhrs(token, V::splat(token, p), V::splat(token, q));
    assert(out.lanes() =~= lanes_splat(16, pair_weight(axes, cell.r, cell.g, cell.b)));
    out
}

/// Tetrahedral interpolation of sixteen lanes.
pub fn interpolate_tetra_double<V: I16Lanes<16>, const GRID_SIZE: usize, const BINS: usize>(
    token: V::Token,
    in_r: usize,
    in_g: usize,
    in_b: usize,
    lut: &[BarycentricWeight<i16>; BINS],
    cube: &[Aligned16I16],
    out: &mut [i16; 16],
)
    requires
        in_r < BINS,
        in_g < BINS,
        in_b < BINS,
        cell_in_cube(
            cell_of(lut@, in_r as int, in_g as int, in_b as int),
            GRID_SIZE as int,
            cube@.len() as int,
        ),
        tetra_fits(
            cell_of(lut@, in_r as int, in_g as int, in_b as int),
            GRID_SIZE as int,
            cube@.len() as int,
        ),
    ensures
        final(out)@ == tetra_lanes(
            cube_lanes_16(cube@),
            cell_of(lut@, in_r as int, in_g as int, in_b as int),
            GRID_SIZE as int,
            16,
        ),
{
    let cell = load_bary_weights(lut, in_r, in_g, in_b);
    let plan = tetra_plan(cell.r >= cell.g, cell.g >= cell.b, cell.r >= cell.b);
    let sum: V = interpolate_edges(token, &cell, plan, GRID_SIZE, cube);
    *out = sum.to_array();
}

/// Trilinear interpolation of sixteen lanes.
pub fn interpolate_trilinear_double<V: I16Lanes<16>, const GRID_SIZE: usize, const BINS: usize>(
    token: V::Token,
    in_r: usize,
    in_g: usize,
    in_b: usize,
    lut: &[BarycentricWeight<i16>; BINS],
    cube: &[Aligned16I16],
    out: &mut [i16; 16],
)
    requires
        in_r < BINS,
        in_g < BINS,
        in_b < BINS,
        cell_in_cube(
            cell_of(lut@, in_r as int, in_g as int, in_b as int),
            GRID_SIZE as int,
            cube@.len() as int,
        ),
        cell_of(lut@, in_r as int, in_g as int, in_b as int).fits(
            GRID_SIZE as int,
            cube@.len() as int,
        ),
    ensures
        final(out)@ == trilinear_lanes(
            cube_lanes_16(cube@),
            cell_of(lut@, in_r as int, in_g as int, in_b as int),
            GRID_SIZE as int,
            16,
        ),
{
    let cell = load_bary_weights(lut, in_r, in_g, in_b);
    let c000: V = fetch(token, cube, &cell, Vertex { x: false, y: false, z: false }, GRID_SIZE);
    let c100: V = fetch(token, cube, &cell, Vertex { x: true, y: false, z: false }, GRID_SIZE);
    let c010: V = fetch(token, cube, &cell, Vertex { x: false, y: true, z: false }, GRID_SIZE);
    let c110: V = fetch(token, cube, &cell, Vertex { x: true, y: true, z: false }, GRID_SIZE);
    let c001: V = fetch(token, cube, &cell, Vertex { x: false, y: false, z: true }, GRID_SIZE);
    let c101: V = fetch(token, cube, &cell, Vertex { x: true, y: false, z: true }, GRID_SIZE);
    let c011: V = fetch(token, cube, &cell, Vertex { x: false, y: true, z: true }, GRID_SIZE);
    let c111: V = fetch(token, cube, &cell, Vertex { x: true, y: true, z: true }, GRID_SIZE);

    let dr: V = V::splat(token, cell.r);
    let dg: V = V::splat(token, cell.g);
    let db: V = V::splat(token, cell.b);

    let c00 = lerp(token, c000, c100, dr);
    let c10 = lerp(token, c010, c110, dr);
    let c01 = lerp(token, c001, c101, dr);
    let c11 = lerp(token, c011, c111, dr);
    let c0 = lerp(token, c00, c10, dg);
    let c1 = lerp(token, c01, c11, dg);
    let res = lerp(token, c0, c1, db);
    *out = res.to_array();
    assert(out@ =~= trilinear_lanes(cube_lanes_16(cube@), cell, GRID_SIZE as int, 16));
}

/// Pyramidal interpolation of sixteen lanes, with four terms.
pub fn interpolate_pyramid_double<V: I16Lanes<16>, const GRID_SIZE: usize, const BINS: usize>(
    token: V::Token,
    in_r: usize,
    in_g: usize,
    in_b: usize,
    lut: &[BarycentricWeight<i16>; BINS],
    cube: &[Aligned16I16],
    out: &mut [i16; 16],
)
    requires
        in_r < BINS,
        in_g < BINS,
        in_b < BINS,
        cell_in_cube(
            cell_of(lut@, in_r as int, in_g as int, in_b as int),
            GRID_SIZE as int,
            cube@.len() as int,
        ),
        pyramid_four_fits(
            cell_of(lut@, in_r as int, in_g as int, in_b as int),
            GRID_SIZE as int,
            cube@.len() as int,
        ),
    ensures
        final(out)@ == pyramid_four_lanes(
            cube_lanes_16(cube@),
            cell_of(lut@, in_r as int, in_g as int, in_b as int),
            GRID_SIZE as int,
            16,
        ),
{
    let cell = load_bary_weights(lut, in_r, in_g, in_b);
    let plan = pyramid_face_plan(
        cell.r > cell.b,
        cell.g > cell.b,
        cell.b > cell.r,
        cell.g > cell.r,
    );
    let s2: V = interpolate_edges(token, &cell, plan.edges, GRID_SIZE, cube);
    let c4: V = load_twist(token, &cell, plan.base.face, GRID_SIZE, cube);
    let k: V = load_pair_weight(token, &cell, plan.base.axes);
    let sum = mla(token, s2, c4, k);
    *out = sum.to_array();
    assert(out@ =~= pyramid_four_lanes(cube_lanes_16(cube@), cell, GRID_SIZE as int, 16));
}

/// Prismatic interpolation of sixteen lanes, with five terms.
pub fn interpolate_prism_double<V: I16Lanes<16>, const GRID_SIZE: usize, const BINS: usize>(
    token: V::Token,
    in_r: usize,
    in_g: usize,
    in_b: usize,
    lut: &[BarycentricWeight<i16>; BINS],
    cube: &[Aligned16I16],
    out: &mut [i16; 16],
)
    requires
        in_r < BINS,
        in_g < BINS,
        in_b < BINS,
        cell_in_cube(
            cell_of(lut@, in_r as int, in_g as int, in_b as int),
            GRID_SIZE as int,
            cube@.len() as int,
        ),
        prism_five_fits(
            cell_of(lut@, in_r as int, in_g as int, in_b as int),
            GRID_SIZE as int,
            cube@.len() as int,
        ),
    ensures
        final(out)@ == prism_five_lanes(
            cube_lanes_16(cube@),
            cell_of(lut@, in_r as int, in_g as int, in_b as int),
            GRID_SIZE as int,
            16,
        ),
{
    let cell = load_bary_weights(lut, in_r, in_g, in_b);
    let plan = prism_face_plan(cell.b > cell.r);
    let s2: V = interpolate_edges(token, &cell, plan.edges, GRID_SIZE, cube);
    let c4: V = load_twist(token, &cell, plan.gb.face, GRID_SIZE, cube);
    let k_dgdb: V = load_pair_weight(token, &cell, plan.gb.axes);
    let c5: V = load_twist(token, &cell, plan.rg.face, GRID_SIZE, cube);
    let k_drdg: V = load_pair_weight(token, &cell, plan.rg.axes);
    let s3 = mla(token, s2, c4, k_dgdb);
    let sum = mla(token, s3, c5, k_drdg);
    *out = sum.to_array();
    assert(out@ =~= prism_five_lanes(cube_lanes_16(cube@), cell, GRID_SIZE as int, 16));
}

} // verus!
