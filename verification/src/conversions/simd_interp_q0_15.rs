//! Q0.15 fixed-point interpolators on eight 16-bit lanes.
//!
//! Only the low four lanes carry data: a cube entry is four values, and the high half of the
//! vector is filled with zeros.

use crate::conversions::cell::{
    cell_of, load_bary_weights, prism_plan, prism_plan_of, pyramid_plan, pyramid_plan_of,
    tetra_plan, tetra_plan_of, vx, BarycentricWeight, Cell, Edge, EdgePlan, Vertex,
};
use crate::conversions::lanes::{
    lanes_add, lanes_mulhrs, lanes_splat, lanes_sub, mulhrs, q15_mulhrs, scalar_token, summon_v3,
    wrap16, I16Lanes, ScalarI16x8, V3I16x8,
};
use vstd::prelude::*;

verus! {

/// A cube entry of four Q0.15 values.
#[derive(Clone, Copy, Debug)]
pub struct Aligned4I16(pub [i16; 4]);

/// The eight lanes of a cube entry: its four values, then four zeros.
pub open spec fn entry_lanes(e: Aligned4I16) -> Seq<i16> {
    e.0@ + lanes_splat(4, 0)
}

/// The lanes of every entry of a cube.
pub open spec fn cube_lanes(cube: Seq<Aligned4I16>) -> Seq<Seq<i16>> {
    Seq::new(cube.len(), |i: int| entry_lanes(cube[i]))
}

/// What one lane of the cube holds at each vertex of a cell.
pub open spec fn lane_at(
    cube: Seq<Seq<i16>>,
    cell: Cell<i16>,
    grid: int,
    lane: int,
) -> spec_fn(Vertex) -> i16 {
    |v: Vertex| cube[cell.offset_of(v, grid)][lane]
}

/// `acc + d * w` in Q0.15.
pub open spec fn q15_mla(acc: i16, d: i16, w: i16) -> i16 {
    wrap16(acc + mulhrs(d, w))
}

/// `a + (b - a) * w` in Q0.15.
pub open spec fn q15_lerp(a: i16, b: i16, w: i16) -> i16 {
    q15_mla(a, wrap16(b - a), w)
}

/// What a value gains along an edge.
pub open spec fn along(at: spec_fn(Vertex) -> i16, e: Edge) -> i16 {
    wrap16(at(e.to) - at(e.from))
}

/// The value at the near vertex plus what it gains along each edge of the plan, weighted
/// with the fraction that the edge belongs to.
pub open spec fn edge_sum(
    at: spec_fn(Vertex) -> i16,
    plan: EdgePlan,
    r: i16,
    g: i16,
    b: i16,
) -> i16 {
    let s0 = q15_mla(at(vx(false, false, false)), along(at, plan.r), r);
    let s1 = q15_mla(s0, along(at, plan.g), g);
    q15_mla(s1, along(at, plan.b), b)
}

/// Interpolation along the first axis on four edges, along the second on the two results,
/// and along the third.
pub open spec fn trilinear(at: spec_fn(Vertex) -> i16, r: i16, g: i16, b: i16) -> i16 {
    let c00 = q15_lerp(at(vx(false, false, false)), at(vx(true, false, false)), r);
    let c10 = q15_lerp(at(vx(false, true, false)), at(vx(true, true, false)), r);
    let c01 = q15_lerp(at(vx(false, false, true)), at(vx(true, false, true)), r);
    let c11 = q15_lerp(at(vx(false, true, true)), at(vx(true, true, true)), r);
    q15_lerp(q15_lerp(c00, c10, g), q15_lerp(c01, c11, g), b)
}

/// [`edge_sum`] in each of `n` lanes.
pub open spec fn edge_sum_lanes(
    cube: Seq<Seq<i16>>,
    cell: Cell<i16>,
    grid: int,
    plan: EdgePlan,
    n: nat,
) -> Seq<i16> {
    Seq::new(
        n,
        |i: int| edge_sum(lane_at(cube, cell, grid, i), plan, cell.r, cell.g, cell.b),
    )
}

/// The tetrahedral plan of a cell.
pub open spec fn tetra_edges(cell: Cell<i16>) -> EdgePlan {
    tetra_plan_of(cell.r >= cell.g, cell.g >= cell.b, cell.r >= cell.b)
}

/// The three-term pyramidal plan of a cell.
pub open spec fn pyramid_edges(cell: Cell<i16>) -> EdgePlan {
    pyramid_plan_of(cell.r > cell.b, cell.g > cell.b, cell.b > cell.r, cell.g > cell.r)
}

/// The three-term prismatic plan of a cell.
pub open spec fn prism_edges(cell: Cell<i16>) -> EdgePlan {
    prism_plan_of(cell.r > cell.g)
}

/// Every vertex that tetrahedral interpolation reads stands in a cube of `len` entries.
pub open spec fn tetra_fits(cell: Cell<i16>, grid: int, len: int) -> bool {
    cell.edges_fit(tetra_edges(cell), grid, len)
}

/// Every vertex that three-term pyramidal interpolation reads stands in a cube of `len`
/// entries.
pub open spec fn pyramid_fits(cell: Cell<i16>, grid: int, len: int) -> bool {
    cell.edges_fit(pyramid_edges(cell), grid, len)
}

/// Every vertex that three-term prismatic interpolation reads stands in a cube of `len`
/// entries.
pub open spec fn prism_fits(cell: Cell<i16>, grid: int, len: int) -> bool {
    cell.edges_fit(prism_edges(cell), grid, len)
}

/// Tetrahedral interpolation in each of `n` lanes.
pub open spec fn tetra_lanes(cube: Seq<Seq<i16>>, cell: Cell<i16>, grid: int, n: nat) -> Seq<i16> {
    edge_sum_lanes(cube, cell, grid, tetra_edges(cell), n)
}

/// Trilinear interpolation in each of `n` lanes.
pub open spec fn trilinear_lanes(
    cube: Seq<Seq<i16>>,
    cell: Cell<i16>,
    grid: int,
    n: nat,
) -> Seq<i16> {
    Seq::new(n, |i: int| trilinear(lane_at(cube, cell, grid, i), cell.r, cell.g, cell.b))
}

/// Three-term pyramidal interpolation in each of `n` lanes.
pub open spec fn pyramid_lanes(
    cube: Seq<Seq<i16>>,
    cell: Cell<i16>,
    grid: int,
    n: nat,
) -> Seq<i16> {
    edge_sum_lanes(cube, cell, grid, pyramid_edges(cell), n)
}

/// Three-term prismatic interpolation in each of `n` lanes.
pub open spec fn prism_lanes(cube: Seq<Seq<i16>>, cell: Cell<i16>, grid: int, n: nat) -> Seq<i16> {
    edge_sum_lanes(cube, cell, grid, prism_edges(cell), n)
}

/// `acc + d * w` in each lane, with the same weight for all of them.
pub open spec fn lanes_mla(acc: Seq<i16>, d: Seq<i16>, n: nat, w: i16) -> Seq<i16> {
    lanes_add(acc, lanes_mulhrs(d, lanes_splat(n, w)))
}

/// `acc + d * w` in each lane.
pub(crate) fn mla<const N: usize, V: I16Lanes<N>>(token: V::Token, acc: V, d: V, w: V) -> (r: V)
    ensures
        r.lanes() == lanes_add(acc.lanes(), lanes_mulhrs(d.lanes(), w.lanes())),
{
    acc.plus(&q15_mulhrs(token, d, w))
}

/// Loads a cube entry into the low half of a vector.
fn load_q15<V: I16Lanes<8>>(token: V::Token, x4: &Aligned4I16) -> (r: V)
    ensures
        r.lanes() == entry_lanes(*x4),
{
    let eight: [i16; 8] = [x4.0[0], x4.0[1], x4.0[2], x4.0[3], 0, 0, 0, 0];
    assert(eight@ =~= entry_lanes(*x4));
    V::from_array(token, eight)
}

/// Loads the cube entry at a vertex.
fn fetch<V: I16Lanes<8>>(
    token: V::Token,
    cube: &[Aligned4I16],
    cell: &Cell<i16>,
    v: Vertex,
    grid: usize,
) -> (r: V)
    requires
        cell.stands(v, grid as int, cube@.len() as int),
    ensures
        r.lanes() == cube_lanes(cube@)[cell.offset_of(v, grid as int)],
        r.lanes().len() == 8,
{
    let offset: usize = cell.offset(v, grid);
    load_q15(token, &cube[offset])
}

/// The base value plus three weighted differences, in each lane.
pub(crate) fn sum_edges<const N: usize, V: I16Lanes<N>>(
    token: V::Token,
    base: V,
    r: (V, V),
    g: (V, V),
    b: (V, V),
    weights: (i16, i16, i16),
) -> (out: V)
    ensures
        out.lanes() == lanes_mla(
            lanes_mla(
                lanes_mla(base.lanes(), lanes_sub(r.1.lanes(), r.0.lanes()), N as nat, weights.0),
                lanes_sub(g.1.lanes(), g.0.lanes()),
                N as nat,
                weights.1,
            ),
            lanes_sub(b.1.lanes(), b.0.lanes()),
            N as nat,
            weights.2,
        ),
{
    let c1 = r.1.minus(&r.0);
    let c2 = g.1.minus(&g.0);
    let c3 = b.1.minus(&b.0);
    let s0 = mla(token, base, c1, V::splat(token, weights.0));
    let s1 = mla(token, s0, c2, V::splat(token, weights.1));
    mla(token, s1, c3, V::splat(token, weights.2))
}

/// Interpolates along the edges of a plan.
fn interpolate_edges<V: I16Lanes<8>>(
    token: V::Token,
    cell: &Cell<i16>,
    plan: EdgePlan,
    grid: usize,
    cube: &[Aligned4I16],
) -> (out: [i16; 8])
    requires
        cell.edges_fit(plan, grid as int, cube@.len() as int),
    ensures
        out@ == edge_sum_lanes(cube_lanes(cube@), *cell, grid as int, plan, 8),
{
    let base: V = fetch(token, cube, cell, Vertex { x: false, y: false, z: false }, grid);
    let r: (V, V) = (
        fetch(token, cube, cell, plan.r.from, grid),
        fetch(token, cube, cell, plan.r.to, grid),
    );
    let g: (V, V) = (
        fetch(token, cube, cell, plan.g.from, grid),
        fetch(token, cube, cell, plan.g.to, grid),
    );
    let b: (V, V) = (
        fetch(token, cube, cell, plan.b.from, grid),
        fetch(token, cube, cell, plan.b.to, grid),
    );
    let sum = sum_edges(token, base, r, g, b, (cell.r, cell.g, cell.b));
    let out = sum.to_array();
    assert(out@ =~= edge_sum_lanes(cube_lanes(cube@), *cell, grid as int, plan, 8));
    out
}

/// Tetrahedral interpolation: the cell is cut into six tetrahedra by the order of the three
/// fractions, and the value follows three edges of the one that holds the input.
pub fn interpolate_tetra<V: I16Lanes<8>, const GRID_SIZE: usize, const BINS: usize>(
    token: V::Token,
    in_r: usize,
    in_g: usize,
    in_b: usize,
    lut: &[BarycentricWeight<i16>; BINS],
    cube: &[Aligned4I16],
    out: &mut [i16; 8],
)
    requires
        in_r < BINS,
        in_g < BINS,
        in_b < BINS,
        tetra_fits(
            cell_of(lut@, in_r as int, in_g as int, in_b as int),
            GRID_SIZE as int,
            cube@.len() as int,
        ),
    ensures
        final(out)@ == tetra_lanes(
            cube_lanes(cube@),
            cell_of(lut@, in_r as int, in_g as int, in_b as int),
            GRID_SIZE as int,
            8,
        ),
{
    let cell = load_bary_weights(lut, in_r, in_g, in_b);
    let plan = tetra_plan(cell.r >= cell.g, cell.g >= cell.b, cell.r >= cell.b);
    *out = interpolate_edges::<V>(token, &cell, plan, GRID_SIZE, cube);
}

/// Interpolation between two vectors.
pub(crate) fn lerp<const N: usize, V: I16Lanes<N>>(token: V::Token, a: V, b: V, w: V) -> (r: V)
    requires
        a.lanes().len() == N,
        b.lanes().len() == N,
        w.lanes().len() == N,
    ensures
        r.lanes().len() == N,
        forall|i: int|
            0 <= i < N ==> #[trigger] r.lanes()[i] == q15_lerp(
                a.lanes()[i],
                b.lanes()[i],
                w.lanes()[i],
            ),
{
    mla(token, a, b.minus(&a), w)
}

/// Trilinear interpolation over all eight vertices of the cell.
pub fn interpolate_trilinear<V: I16Lanes<8>, const GRID_SIZE: usize, const BINS: usize>(
    token: V::Token,
    in_r: usize,
    in_g: usize,
    in_b: usize,
    lut: &[BarycentricWeight<i16>; BINS],
    cube: &[Aligned4I16],
    out: &mut [i16; 8],
)
    requires
        in_r < BINS,
        in_g < BINS,
        in_b < BINS,
        cell_of(lut@, in_r as int, in_g as int, in_b as int).fits(
            GRID_SIZE as int,
            cube@.len() as int,
        ),
    ensures
        final(out)@ == trilinear_lanes(
            cube_lanes(cube@),
            cell_of(lut@, in_r as int, in_g as int, in_b as int),
            GRID_SIZE as int,
            8,
        ),
{
    let cell = load_bary_weights(lut, in_r, in_g, in_b);
    let c000: V = fetch(token, cube, &cell, Vertex { x: false, y: false, z: false }, GRID_SIZE);
    let c100: V = fetch(token, cube, &cell, Vertex { x: true, y: false, z: false }, GRID_SIZE);
    let c010: V = fetch(token, cube, &cell, Vertex { x: false, y: true, z: false }, GRID_SIZE);
    let c110: V = fetch(token, cube, &cell, Vertex { x: true, y: true, z: false }, GRID_SIZE);
    let c001: V = fetch(token, cube, &cell, Vertex { x: false, y: false, z: true }, GRID_SIZE);
    let c101: V = fetch(token, cube, &cell, Vertex { x: true, y: false, z: true }, GRID_SIZE);
    let c011: V = fetch(token, cube, &cell, Vertex { x: false, y: true, z: true }, GRID_SIZE);
    let c111: V = fetch(token, cube, &cell, Vertex { x: true, y: true, z: true }, GRID_SIZE);

    let dr: V = V::splat(token, cell.r);
    let dg: V = V::splat(token, cell.g);
    let db: V = V::splat(token, cell.b);

    let c00 = lerp(token, c000, c100, dr);
    let c10 = lerp(token, c010, c110, dr);
    let c01 = lerp(token, c001, c101, dr);
    let c11 = lerp(token, c011, c111, dr);
    let c0 = lerp(token, c00, c10, dg);
    let c1 = lerp(token, c01, c11, dg);
    let res = lerp(token, c0, c1, db);
    *out = res.to_array();
    assert(out@ =~= trilinear_lanes(cube_lanes(cube@), cell, GRID_SIZE as int, 8));
}

/// Pyramidal interpolation with three terms.
pub fn interpolate_pyramid<V: I16Lanes<8>, const GRID_SIZE: usize, const BINS: usize>(
    token: V::Token,
    in_r: usize,
    in_g: usize,
    in_b: usize,
    lut: &[BarycentricWeight<i16>; BINS],
    cube: &[Aligned4I16],
    out: &mut [i16; 8],
)
    requires
        in_r < BINS,
        in_g < BINS,
        in_b < BINS,
        pyramid_fits(
            cell_of(lut@, in_r as int, in_g as int, in_b as int),
            GRID_SIZE as int,
            cube@.len() as int,
        ),
    ensures
        final(out)@ == pyramid_lanes(
            cube_lanes(cube@),
            cell_of(lut@, in_r as int, in_g as int, in_b as int),
            GRID_SIZE as int,
            8,
        ),
{
    let cell = load_bary_weights(lut, in_r, in_g, in_b);
    let plan = pyramid_plan(
        cell.r > cell.b,
        cell.g > cell.b,
        cell.b > cell.r,
        cell.g > cell.r,
    );
    *out = interpolate_edges::<V>(token, &cell, plan, GRID_SIZE, cube);
}

/// Prismatic interpolation with three terms.
pub fn interpolate_prism<V: I16Lanes<8>, const GRID_SIZE: usize, const BINS: usize>(
    token: V::Token,
    in_r: usize,
    in_g: usize,
    in_b: usize,
    lut: &[BarycentricWeight<i16>; BINS],
    cube: &[Aligned4I16],
    out: &mut [i16; 8],
)
    requires
        in_r < BINS,
        in_g < BINS,
        in_b < BINS,
        prism_fits(
            cell_of(lut@, in_r as int, in_g as int, in_b as int),
            GRID_SIZE as int,
            cube@.len() as int,
        ),
    ensures
        final(out)@ == prism_lanes(
            cube_lanes(cube@),
            cell_of(lut@, in_r as int, in_g as int, in_b as int),
            GRID_SIZE as int,
            8,
        ),
{
    let cell = load_bary_weights(lut, in_r, in_g, in_b);
    let plan = prism_plan(cell.r > cell.g);
    *out = interpolate_edges::<V>(token, &cell, plan, GRID_SIZE, cube);
}

/// Tetrahedral interpolation of 8-bit inputs in a cube of 33 points a side, on the best
/// tier that the processor has.
pub fn tetra_u8_g33_b256(
    in_r: u8,
    in_g: u8,
    in_b: u8,
    lut: &[BarycentricWeight<i16>; 256],
    cube: &[Aligned4I16],
    out: &mut [i16; 8],
)
    requires
        tetra_fits(
            cell_of(lut@, in_r as int, in_g as int, in_b as int),
            33,
            cube@.len() as int,
        ),
    ensures
        final(out)@ == tetra_lanes(
            cube_lanes(cube@),
            cell_of(lut@, in_r as int, in_g as int, in_b as int),
            33,
            8,
        ),
{
    match summon_v3() {
        Some(token) => interpolate_tetra::<V3I16x8, 33, 256>(
            token,
            in_r as usize,
            in_g as usize,
            in_b as usize,
            lut,
            cube,
            out,
        ),
        None => interpolate_tetra::<ScalarI16x8, 33, 256>(
            scalar_token(),
            in_r as usize,
            in_g as usize,
            in_b as usize,
            lut,
            cube,
            out,
        ),
    }
}

/// Trilinear interpolation of 8-bit inputs in a cube of 33 points a side, on the best tier
/// that the processor has.
pub fn trilinear_u8_g33_b256(
    in_r: u8,
    in_g: u8,
    in_b: u8,
    lut: &[BarycentricWeight<i16>; 256],
    cube: &[Aligned4I16],
    out: &mut [i16; 8],
)
    requires
        cell_of(lut@, in_r as int, in_g as int, in_b as int).fits(33, cube@.len() as int),
    ensures
        final(out)@ == trilinear_lanes(
            cube_lanes(cube@),
            cell_of(lut@, in_r as int, in_g as int, in_b as int),
            33,
            8,
        ),
{
    match summon_v3() {
        Some(token) => interpolate_trilinear::<V3I16x8, 33, 256>(
            token,
            in_r as usize,
            in_g as usize,
            in_b as usize,
            lut,
            cube,
            out,
        ),
        None => interpolate_trilinear::<ScalarI16x8, 33, 256>(
            scalar_token(),
            in_r as usize,
            in_g as usize,
            in_b as usize,
            lut,
            cube,
            out,
        ),
    }
}

/// Pyramidal interpolation of 8-bit inputs in a cube of 33 points a side, on the best tier
/// that the processor has.
pub fn pyramid_u8_g33_b256(
    in_r: u8,
    in_g: u8,
    in_b: u8,
    lut: &[BarycentricWeight<i16>; 256],
    cube: &[Aligned4I16],
    out: &mut [i16; 8],
)
    requires
        pyramid_fits(
            cell_of(lut@, in_r as int, in_g as int, in_b as int),
            33,
            cube@.len() as int,
        ),
    ensures
        final(out)@ == pyramid_lanes(
            cube_lanes(cube@),
            cell_of(lut@, in_r as int, in_g as int, in_b as int),
            33,
            8,
        ),
{
    match summon_v3() {
        Some(token) => interpolate_pyramid::<V3I16x8, 33, 256>(
            token,
            in_r as usize,
            in_g as usize,
            in_b as usize,
            lut,
            cube,
            out,
        ),
        None => interpolate_pyramid::<ScalarI16x8, 33, 256>(
            scalar_token(),
            in_r as usize,
            in_g as usize,
            in_b as usize,
            lut,
            cube,
            out,
        ),
    }
}

/// Prismatic interpolation of 8-bit inputs in a cube of 33 points a side, on the best tier
/// that the processor has.
pub fn prism_u8_g33_b256(
    in_r: u8,
    in_g: u8,
    in_b: u8,
    lut: &[BarycentricWeight<i16>; 256],
    cube: &[Aligned4I16],
    out: &mut [i16; 8],
)
    requires
        prism_fits(
            cell_of(lut@, in_r as int, in_g as int, in_b as int),
            33,
            cube@.len() as int,
        ),
    ensures
        final(out)@ == prism_lanes(
            cube_lanes(cube@),
            cell_of(lut@, in_r as int, in_g as int, in_b as int),
            33,
            8,
        ),
{
    match summon_v3() {
        Some(token) => interpolate_prism::<V3I16x8, 33, 256>(
            token,
            in_r as usize,
            in_g as usize,
            in_b as usize,
            lut,
            cube,
            out,
        ),
        None => interpolate_prism::<ScalarI16x8, 33, 256>(
            scalar_token(),
            in_r as usize,
            in_g as usize,
            in_b as usize,
            lut,
            cube,
            out,
        ),
    }
}

} // verus!
