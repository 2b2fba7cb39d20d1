//! What holds of the interpolators as a whole.

use crate::conversions::cell::{
    edge, lemma_offset_not_negative, prism_face_plan_of, prism_plan_of, pyramid_face_plan_of,
    pyramid_plan_of, tetra_plan_of, vx, AxisPair, Cell, Edge, EdgePlan, Face, FaceTerm, Vertex,
};
use crate::conversions::lanes::{
    lanes_add, lanes_mulhrs, lanes_splat, lanes_sub, mulhrs, wrap16,
};
use crate::conversions::simd_interp_q0_15::{
    along, cube_lanes, edge_sum, entry_lanes, lane_at, prism_edges, prism_fits, prism_lanes,
    pyramid_edges, pyramid_fits, pyramid_lanes, q15_lerp, q15_mla, tetra_edges, tetra_fits,
    tetra_lanes, trilinear, trilinear_lanes, Aligned4I16,
};
use crate::conversions::simd_interp_q0_15_double::{
    pair_weight, plus_face, prism_faces, prism_five, prism_five_fits, prism_five_lanes,
    pyramid_faces, pyramid_four, pyramid_four_fits, pyramid_four_lanes, twist,
};
use vstd::prelude::*;

verus! {

/// The Q0.15 product is the rounded quotient, except that of -1 with itself, which alone does
/// not fit and wraps around to -1.
pub proof fn lemma_mulhrs_fits(a: i16, b: i16)
    ensures
        a != i16::MIN || b != i16::MIN ==> mulhrs(a, b) == (a * b + 0x4000) / 0x8000,
        a == i16::MIN && b == i16::MIN ==> mulhrs(a, b) == i16::MIN,
{
    if a != i16::MIN || b != i16::MIN {
        assert(-0x4000_0000 < a * b < 0x4000_0000 - 0x4000) by (nonlinear_arith)
            requires
                -0x8000 <= a <= 0x7fff,
                -0x8000 <= b <= 0x7fff,
                a != -0x8000 || b != -0x8000,
        ;
    } else {
        assert(a * b == 0x4000_0000) by (nonlinear_arith)
            requires
                a == -0x8000,
                b == -0x8000,
        ;
    }
}

/// Nothing comes of a difference of zero, nor of a weight of zero.
proof fn lemma_mla_of_zero(acc: i16, d: i16, w: i16)
    requires
        d == 0 || w == 0,
    ensures
        q15_mla(acc, d, w) == acc,
{
    assert(d * w == 0) by (nonlinear_arith)
        requires
            d == 0 || w == 0,
    ;
}

/// Without a fraction on any axis, every edge sum is the value at the near vertex.
proof fn lemma_edges_at_near(at: spec_fn(Vertex) -> i16, plan: EdgePlan)
    ensures
        edge_sum(at, plan, 0, 0, 0) == at(vx(false, false, false)),
{
    let base = at(vx(false, false, false));
    lemma_mla_of_zero(base, along(at, plan.r), 0);
    lemma_mla_of_zero(base, along(at, plan.g), 0);
    lemma_mla_of_zero(base, along(at, plan.b), 0);
}

/// Without a fraction on any axis, a face adds nothing.
proof fn lemma_face_at_near(acc: i16, at: spec_fn(Vertex) -> i16, t: FaceTerm)
    ensures
        plus_face(acc, at, t, 0, 0, 0) == acc,
{
    assert(pair_weight(t.axes, 0, 0, 0) == 0);
    lemma_mla_of_zero(acc, twist(at, t.face), 0);
}

/// An input on grid lines in all three axes gives the cube entry that stands there, in every
/// lane and with every method.
pub proof fn lemma_grid_point_is_kept(
    cube: Seq<Seq<i16>>,
    cell: Cell<i16>,
    grid: int,
    n: nat,
    i: int,
)
    requires
        cell.r == 0,
        cell.g == 0,
        cell.b == 0,
        0 <= i < n,
    ensures
        ({
            let entry = cube[cell.offset_of(vx(false, false, false), grid)][i];
            &&& tetra_lanes(cube, cell, grid, n)[i] == entry
            &&& trilinear_lanes(cube, cell, grid, n)[i] == entry
            &&& pyramid_lanes(cube, cell, grid, n)[i] == entry
            &&& prism_lanes(cube, cell, grid, n)[i] == entry
            &&& pyramid_four_lanes(cube, cell, grid, n)[i] == entry
            &&& prism_five_lanes(cube, cell, grid, n)[i] == entry
        }),
{
    let at = lane_at(cube, cell, grid, i);
    lemma_edges_at_near(at, tetra_edges(cell));
    lemma_edges_at_near(at, pyramid_edges(cell));
    lemma_edges_at_near(at, prism_edges(cell));
    lemma_point_methods(at);
}

/// What the methods beyond edge sums make of one lane at the near vertex.
proof fn lemma_point_methods(at: spec_fn(Vertex) -> i16)
    ensures
        trilinear(at, 0, 0, 0) == at(vx(false, false, false)),
        pyramid_four(at, 0, 0, 0) == at(vx(false, false, false)),
        prism_five(at, 0, 0, 0) == at(vx(false, false, false)),
{
    let base = at(vx(false, false, false));
    assert forall|a: i16, b: i16| #[trigger] q15_lerp(a, b, 0) == a by {
        lemma_mla_of_zero(a, wrap16(b - a), 0);
    }
    let pyramid = pyramid_face_plan_of(false, false, false, false);
    lemma_edges_at_near(at, pyramid.edges);
    lemma_face_at_near(base, at, pyramid.base);
    let prism = prism_face_plan_of(false);
    lemma_edges_at_near(at, prism.edges);
    lemma_face_at_near(base, at, prism.gb);
    lemma_face_at_near(base, at, prism.rg);
}

/// Where all eight vertices hold the same value, every method gives that value.
proof fn lemma_flat_methods(at: spec_fn(Vertex) -> i16, c: i16, r: i16, g: i16, b: i16)
    requires
        forall|v: Vertex| #[trigger] at(v) == c,
    ensures
        forall|plan: EdgePlan| #[trigger] edge_sum(at, plan, r, g, b) == c,
        trilinear(at, r, g, b) == c,
        pyramid_four(at, r, g, b) == c,
        prism_five(at, r, g, b) == c,
{
    assert forall|e: Edge| #[trigger] along(at, e) == 0 by {
        assert(at(e.to) == c && at(e.from) == c);
    }
    assert forall|f: Face| #[trigger] twist(at, f) == 0 by {
        assert(at(f.from) == c && at(f.u) == c && at(f.v) == c && at(f.across) == c);
    }
    assert forall|w: i16| #[trigger] q15_mla(c, 0, w) == c by {
        lemma_mla_of_zero(c, 0, w);
    }
    assert forall|w: i16| #[trigger] q15_lerp(c, c, w) == c by {
        assert(q15_mla(c, 0, w) == c);
    }
    assert(at(vx(false, false, false)) == c);
    assert forall|plan: EdgePlan| #[trigger] edge_sum(at, plan, r, g, b) == c by {
        assert(along(at, plan.r) == 0 && along(at, plan.g) == 0 && along(at, plan.b) == 0);
    }
    assert forall|t: FaceTerm| #[trigger] plus_face(c, at, t, r, g, b) == c by {
        assert(twist(at, t.face) == 0);
    }
}

/// An edge sum depends on the vertices of its plan alone.
proof fn lemma_same_edges(
    p: spec_fn(Vertex) -> i16,
    q: spec_fn(Vertex) -> i16,
    plan: EdgePlan,
    r: i16,
    g: i16,
    b: i16,
)
    requires
        p(vx(false, false, false)) == q(vx(false, false, false)),
        p(plan.r.from) == q(plan.r.from),
        p(plan.r.to) == q(plan.r.to),
        p(plan.g.from) == q(plan.g.from),
        p(plan.g.to) == q(plan.g.to),
        p(plan.b.from) == q(plan.b.from),
        p(plan.b.to) == q(plan.b.to),
    ensures
        edge_sum(p, plan, r, g, b) == edge_sum(q, plan, r, g, b),
{
}

/// What a face adds depends on its own vertices alone.
proof fn lemma_same_face(p: spec_fn(Vertex) -> i16, q: spec_fn(Vertex) -> i16, f: Face)
    requires
        p(f.from) == q(f.from),
        p(f.u) == q(f.u),
        p(f.v) == q(f.v),
        p(f.across) == q(f.across),
    ensures
        twist(p, f) == twist(q, f),
{
}

/// The edge sum of a plan whose vertices stand in the cube depends on those alone.
proof fn lemma_same_planned_edges(
    p: spec_fn(Vertex) -> i16,
    q: spec_fn(Vertex) -> i16,
    cell: Cell<i16>,
    plan: EdgePlan,
    grid: int,
    len: int,
)
    requires
        forall|v: Vertex| #[trigger] cell.stands(v, grid, len) ==> p(v) == q(v),
        cell.edges_fit(plan, grid, len),
    ensures
        edge_sum(p, plan, cell.r, cell.g, cell.b) == edge_sum(q, plan, cell.r, cell.g, cell.b),
{
    lemma_same_edges(p, q, plan, cell.r, cell.g, cell.b);
}

/// The four-term pyramid depends on the vertices alone that it reads.
proof fn lemma_same_pyramid(
    p: spec_fn(Vertex) -> i16,
    q: spec_fn(Vertex) -> i16,
    cell: Cell<i16>,
    grid: int,
    len: int,
)
    requires
        forall|v: Vertex| #[trigger] cell.stands(v, grid, len) ==> p(v) == q(v),
        pyramid_four_fits(cell, grid, len),
    ensures
        pyramid_four(p, cell.r, cell.g, cell.b) == pyramid_four(q, cell.r, cell.g, cell.b),
{
    let plan = pyramid_faces(cell);
    lemma_same_planned_edges(p, q, cell, plan.edges, grid, len);
    lemma_same_face(p, q, plan.base.face);
}

/// The five-term prism depends on the vertices alone that it reads.
proof fn lemma_same_prism(
    p: spec_fn(Vertex) -> i16,
    q: spec_fn(Vertex) -> i16,
    cell: Cell<i16>,
    grid: int,
    len: int,
)
    requires
        forall|v: Vertex| #[trigger] cell.stands(v, grid, len) ==> p(v) == q(v),
        prism_five_fits(cell, grid, len),
    ensures
        prism_five(p, cell.r, cell.g, cell.b) == prism_five(q, cell.r, cell.g, cell.b),
{
    let plan = prism_faces(cell);
    lemma_same_planned_edges(p, q, cell, plan.edges, grid, len);
    lemma_same_face(p, q, plan.gb.face);
    lemma_same_face(p, q, plan.rg.face);
}

/// Every method depends on the vertices alone that stand in the cube, where it is one that
/// reads no others.
proof fn lemma_same_methods(
    p: spec_fn(Vertex) -> i16,
    q: spec_fn(Vertex) -> i16,
    cell: Cell<i16>,
    grid: int,
    len: int,
)
    requires
        forall|v: Vertex| #[trigger] cell.stands(v, grid, len) ==> p(v) == q(v),
    ensures
        tetra_fits(cell, grid, len) ==> edge_sum(p, tetra_edges(cell), cell.r, cell.g, cell.b)
            == edge_sum(q, tetra_edges(cell), cell.r, cell.g, cell.b),
        pyramid_fits(cell, grid, len) ==> edge_sum(p, pyramid_edges(cell), cell.r, cell.g, cell.b)
            == edge_sum(q, pyramid_edges(cell), cell.r, cell.g, cell.b),
        prism_fits(cell, grid, len) ==> edge_sum(p, prism_edges(cell), cell.r, cell.g, cell.b)
            == edge_sum(q, prism_edges(cell), cell.r, cell.g, cell.b),
        cell.fits(grid, len) ==> trilinear(p, cell.r, cell.g, cell.b) == trilinear(
            q,
            cell.r,
            cell.g,
            cell.b,
        ),
        pyramid_four_fits(cell, grid, len) ==> pyramid_four(p, cell.r, cell.g, cell.b)
            == pyramid_four(q, cell.r, cell.g, cell.b),
        prism_five_fits(cell, grid, len) ==> prism_five(p, cell.r, cell.g, cell.b) == prism_five(
            q,
            cell.r,
            cell.g,
            cell.b,
        ),
{
    if tetra_fits(cell, grid, len) {
        lemma_same_planned_edges(p, q, cell, tetra_edges(cell), grid, len);
    }
    if pyramid_fits(cell, grid, len) {
        lemma_same_planned_edges(p, q, cell, pyramid_edges(cell), grid, len);
    }
    if prism_fits(cell, grid, len) {
        lemma_same_planned_edges(p, q, cell, prism_edges(cell), grid, len);
    }
    if cell.fits(grid, len) {
        assert forall|v: Vertex| #[trigger] p(v) == q(v) by {
            assert(cell.stands(v, grid, len));
        }
        assert(p =~= q);
    }
    if pyramid_four_fits(cell, grid, len) {
        lemma_same_pyramid(p, q, cell, grid, len);
    }
    if prism_five_fits(cell, grid, len) {
        lemma_same_prism(p, q, cell, grid, len);
    }
}

/// A lane that holds the same value in every cube entry gives that value, with every method that
/// finds its vertices in the cube.
pub proof fn lemma_flat_lane_is_kept(
    cube: Seq<Seq<i16>>,
    c: i16,
    i: int,
    cell: Cell<i16>,
    grid: int,
    n: nat,
)
    requires
        0 <= i < n,
        grid >= 0,
        forall|k: int| 0 <= k < cube.len() ==> (#[trigger] cube[k])[i] == c,
    ensures
        ({
            let len = cube.len() as int;
            &&& tetra_fits(cell, grid, len) ==> tetra_lanes(cube, cell, grid, n)[i] == c
            &&& cell.fits(grid, len) ==> trilinear_lanes(cube, cell, grid, n)[i] == c
            &&& pyramid_fits(cell, grid, len) ==> pyramid_lanes(cube, cell, grid, n)[i] == c
            &&& prism_fits(cell, grid, len) ==> prism_lanes(cube, cell, grid, n)[i] == c
            &&& pyramid_four_fits(cell, grid, len) ==> pyramid_four_lanes(cube, cell, grid, n)[i]
                == c
            &&& prism_five_fits(cell, grid, len) ==> prism_five_lanes(cube, cell, grid, n)[i] == c
        }),
{
    let len = cube.len() as int;
    let at = lane_at(cube, cell, grid, i);
    let flat = |v: Vertex| c;
    assert forall|v: Vertex| #[trigger] cell.stands(v, grid, len) implies at(v) == flat(v) by {
        lemma_offset_not_negative(cell, v, grid);
        assert(cube[cell.offset_of(v, grid)][i] == c);
    }
    lemma_same_methods(at, flat, cell, grid, len);
    lemma_flat_methods(flat, c, cell.r, cell.g, cell.b);
}

/// The high half of eight lanes stays zero.
pub proof fn lemma_high_lanes_are_zero(cube: Seq<Aligned4I16>, cell: Cell<i16>, grid: int, i: int)
    requires
        4 <= i < 8,
        grid >= 0,
    ensures
        ({
            let lanes = cube_lanes(cube);
            let len = cube.len() as int;
            &&& tetra_fits(cell, grid, len) ==> tetra_lanes(lanes, cell, grid, 8)[i] == 0
            &&& cell.fits(grid, len) ==> trilinear_lanes(lanes, cell, grid, 8)[i] == 0
            &&& pyramid_fits(cell, grid, len) ==> pyramid_lanes(lanes, cell, grid, 8)[i] == 0
            &&& prism_fits(cell, grid, len) ==> prism_lanes(lanes, cell, grid, 8)[i] == 0
        }),
{
    assert forall|k: int| 0 <= k < cube.len() implies (#[trigger] cube_lanes(cube)[k])[i] == 0 by {
        assert(cube_lanes(cube)[k] == entry_lanes(cube[k]));
    }
    lemma_flat_lane_is_kept(cube_lanes(cube), 0, i, cell, grid, 8);
}

/// A lane depends on nothing but that lane of the cube: two pixels packed into one cube come
/// out as they do on their own, whatever the width of the vector.
pub proof fn lemma_lanes_are_independent(
    a: Seq<Seq<i16>>,
    n: nat,
    i: int,
    b: Seq<Seq<i16>>,
    m: nat,
    j: int,
    cell: Cell<i16>,
    grid: int,
)
    requires
        0 <= i < n,
        0 <= j < m,
        grid >= 0,
        a.len() == b.len(),
        forall|k: int| 0 <= k < a.len() ==> (#[trigger] a[k])[i] == b[k][j],
    ensures
        ({
            let len = a.len() as int;
            &&& tetra_fits(cell, grid, len) ==> tetra_lanes(a, cell, grid, n)[i] == tetra_lanes(
                b,
                cell,
                grid,
                m,
            )[j]
            &&& cell.fits(grid, len) ==> trilinear_lanes(a, cell, grid, n)[i] == trilinear_lanes(
                b,
                cell,
                grid,
                m,
            )[j]
            &&& pyramid_fits(cell, grid, len) ==> pyramid_lanes(a, cell, grid, n)[i]
                == pyramid_lanes(b, cell, grid, m)[j]
            &&& prism_fits(cell, grid, len) ==> prism_lanes(a, cell, grid, n)[i] == prism_lanes(
                b,
                cell,
                grid,
                m,
            )[j]
            &&& pyramid_four_fits(cell, grid, len) ==> pyramid_four_lanes(a, cell, grid, n)[i]
                == pyramid_four_lanes(b, cell, grid, m)[j]
            &&& prism_five_fits(cell, grid, len) ==> prism_five_lanes(a, cell, grid, n)[i]
                == prism_five_lanes(b, cell, grid, m)[j]
        }),
{
    let len = a.len() as int;
    let p = lane_at(a, cell, grid, i);
    let q = lane_at(b, cell, grid, j);
    assert forall|v: Vertex| #[trigger] cell.stands(v, grid, len) implies p(v) == q(v) by {
        lemma_offset_not_negative(cell, v, grid);
        assert(a[cell.offset_of(v, grid)][i] == b[cell.offset_of(v, grid)][j]);
    }
    lemma_same_methods(p, q, cell, grid, len);
}

/// The edge crosses the first axis, and no other.
pub open spec fn crosses_x(e: Edge) -> bool {
    !e.from.x && e.to.x && e.from.y == e.to.y && e.from.z == e.to.z
}

/// The edge crosses the second axis, and no other.
pub open spec fn crosses_y(e: Edge) -> bool {
    !e.from.y && e.to.y && e.from.x == e.to.x && e.from.z == e.to.z
}

/// The edge crosses the third axis, and no other.
pub open spec fn crosses_z(e: Edge) -> bool {
    !e.from.z && e.to.z && e.from.x == e.to.x && e.from.y == e.to.y
}

/// The three edges form a path from the near vertex to the far one.
pub open spec fn is_path(first: Edge, second: Edge, third: Edge) -> bool {
    &&& first.from == vx(false, false, false)
    &&& second.from == first.to
    &&& third.from == second.to
    &&& third.to == vx(true, true, true)
}

/// The tetrahedral plan weights with each fraction an edge along its own axis, and the three
/// edges form a path from the near vertex to the far one that takes a larger fraction before a
/// smaller one.
pub proof fn lemma_tetra_plan_is_a_falling_path(r: i16, g: i16, b: i16)
    ensures
        ({
            let p = tetra_plan_of(r >= g, g >= b, r >= b);
            &&& crosses_x(p.r) && crosses_y(p.g) && crosses_z(p.b)
            &&& {
                ||| r >= g >= b && is_path(p.r, p.g, p.b)
                ||| r >= b >= g && is_path(p.r, p.b, p.g)
                ||| b >= r >= g && is_path(p.b, p.r, p.g)
                ||| g >= r >= b && is_path(p.g, p.r, p.b)
                ||| g >= b >= r && is_path(p.g, p.b, p.r)
                ||| b >= g >= r && is_path(p.b, p.g, p.r)
            }
        }),
{
}

/// Sums, differences and products of vectors are those of their lanes, one by one: sums and
/// differences modulo 2^16, products in Q0.15 and rounded.
pub proof fn lemma_vectors_work_lane_by_lane(a: Seq<i16>, b: Seq<i16>, v: i16, n: nat, i: int)
    requires
        0 <= i < a.len(),
        a.len() == b.len() == n,
    ensures
        lanes_add(a, b).len() == n,
        (lanes_add(a, b)[i] - (a[i] + b[i])) % 0x1_0000 == 0,
        lanes_sub(a, b).len() == n,
        (lanes_sub(a, b)[i] - (a[i] - b[i])) % 0x1_0000 == 0,
        lanes_mulhrs(a, b).len() == n,
        a[i] != i16::MIN || b[i] != i16::MIN ==> lanes_mulhrs(a, b)[i] == (a[i] * b[i] + 0x4000)
            / 0x8000,
        a[i] == i16::MIN && b[i] == i16::MIN ==> lanes_mulhrs(a, b)[i] == i16::MIN,
        lanes_splat(n, v).len() == n,
        lanes_splat(n, v)[i] == v,
{
    lemma_mulhrs_fits(a[i], b[i]);
}

/// The tetrahedral plan is a path along all three axes whatever the comparisons are, and goes along
/// one axis before another where they say so.
pub proof fn lemma_tetra_plan_follows_the_comparisons(r_ge_g: bool, g_ge_b: bool, r_ge_b: bool)
    ensures
        ({
            let p = tetra_plan_of(r_ge_g, g_ge_b, r_ge_b);
            &&& crosses_x(p.r) && crosses_y(p.g) && crosses_z(p.b)
            &&& r_ge_g && g_ge_b ==> is_path(p.r, p.g, p.b)
            &&& r_ge_g && !g_ge_b && r_ge_b ==> is_path(p.r, p.b, p.g)
            &&& r_ge_g && !g_ge_b && !r_ge_b ==> is_path(p.b, p.r, p.g)
            &&& !r_ge_g && r_ge_b ==> is_path(p.g, p.r, p.b)
            &&& !r_ge_g && !r_ge_b && g_ge_b ==> is_path(p.g, p.b, p.r)
            &&& !r_ge_g && !r_ge_b && !g_ge_b ==> is_path(p.b, p.g, p.r)
        }),
{
}

/// The three-term pyramid and prism have one edge that ends at the far vertex and two that start at
/// the near one.
pub proof fn lemma_three_term_plans(r_gt_b: bool, g_gt_b: bool, b_gt_r: bool, g_gt_r: bool)
    ensures
        ({
            let near = vx(false, false, false);
            let far = vx(true, true, true);
            let p = pyramid_plan_of(r_gt_b, g_gt_b, b_gt_r, g_gt_r);
            &&& p.r.to == far && p.g.from == near && p.b.from == near
            &&& r_gt_b && g_gt_b ==> crosses_z(p.r) && crosses_x(p.g) && crosses_y(p.b)
            &&& !(r_gt_b && g_gt_b) && b_gt_r && g_gt_r ==> crosses_x(p.r) && crosses_y(p.g)
                && crosses_z(p.b)
            &&& !(r_gt_b && g_gt_b) && !(b_gt_r && g_gt_r) ==> crosses_y(p.r) && crosses_x(p.g)
                && crosses_z(p.b)
        }),
        forall|r_gt_g: bool|
            {
                let near = vx(false, false, false);
                let p = #[trigger] prism_plan_of(r_gt_g);
                &&& p.r.to == vx(true, true, true) && p.g.from == near && p.b.from == near
                &&& crosses_z(p.b)
                &&& r_gt_g ==> crosses_y(p.r) && crosses_x(p.g)
                &&& !r_gt_g ==> crosses_x(p.r) && crosses_y(p.g)
            },
{
}

/// The face lies along the given axes: `u` and `v` are next to `from`, each along one of them, and
/// `across` is along both.
pub open spec fn lies_along(t: FaceTerm) -> bool {
    let f = t.face;
    let uv = edge(f.from, f.u);
    let vw = edge(f.from, f.v);
    let ua = edge(f.u, f.across);
    let va = edge(f.v, f.across);
    match t.axes {
        AxisPair::Rg => {
            ||| crosses_x(uv) && crosses_y(vw) && crosses_y(ua) && crosses_x(va)
            ||| crosses_y(uv) && crosses_x(vw) && crosses_x(ua) && crosses_y(va)
        },
        AxisPair::Gb => {
            ||| crosses_y(uv) && crosses_z(vw) && crosses_z(ua) && crosses_y(va)
            ||| crosses_z(uv) && crosses_y(vw) && crosses_y(ua) && crosses_z(va)
        },
        AxisPair::Br => {
            ||| crosses_z(uv) && crosses_x(vw) && crosses_x(ua) && crosses_z(va)
            ||| crosses_x(uv) && crosses_z(vw) && crosses_z(ua) && crosses_x(va)
        },
    }
}

/// The four-term pyramid weights each fraction with an edge along its own axis. Its base is a face
/// at the near vertex, and the edge along the axis that the base leaves out rises from the base to
/// the far vertex.
pub proof fn lemma_pyramid_plan_stands_on_its_base(
    r_gt_b: bool,
    g_gt_b: bool,
    b_gt_r: bool,
    g_gt_r: bool,
)
    ensures
        ({
            let near = vx(false, false, false);
            let far = vx(true, true, true);
            let p = pyramid_face_plan_of(r_gt_b, g_gt_b, b_gt_r, g_gt_r);
            let e = p.edges;
            &&& crosses_x(e.r) && crosses_y(e.g) && crosses_z(e.b)
            &&& lies_along(p.base) && p.base.face.from == near
            &&& r_gt_b && g_gt_b ==> p.base.axes is Rg && e.r.from == near && e.g.from == near
                && e.b.to == far
            &&& !(r_gt_b && g_gt_b) && b_gt_r && g_gt_r ==> p.base.axes is Gb && e.g.from == near
                && e.b.from == near && e.r.to == far
            &&& !(r_gt_b && g_gt_b) && !(b_gt_r && g_gt_r) ==> p.base.axes is Br && e.r.from == near
                && e.b.from == near && e.g.to == far
        }),
{
}

/// The five-term prism weights each fraction with an edge along its own axis. The edges along the
/// first and the third axis lead from the near vertex to the one across on their plane, and a face
/// along the second axis stands on each of them.
pub proof fn lemma_prism_plan_takes_faces_along(b_gt_r: bool)
    ensures
        ({
            let near = vx(false, false, false);
            let p = prism_face_plan_of(b_gt_r);
            let e = p.edges;
            &&& crosses_x(e.r) && crosses_y(e.g) && crosses_z(e.b)
            &&& e.g.from == near
            &&& b_gt_r ==> e.b.from == near && e.r.from == e.b.to
            &&& !b_gt_r ==> e.r.from == near && e.b.from == e.r.to
            &&& lies_along(p.gb) && p.gb.axes is Gb && p.gb.face.from == e.b.from
            &&& lies_along(p.rg) && p.rg.axes is Rg && p.rg.face.from == e.r.from
        }),
{
}

} // verus!
