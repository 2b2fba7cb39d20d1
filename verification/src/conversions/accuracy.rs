//! How close the fixed-point interpolators come to the exact values.
//!
//! A Q0.15 fraction `w` stands for `w / 0x8000`. The exact values are whole numbers once they
//! are multiplied by `0x8000` for each fraction that enters them.

use crate::conversions::cell::{
    prism_face_plan_of, pyramid_face_plan_of, tetra_plan_of, vx, AxisPair, Edge, EdgePlan, Face,
    FaceTerm, Vertex,
};
use crate::conversions::lanes::{mulhrs, wrap16};
use crate::conversions::laws::lemma_mulhrs_fits;
use crate::conversions::simd_interp_q0_15::{along, edge_sum, q15_lerp, trilinear};
use crate::conversions::simd_interp_q0_15_double::{
    pair_weight, prism_five, pyramid_four, twist,
};
use vstd::prelude::*;

verus! {

/// The point between `a` and `b` at the fraction `w`, times `0x8000`.
pub open spec fn mix(a: int, b: int, w: int) -> int {
    (0x8000 - w) * a + w * b
}

/// The exact weighted sum of the eight vertices, times the third power of `0x8000`.
pub open spec fn trilinear_exact(at: spec_fn(Vertex) -> i16, r: int, g: int, b: int) -> int {
    let c00 = mix(at(vx(false, false, false)) as int, at(vx(true, false, false)) as int, r);
    let c10 = mix(at(vx(false, true, false)) as int, at(vx(true, true, false)) as int, r);
    let c01 = mix(at(vx(false, false, true)) as int, at(vx(true, false, true)) as int, r);
    let c11 = mix(at(vx(false, true, true)) as int, at(vx(true, true, true)) as int, r);
    mix(mix(c00, c10, g), mix(c01, c11, g), b)
}

/// What a value exactly gains along an edge.
pub open spec fn gain(at: spec_fn(Vertex) -> i16, e: Edge) -> int {
    at(e.to) - at(e.from)
}

/// The exact value along the edges of a plan, times `0x8000`.
pub open spec fn edges_exact(
    at: spec_fn(Vertex) -> i16,
    p: EdgePlan,
    r: int,
    g: int,
    b: int,
) -> int {
    at(vx(false, false, false)) * 0x8000 + gain(at, p.r) * r + gain(at, p.g) * g + gain(at, p.b) * b
}

/// The exact twist of a face.
pub open spec fn twist_exact(at: spec_fn(Vertex) -> i16, f: Face) -> int {
    at(f.from) - at(f.u) - at(f.v) + at(f.across)
}

/// The exact product of the fractions of two axes, times the square of `0x8000`.
pub open spec fn pair_exact(axes: AxisPair, r: int, g: int, b: int) -> int {
    match axes {
        AxisPair::Rg => r * g,
        AxisPair::Gb => g * b,
        AxisPair::Br => b * r,
    }
}

/// What a face exactly adds, times the square of `0x8000`.
pub open spec fn face_exact(
    at: spec_fn(Vertex) -> i16,
    t: FaceTerm,
    r: int,
    g: int,
    b: int,
) -> int {
    twist_exact(at, t.face) * pair_exact(t.axes, r, g, b)
}

/// The exact four-term pyramid, times the square of `0x8000`.
pub open spec fn pyramid_exact(at: spec_fn(Vertex) -> i16, r: int, g: int, b: int) -> int {
    let plan = pyramid_face_plan_of(r > b, g > b, b > r, g > r);
    edges_exact(at, plan.edges, r, g, b) * 0x8000 + face_exact(at, plan.base, r, g, b)
}

/// The exact five-term prism, times the square of `0x8000`.
pub open spec fn prism_exact(at: spec_fn(Vertex) -> i16, r: int, g: int, b: int) -> int {
    let plan = prism_face_plan_of(b > r);
    edges_exact(at, plan.edges, r, g, b) * 0x8000 + face_exact(at, plan.gb, r, g, b) + face_exact(
        at,
        plan.rg,
        r,
        g,
        b,
    )
}

/// A Q0.15 product is at most half a step off.
proof fn lemma_product_accuracy(a: i16, b: i16)
    requires
        a != i16::MIN || b != i16::MIN,
    ensures
        -0x8000 <= 2 * (0x8000 * mulhrs(a, b) - a * b) <= 0x8000,
{
    lemma_mulhrs_fits(a, b);
}

/// One interpolation step is at most half a step off, and stays between its ends.
proof fn lemma_lerp_accuracy(a: i16, b: i16, w: i16, lo: int, hi: int)
    requires
        lo <= a <= hi,
        lo <= b <= hi,
        hi - lo <= 0x7fff,
        w >= 0,
    ensures
        lo <= q15_lerp(a, b, w) <= hi,
        -0x8000 <= 2 * (0x8000 * q15_lerp(a, b, w) - mix(a as int, b as int, w as int)) <= 0x8000,
{
    let d = b - a;
    assert(wrap16(d) == d);
    let product = d * w;
    assert(0 <= d ==> 0 <= product <= 0x7fff * d) by (nonlinear_arith)
        requires
            product == d * w,
            0 <= w <= 0x7fff,
    ;
    assert(d <= 0 ==> 0x7fff * d <= product <= 0) by (nonlinear_arith)
        requires
            product == d * w,
            0 <= w <= 0x7fff,
    ;
    let m = (product + 0x4000) / 0x8000;
    assert(mulhrs(d as i16, w) == m);
    assert(mix(a as int, b as int, w as int) == 0x8000 * a + d * w) by (nonlinear_arith)
        requires
            d == b - a,
    ;
}

/// Interpolating between two values that are off by no more than `e` makes the result off by
/// no more than `e` and half a step.
proof fn lemma_mix_error(
    x: (int, int),
    y: (int, int),
    z: int,
    w: int,
    scale: int,
    e: int,
)
    requires
        0 <= w <= 0x8000,
        scale > 0,
        -e <= 2 * (scale * x.0 - x.1) <= e,
        -e <= 2 * (scale * y.0 - y.1) <= e,
        -0x8000 <= 2 * (0x8000 * z - mix(x.0, y.0, w)) <= 0x8000,
    ensures
        -(0x8000 * e + 0x8000 * scale) <= 2 * (0x8000 * scale * z - mix(x.1, y.1, w)) <= 0x8000 * e
            + 0x8000 * scale,
{
    let dx = 2 * (scale * x.0 - x.1);
    let dy = 2 * (scale * y.0 - y.1);
    let dz = 2 * (0x8000 * z - mix(x.0, y.0, w));
    let v = 0x8000 - w;
    let (px, py, qx, qy) = (v * x.0, w * y.0, v * x.1, w * y.1);
    assert(v * dx == 2 * (scale * px - qx)) by (nonlinear_arith)
        requires
            dx == 2 * (scale * x.0 - x.1),
            px == v * x.0,
            qx == v * x.1,
    ;
    assert(w * dy == 2 * (scale * py - qy)) by (nonlinear_arith)
        requires
            dy == 2 * (scale * y.0 - y.1),
            py == w * y.0,
            qy == w * y.1,
    ;
    assert(scale * dz == 2 * (0x8000 * scale * z - scale * px - scale * py)) by (nonlinear_arith)
        requires
            dz == 2 * (0x8000 * z - (px + py)),
    ;
    assert(2 * (0x8000 * scale * z - mix(x.1, y.1, w)) == scale * dz + mix(dx, dy, w));
    assert(-0x8000 * e <= mix(dx, dy, w) <= 0x8000 * e) by (nonlinear_arith)
        requires
            mix(dx, dy, w) == (0x8000 - w) * dx + w * dy,
            -e <= dx <= e,
            -e <= dy <= e,
            0 <= w <= 0x8000,
    ;
    assert(-0x8000 * scale <= scale * dz <= 0x8000 * scale) by (nonlinear_arith)
        requires
            -0x8000 <= dz <= 0x8000,
            scale > 0,
    ;
}

/// Trilinear interpolation is at most one and a half steps away from the exact weighted sum of
/// the eight vertices.
pub proof fn lemma_trilinear_accuracy(
    at: spec_fn(Vertex) -> i16,
    r: i16,
    g: i16,
    b: i16,
    lo: int,
    hi: int,
)
    requires
        forall|v: Vertex| lo <= #[trigger] at(v) <= hi,
        hi - lo <= 0x7fff,
        r >= 0,
        g >= 0,
        b >= 0,
    ensures
        ({
            let off = 0x2000_0000_0000 * trilinear(at, r, g, b) - trilinear_exact(
                at,
                r as int,
                g as int,
                b as int,
            );
            -3 * 0x2000_0000_0000 <= 2 * off <= 3 * 0x2000_0000_0000
        }),
{
    let v000 = at(vx(false, false, false));
    let v100 = at(vx(true, false, false));
    let v010 = at(vx(false, true, false));
    let v110 = at(vx(true, true, false));
    let v001 = at(vx(false, false, true));
    let v101 = at(vx(true, false, true));
    let v011 = at(vx(false, true, true));
    let v111 = at(vx(true, true, true));
    let c00 = q15_lerp(v000, v100, r);
    let c10 = q15_lerp(v010, v110, r);
    let c01 = q15_lerp(v001, v101, r);
    let c11 = q15_lerp(v011, v111, r);
    lemma_lerp_accuracy(v000, v100, r, lo, hi);
    lemma_lerp_accuracy(v010, v110, r, lo, hi);
    lemma_lerp_accuracy(v001, v101, r, lo, hi);
    lemma_lerp_accuracy(v011, v111, r, lo, hi);
    let e00 = mix(v000 as int, v100 as int, r as int);
    let e10 = mix(v010 as int, v110 as int, r as int);
    let e01 = mix(v001 as int, v101 as int, r as int);
    let e11 = mix(v011 as int, v111 as int, r as int);
    let c0 = q15_lerp(c00, c10, g);
    let c1 = q15_lerp(c01, c11, g);
    lemma_lerp_accuracy(c00, c10, g, lo, hi);
    lemma_lerp_accuracy(c01, c11, g, lo, hi);
    lemma_mix_error((c00 as int, e00), (c10 as int, e10), c0 as int, g as int, 0x8000, 0x8000);
    lemma_mix_error((c01 as int, e01), (c11 as int, e11), c1 as int, g as int, 0x8000, 0x8000);
    let e0 = mix(e00, e10, g as int);
    let e1 = mix(e01, e11, g as int);
    lemma_lerp_accuracy(c0, c1, b, lo, hi);
    lemma_mix_error(
        (c0 as int, e0),
        (c1 as int, e1),
        q15_lerp(c0, c1, b) as int,
        b as int,
        0x4000_0000,
        0x8000_0000,
    );
}

/// Trilinear interpolation stays within the range of the eight corners, as long as that range
/// can be counted in 16 bits and no fraction is negative.
pub proof fn lemma_trilinear_in_range(
    at: spec_fn(Vertex) -> i16,
    r: i16,
    g: i16,
    b: i16,
    lo: int,
    hi: int,
)
    requires
        forall|v: Vertex| lo <= #[trigger] at(v) <= hi,
        hi - lo <= 0x7fff,
        r >= 0,
        g >= 0,
        b >= 0,
    ensures
        lo <= trilinear(at, r, g, b) <= hi,
{
    let p = |x: bool, y: bool, z: bool| at(vx(x, y, z));
    assert forall|y: bool, z: bool| lo <= #[trigger] q15_lerp(p(false, y, z), p(true, y, z), r)
        <= hi by {
        lemma_lerp_accuracy(p(false, y, z), p(true, y, z), r, lo, hi);
    }
    let c00 = q15_lerp(p(false, false, false), p(true, false, false), r);
    let c10 = q15_lerp(p(false, true, false), p(true, true, false), r);
    let c01 = q15_lerp(p(false, false, true), p(true, false, true), r);
    let c11 = q15_lerp(p(false, true, true), p(true, true, true), r);
    lemma_lerp_accuracy(c00, c10, g, lo, hi);
    lemma_lerp_accuracy(c01, c11, g, lo, hi);
    lemma_lerp_accuracy(q15_lerp(c00, c10, g), q15_lerp(c01, c11, g), b, lo, hi);
}

/// A weighted edge is at most half a step off.
proof fn lemma_edge_accuracy(at: spec_fn(Vertex) -> i16, e: Edge, w: i16, lo: int, hi: int)
    requires
        forall|v: Vertex| lo <= #[trigger] at(v) <= hi,
        hi - lo <= 0x7fff,
    ensures
        -0x8000 <= 2 * (0x8000 * mulhrs(along(at, e), w) - gain(at, e) * w) <= 0x8000,
{
    assert(lo <= at(e.to) <= hi && lo <= at(e.from) <= hi);
    assert(along(at, e) == gain(at, e));
    lemma_product_accuracy(along(at, e), w);
}

/// Wrapping around once at the end is the same as after every step.
proof fn lemma_sum_wraps(c: int, m1: int, m2: int, m3: int)
    ensures
        wrap16(wrap16(wrap16(c + m1) + m2) + m3) == wrap16(c + m1 + m2 + m3),
{
}

/// The rounded sum along the edges of a plan, before it wraps around.
spec fn edges_rounded(at: spec_fn(Vertex) -> i16, p: EdgePlan, r: i16, g: i16, b: i16) -> int {
    at(vx(false, false, false)) + mulhrs(along(at, p.r), r) + mulhrs(along(at, p.g), g) + mulhrs(
        along(at, p.b),
        b,
    )
}

/// The sum along the edges of a plan wraps around once.
proof fn lemma_edges_wrap(at: spec_fn(Vertex) -> i16, p: EdgePlan, r: i16, g: i16, b: i16)
    ensures
        edge_sum(at, p, r, g, b) == wrap16(edges_rounded(at, p, r, g, b)),
{
    lemma_sum_wraps(
        at(vx(false, false, false)) as int,
        mulhrs(along(at, p.r), r) as int,
        mulhrs(along(at, p.g), g) as int,
        mulhrs(along(at, p.b), b) as int,
    );
}

/// Before it wraps around, the sum along the edges of a plan is at most one and a half steps
/// off.
proof fn lemma_edges_accuracy(
    at: spec_fn(Vertex) -> i16,
    p: EdgePlan,
    r: i16,
    g: i16,
    b: i16,
    lo: int,
    hi: int,
)
    requires
        forall|v: Vertex| lo <= #[trigger] at(v) <= hi,
        hi - lo <= 0x7fff,
    ensures
        -3 * 0x8000 <= 2 * (0x8000 * edges_rounded(at, p, r, g, b) - edges_exact(
            at,
            p,
            r as int,
            g as int,
            b as int,
        )) <= 3 * 0x8000,
{
    lemma_edge_accuracy(at, p.r, r, lo, hi);
    lemma_edge_accuracy(at, p.g, g, lo, hi);
    lemma_edge_accuracy(at, p.b, b, lo, hi);
}

/// Tetrahedral interpolation is at most one and a half steps away from the exact value on the
/// tetrahedron, and so leaves the range of the eight corners by one step at the most. The range
/// has to be one that can be counted in 16 bits, with one step to spare at either end, and no
/// fraction may be negative.
pub proof fn lemma_tetra_accuracy(
    at: spec_fn(Vertex) -> i16,
    r: i16,
    g: i16,
    b: i16,
    lo: int,
    hi: int,
)
    requires
        forall|v: Vertex| lo <= #[trigger] at(v) <= hi,
        hi - lo <= 0x7fff,
        i16::MIN < lo,
        hi < i16::MAX,
        r >= 0,
        g >= 0,
        b >= 0,
    ensures
        ({
            let p = tetra_plan_of(r >= g, g >= b, r >= b);
            let value = edge_sum(at, p, r, g, b);
            let off = 0x8000 * value - edges_exact(at, p, r as int, g as int, b as int);
            &&& -3 * 0x8000 <= 2 * off <= 3 * 0x8000
            &&& lo - 1 <= value <= hi + 1
        }),
{
    let p = tetra_plan_of(r >= g, g >= b, r >= b);
    let sum = edges_rounded(at, p, r, g, b);
    let exact = edges_exact(at, p, r as int, g as int, b as int);
    assert(edge_sum(at, p, r, g, b) == wrap16(sum)) by {
        lemma_edges_wrap(at, p, r, g, b);
    }
    assert(-3 * 0x8000 <= 2 * (0x8000 * sum - exact) <= 3 * 0x8000) by {
        lemma_edges_accuracy(at, p, r, g, b, lo, hi);
    }
    assert(lo * 0x8000 <= exact <= hi * 0x8000) by {
        lemma_tetra_exact_in_range(at, r, g, b, lo, hi);
    }
    lemma_sum_in_range(sum, exact, lo, hi);
}

/// A sum that is at most one and a half steps off an exact value leaves the value's range by one
/// step at the most.
proof fn lemma_sum_in_range(sum: int, exact: int, lo: int, hi: int)
    requires
        -3 * 0x8000 <= 2 * (0x8000 * sum - exact) <= 3 * 0x8000,
        lo * 0x8000 <= exact <= hi * 0x8000,
        i16::MIN < lo,
        hi < i16::MAX,
    ensures
        lo - 1 <= sum <= hi + 1,
        wrap16(sum) == sum,
{
}

/// The exact value on the tetrahedron lies in the range of the corners.
pub proof fn lemma_tetra_exact_in_range(
    at: spec_fn(Vertex) -> i16,
    r: i16,
    g: i16,
    b: i16,
    lo: int,
    hi: int,
)
    requires
        forall|v: Vertex| lo <= #[trigger] at(v) <= hi,
        r >= 0,
        g >= 0,
        b >= 0,
    ensures
        lo * 0x8000 <= edges_exact(
            at,
            tetra_plan_of(r >= g, g >= b, r >= b),
            r as int,
            g as int,
            b as int,
        ) <= hi * 0x8000,
{
    let p = tetra_plan_of(r >= g, g >= b, r >= b);
    assert(lo <= at(p.r.to) <= hi && lo <= at(p.g.to) <= hi && lo <= at(p.b.to) <= hi);
    assert(lo <= at(vx(false, false, false)) <= hi);
    let n = at(vx(false, false, false)) as int;
    let (vr, vg, vb) = (at(p.r.to) as int, at(p.g.to) as int, at(p.b.to) as int);
    let (wr, wg, wb) = (r as int, g as int, b as int);
    if r >= g {
        if g >= b {
            lemma_falling_sum(n, vr, vg, vb, wr, wg, wb, lo, hi);
        } else if r >= b {
            lemma_falling_sum(n, vr, vb, vg, wr, wb, wg, lo, hi);
        } else {
            lemma_falling_sum(n, vb, vr, vg, wb, wr, wg, lo, hi);
        }
    } else if r >= b {
        lemma_falling_sum(n, vg, vr, vb, wg, wr, wb, lo, hi);
    } else if g >= b {
        lemma_falling_sum(n, vg, vb, vr, wg, wb, wr, lo, hi);
    } else {
        lemma_falling_sum(n, vb, vg, vr, wb, wg, wr, lo, hi);
    }
}

/// A path through values of a range, with weights that fall, stays in the range.
proof fn lemma_falling_sum(
    v0: int,
    v1: int,
    v2: int,
    v3: int,
    w1: int,
    w2: int,
    w3: int,
    lo: int,
    hi: int,
)
    requires
        lo <= v0 <= hi,
        lo <= v1 <= hi,
        lo <= v2 <= hi,
        lo <= v3 <= hi,
        0 <= w3 <= w2 <= w1 <= 0x7fff,
    ensures
        lo * 0x8000 <= v0 * 0x8000 + (v1 - v0) * w1 + (v2 - v1) * w2 + (v3 - v2) * w3 <= hi
            * 0x8000,
{
    lemma_difference_times(v1, v0, w1);
    lemma_difference_times(v2, v1, w2);
    lemma_difference_times(v3, v2, w3);
    // What each value has above `lo` and below `hi`, times its share, is not negative.
    lemma_share(v0, 0x8000, w1, lo, hi);
    lemma_share(v1, w1, w2, lo, hi);
    lemma_share(v2, w2, w3, lo, hi);
    lemma_share(v3, w3, 0, lo, hi);
}

/// A product with a difference is the difference of the products.
proof fn lemma_difference_times(a: int, b: int, w: int)
    ensures
        (a - b) * w == a * w - b * w,
{
    assert((a - b) * w == a * w - b * w) by (nonlinear_arith);
}

/// A value between `lo` and `hi` stays between them when all three take the share from `w2` to
/// `w1`.
proof fn lemma_share(v: int, w1: int, w2: int, lo: int, hi: int)
    requires
        lo <= v <= hi,
        w2 <= w1,
    ensures
        lo * w1 - lo * w2 <= v * w1 - v * w2 <= hi * w1 - hi * w2,
{
    assert((v - lo) * (w1 - w2) == v * w1 - v * w2 - lo * w1 + lo * w2) by (nonlinear_arith);
    assert((hi - v) * (w1 - w2) == hi * w1 - hi * w2 - v * w1 + v * w2) by (nonlinear_arith);
    assert((v - lo) * (w1 - w2) >= 0 && (hi - v) * (w1 - w2) >= 0) by (nonlinear_arith)
        requires
            lo <= v <= hi,
            w2 <= w1,
    ;
}

/// A weighted face, where its twist fits in 16 bits, is at most one step off.
proof fn lemma_face_accuracy(
    at: spec_fn(Vertex) -> i16,
    t: FaceTerm,
    r: i16,
    g: i16,
    b: i16,
    lo: int,
    hi: int,
)
    requires
        forall|v: Vertex| lo <= #[trigger] at(v) <= hi,
        hi - lo <= 0x3fff,
        r >= 0,
        g >= 0,
        b >= 0,
    ensures
        -2 * 0x4000_0000 <= 2 * (0x4000_0000 * face_rounded(at, t, r, g, b) - face_exact(
            at,
            t,
            r as int,
            g as int,
            b as int,
        )) <= 2 * 0x4000_0000,
{
    let f = t.face;
    assert(lo <= at(f.from) <= hi && lo <= at(f.u) <= hi);
    assert(lo <= at(f.v) <= hi && lo <= at(f.across) <= hi);
    let tw = twist_exact(at, f);
    assert(-0x7ffe <= tw <= 0x7ffe);
    assert(twist(at, f) == tw);
    let (p, q) = match t.axes {
        AxisPair::Rg => (r, g),
        AxisPair::Gb => (g, b),
        AxisPair::Br => (b, r),
    };
    let k = mulhrs(p, q);
    lemma_product_accuracy(p, q);
    lemma_product_accuracy(tw as i16, k);
    let m = mulhrs(tw as i16, k) as int;
    let ek = 2 * (0x8000 * k - p * q);
    let em = 2 * (0x8000 * m - tw * k);
    assert(2 * (0x4000_0000 * m - tw * (p * q)) == 0x8000 * em + tw * ek) by (nonlinear_arith)
        requires
            ek == 2 * (0x8000 * k - p * q),
            em == 2 * (0x8000 * m - tw * k),
    ;
    assert(-0x8000 * 0x8000 <= tw * ek <= 0x8000 * 0x8000) by (nonlinear_arith)
        requires
            -0x8000 <= tw <= 0x8000,
            -0x8000 <= ek <= 0x8000,
    ;
}

/// Adding a face wraps around once.
proof fn lemma_face_wraps(sum: int, m: int)
    ensures
        wrap16(wrap16(sum) + m) == wrap16(sum + m),
{
}

/// What a face adds, rounded.
spec fn face_rounded(at: spec_fn(Vertex) -> i16, t: FaceTerm, r: i16, g: i16, b: i16) -> int {
    mulhrs(twist(at, t.face), pair_weight(t.axes, r, g, b)) as int
}

/// The pyramid wraps around once.
proof fn lemma_pyramid_wraps(at: spec_fn(Vertex) -> i16, r: i16, g: i16, b: i16)
    ensures
        ({
            let plan = pyramid_face_plan_of(r > b, g > b, b > r, g > r);
            pyramid_four(at, r, g, b) == wrap16(
                edges_rounded(at, plan.edges, r, g, b) + face_rounded(at, plan.base, r, g, b),
            )
        }),
{
    let plan = pyramid_face_plan_of(r > b, g > b, b > r, g > r);
    lemma_edges_wrap(at, plan.edges, r, g, b);
    lemma_face_wraps(
        edges_rounded(at, plan.edges, r, g, b),
        face_rounded(at, plan.base, r, g, b),
    );
}

/// The prism wraps around once.
proof fn lemma_prism_wraps(at: spec_fn(Vertex) -> i16, r: i16, g: i16, b: i16)
    ensures
        ({
            let plan = prism_face_plan_of(b > r);
            prism_five(at, r, g, b) == wrap16(
                edges_rounded(at, plan.edges, r, g, b) + face_rounded(at, plan.gb, r, g, b)
                    + face_rounded(at, plan.rg, r, g, b),
            )
        }),
{
    let plan = prism_face_plan_of(b > r);
    let sum = edges_rounded(at, plan.edges, r, g, b);
    let m1 = face_rounded(at, plan.gb, r, g, b);
    lemma_edges_wrap(at, plan.edges, r, g, b);
    lemma_face_wraps(sum, m1);
    lemma_face_wraps(sum + m1, face_rounded(at, plan.rg, r, g, b));
}

/// Rounded terms whose exact sum lies far enough inside the range of 16 bits do not wrap around.
proof fn lemma_terms_fit(sum: int, edges: int, m1: int, f1: int, m2: int, f2: int)
    requires
        -3 * 0x8000 <= 2 * (0x8000 * sum - edges) <= 3 * 0x8000,
        -2 * 0x4000_0000 <= 2 * (0x4000_0000 * m1 - f1) <= 2 * 0x4000_0000,
        ({
            let total = edges * 0x8000 + f1 + f2;
            ||| {
                &&& m2 == 0 && f2 == 0
                &&& (i16::MIN + 3) * 0x4000_0000 <= total <= (i16::MAX - 3) * 0x4000_0000
            }
            ||| {
                &&& -2 * 0x4000_0000 <= 2 * (0x4000_0000 * m2 - f2) <= 2 * 0x4000_0000
                &&& (i16::MIN + 4) * 0x4000_0000 <= total <= (i16::MAX - 4) * 0x4000_0000
            }
        }),
    ensures
        wrap16(sum + m1 + m2) == sum + m1 + m2,
{
}

/// Four-term pyramidal interpolation is at most two and a half steps away from the exact value,
/// as long as no corner is further than `0x3fff` from another, no fraction is negative, and the
/// exact value lies three steps inside the range of 16 bits.
pub proof fn lemma_pyramid_accuracy(
    at: spec_fn(Vertex) -> i16,
    r: i16,
    g: i16,
    b: i16,
    lo: int,
    hi: int,
)
    requires
        forall|v: Vertex| lo <= #[trigger] at(v) <= hi,
        hi - lo <= 0x3fff,
        r >= 0,
        g >= 0,
        b >= 0,
        (i16::MIN + 3) * 0x4000_0000 <= pyramid_exact(at, r as int, g as int, b as int) <= (i16::MAX
            - 3) * 0x4000_0000,
    ensures
        ({
            let off = 0x4000_0000 * pyramid_four(at, r, g, b) - pyramid_exact(
                at,
                r as int,
                g as int,
                b as int,
            );
            -5 * 0x4000_0000 <= 2 * off <= 5 * 0x4000_0000
        }),
{
    let plan = pyramid_face_plan_of(r > b, g > b, b > r, g > r);
    lemma_pyramid_wraps(at, r, g, b);
    lemma_edges_accuracy(at, plan.edges, r, g, b, lo, hi);
    lemma_face_accuracy(at, plan.base, r, g, b, lo, hi);
    let edges = edges_exact(at, plan.edges, r as int, g as int, b as int);
    let f1 = face_exact(at, plan.base, r as int, g as int, b as int);
    let sum = edges_rounded(at, plan.edges, r, g, b);
    lemma_terms_fit(sum, edges, face_rounded(at, plan.base, r, g, b), f1, 0, 0);
}

/// Five-term prismatic interpolation is at most three and a half steps away from the exact
/// value, as long as no corner is further than `0x3fff` from another, no fraction is negative,
/// and the exact value lies four steps inside the range of 16 bits.
pub proof fn lemma_prism_accuracy(
    at: spec_fn(Vertex) -> i16,
    r: i16,
    g: i16,
    b: i16,
    lo: int,
    hi: int,
)
    requires
        forall|v: Vertex| lo <= #[trigger] at(v) <= hi,
        hi - lo <= 0x3fff,
        r >= 0,
        g >= 0,
        b >= 0,
        (i16::MIN + 4) * 0x4000_0000 <= prism_exact(at, r as int, g as int, b as int) <= (i16::MAX
            - 4) * 0x4000_0000,
    ensures
        ({
            let off = 0x4000_0000 * prism_five(at, r, g, b) - prism_exact(
                at,
                r as int,
                g as int,
                b as int,
            );
            -7 * 0x4000_0000 <= 2 * off <= 7 * 0x4000_0000
        }),
{
    let plan = prism_face_plan_of(b > r);
    lemma_prism_wraps(at, r, g, b);
    lemma_edges_accuracy(at, plan.edges, r, g, b, lo, hi);
    lemma_face_accuracy(at, plan.gb, r, g, b, lo, hi);
    lemma_face_accuracy(at, plan.rg, r, g, b, lo, hi);
    let edges = edges_exact(at, plan.edges, r as int, g as int, b as int);
    let f1 = face_exact(at, plan.gb, r as int, g as int, b as int);
    let f2 = face_exact(at, plan.rg, r as int, g as int, b as int);
    let sum = edges_rounded(at, plan.edges, r, g, b);
    let m1 = face_rounded(at, plan.gb, r, g, b);
    lemma_terms_fit(sum, edges, m1, f1, face_rounded(at, plan.rg, r, g, b), f2);
}

} // verus!
