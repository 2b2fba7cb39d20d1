//! How close tetrahedral interpolation comes to the exact value, and what that means for cubes
//! that are planes.
//!
//! A Q0.15 fraction `w` stands for `w / 0x8000`. The exact values here are multiplied by `0x8000`,
//! which makes them whole numbers.

use crate::conversions::lanes::wrap16;
use crate::conversions::laws::lemma_mulhrs_fits;
use crate::conversions::lookup_laws::{
    lemma_tetra_walks_by_falling_fractions, weighted, Lookup,
};
use crate::conversions::simd_interp_q0_15::tetra_lanes;
use vstd::prelude::*;

verus! {

/// One of the three axes.
pub enum Axis {
    X,
    Y,
    Z,
}

/// The corner on the far side of `p` along an axis.
pub open spec fn across(p: (bool, bool, bool), a: Axis) -> (bool, bool, bool) {
    match a {
        Axis::X => (true, p.1, p.2),
        Axis::Y => (p.0, true, p.2),
        Axis::Z => (p.0, p.1, true),
    }
}

/// The fraction of the input on an axis.
pub open spec fn fraction(q: Lookup, a: Axis) -> int {
    match a {
        Axis::X => q.r() as int,
        Axis::Y => q.g() as int,
        Axis::Z => q.b() as int,
    }
}

/// All eight corners hold values from `lo` to `hi`, and no two of them are so far apart that the
/// difference leaves 16 bits.
pub open spec fn corners_in(q: Lookup, lo: int, hi: int) -> bool {
    &&& hi - lo <= i16::MAX
    &&& forall|x: bool, y: bool, z: bool| lo <= #[trigger] q.at(x, y, z) <= hi
}

/// The exact value on the tetrahedron that the order of the axes gives, times `0x8000`: the near
/// corner's value, and for each axis in turn the gain along it times its fraction.
pub open spec fn exact_walk(q: Lookup, first: Axis, second: Axis, third: Axis) -> int {
    let p0 = (false, false, false);
    let p1 = across(p0, first);
    let p2 = across(p1, second);
    let p3 = across(p2, third);
    0x8000 * q.at(false, false, false) + q.gain(p0, p1) * fraction(q, first) + q.gain(p1, p2)
        * fraction(q, second) + q.gain(p2, p3) * fraction(q, third)
}

/// The order takes each axis once, and a larger fraction before a smaller one.
pub open spec fn is_falling(q: Lookup, first: Axis, second: Axis, third: Axis) -> bool {
    &&& first != second && second != third && first != third
    &&& fraction(q, first) >= fraction(q, second) >= fraction(q, third)
}

/// A weighted gain is at most half a step off.
proof fn lemma_weighted_is_close(gain: int, w: i16)
    requires
        i16::MIN < gain <= i16::MAX,
    ensures
        -0x8000 <= 2 * (0x8000 * weighted(gain, w) - gain * w) <= 0x8000,
{
    assert(wrap16(gain) == gain);
    lemma_mulhrs_fits(gain as i16, w);
}

/// Two gains in a row with the same weight are the gain of both.
proof fn lemma_gains_in_a_row(
    q: Lookup,
    p: (bool, bool, bool),
    s: (bool, bool, bool),
    t: (bool, bool, bool),
    w: int,
)
    ensures
        q.gain(p, s) * w + q.gain(s, t) * w == q.gain(p, t) * w,
{
    let (d, e) = (q.gain(p, s), q.gain(s, t));
    assert(d * w + e * w == (d + e) * w) by (nonlinear_arith);
}

/// The first two axes may change places where their fractions are equal.
proof fn lemma_first_two_may_change_places(q: Lookup, a: Axis, b: Axis, c: Axis)
    requires
        a != b,
        fraction(q, a) == fraction(q, b),
    ensures
        exact_walk(q, a, b, c) == exact_walk(q, b, a, c),
{
    let p0 = (false, false, false);
    let w = fraction(q, a);
    let p2 = across(across(p0, a), b);
    assert(p2 == across(across(p0, b), a));
    lemma_gains_in_a_row(q, p0, across(p0, a), p2, w);
    lemma_gains_in_a_row(q, p0, across(p0, b), p2, w);
}

/// The last two axes may change places where their fractions are equal.
proof fn lemma_last_two_may_change_places(q: Lookup, a: Axis, b: Axis, c: Axis)
    requires
        b != c,
        fraction(q, b) == fraction(q, c),
    ensures
        exact_walk(q, a, b, c) == exact_walk(q, a, c, b),
{
    let p1 = across((false, false, false), a);
    let w = fraction(q, b);
    let p3 = across(across(p1, b), c);
    assert(p3 == across(across(p1, c), b));
    lemma_gains_in_a_row(q, p1, across(p1, b), p3, w);
    lemma_gains_in_a_row(q, p1, across(p1, c), p3, w);
}

/// Orders that take equal fractions in turn give the same exact value.
proof fn lemma_equal_fractions_may_change_places(
    q: Lookup,
    a: (Axis, Axis, Axis),
    b: (Axis, Axis, Axis),
)
    requires
        is_falling(q, a.0, a.1, a.2),
        is_falling(q, b.0, b.1, b.2),
    ensures
        exact_walk(q, a.0, a.1, a.2) == exact_walk(q, b.0, b.1, b.2),
{
    let (x, y, z) = a;
    if b == (y, x, z) {
        lemma_first_two_may_change_places(q, x, y, z);
    } else if b == (x, z, y) {
        lemma_last_two_may_change_places(q, x, y, z);
    } else if b == (y, z, x) {
        lemma_first_two_may_change_places(q, x, y, z);
        lemma_last_two_may_change_places(q, y, x, z);
    } else if b == (z, x, y) {
        lemma_last_two_may_change_places(q, x, y, z);
        lemma_first_two_may_change_places(q, x, z, y);
    } else if b == (z, y, x) {
        lemma_first_two_may_change_places(q, x, y, z);
        lemma_last_two_may_change_places(q, y, x, z);
        lemma_first_two_may_change_places(q, y, z, x);
    } else {
        assert(a == b);
    }
}

/// The order in which the fractions are taken.
spec fn order_of(q: Lookup) -> (Axis, Axis, Axis) {
    let (r, g, b) = (q.r(), q.g(), q.b());
    if r >= g >= b {
        (Axis::X, Axis::Y, Axis::Z)
    } else if r >= b > g {
        (Axis::X, Axis::Z, Axis::Y)
    } else if b > r >= g {
        (Axis::Z, Axis::X, Axis::Y)
    } else if g > r >= b {
        (Axis::Y, Axis::X, Axis::Z)
    } else if g >= b > r {
        (Axis::Y, Axis::Z, Axis::X)
    } else {
        (Axis::Z, Axis::Y, Axis::X)
    }
}

/// The rounded sum along the order in which the fractions are taken, before it wraps around.
#[verifier::opaque]
spec fn rounded_walk(q: Lookup) -> int {
    let o = order_of(q);
    let p0 = (false, false, false);
    let p1 = across(p0, o.0);
    let p2 = across(p1, o.1);
    let p3 = across(p2, o.2);
    q.at(false, false, false) + weighted(q.gain(p0, p1), fraction(q, o.0) as i16) + weighted(
        q.gain(p1, p2),
        fraction(q, o.1) as i16,
    ) + weighted(q.gain(p2, p3), fraction(q, o.2) as i16)
}

/// Tetrahedral interpolation gives the rounded sum.
proof fn lemma_tetra_is_rounded_walk(q: Lookup, n: nat)
    requires
        0 <= q.lane < n,
    ensures
        tetra_lanes(q.cube, q.cell(), q.grid, n)[q.lane] == wrap16(rounded_walk(q)),
{
    reveal(rounded_walk);
    lemma_tetra_walks_by_falling_fractions(q, n);
}

/// The rounded sum is at most one and a half steps off.
proof fn lemma_rounded_walk_is_close(q: Lookup, lo: int, hi: int)
    requires
        corners_in(q, lo, hi),
    ensures
        ({
            let o = order_of(q);
            let exact = exact_walk(q, o.0, o.1, o.2);
            &&& is_falling(q, o.0, o.1, o.2)
            &&& -3 * 0x8000 <= 2 * (0x8000 * rounded_walk(q) - exact) <= 3 * 0x8000
        }),
{
    reveal(rounded_walk);
    let o = order_of(q);
    let p0 = (false, false, false);
    let p1 = across(p0, o.0);
    let p2 = across(p1, o.1);
    let p3 = across(p2, o.2);
    assert(lo <= q.at(p0.0, p0.1, p0.2) <= hi && lo <= q.at(p1.0, p1.1, p1.2) <= hi);
    assert(lo <= q.at(p2.0, p2.1, p2.2) <= hi && lo <= q.at(p3.0, p3.1, p3.2) <= hi);
    lemma_weighted_is_close(q.gain(p0, p1), fraction(q, o.0) as i16);
    lemma_weighted_is_close(q.gain(p1, p2), fraction(q, o.1) as i16);
    lemma_weighted_is_close(q.gain(p2, p3), fraction(q, o.2) as i16);
}

/// Tetrahedral interpolation is at most one and a half steps away from the exact value on the
/// tetrahedron of every falling order of the axes, up to a whole turn of 16 bits.
pub proof fn lemma_tetra_is_close_to_the_exact_walk(
    q: Lookup,
    n: nat,
    first: Axis,
    second: Axis,
    third: Axis,
    lo: int,
    hi: int,
)
    requires
        0 <= q.lane < n,
        corners_in(q, lo, hi),
        is_falling(q, first, second, third),
    ensures
        exists|turns: int|
            {
                let value = tetra_lanes(q.cube, q.cell(), q.grid, n)[q.lane]
                    + #[trigger] (0x1_0000 * turns);
                -3 * 0x8000 <= 2 * (0x8000 * value - exact_walk(q, first, second, third)) <= 3
                    * 0x8000
            },
{
    lemma_tetra_is_rounded_walk(q, n);
    lemma_rounded_walk_is_close(q, lo, hi);
    lemma_equal_fractions_may_change_places(q, (first, second, third), order_of(q));
    let sum = rounded_walk(q);
    let turns = (sum - wrap16(sum)) / 0x1_0000;
    assert(wrap16(sum) + 0x1_0000 * turns == sum);
}

/// A path through values of a range, with fractions that fall, stays in the range.
proof fn lemma_falling_walk(v: (int, int, int, int), w: (int, int, int), lo: int, hi: int)
    requires
        lo <= v.0 <= hi,
        lo <= v.1 <= hi,
        lo <= v.2 <= hi,
        lo <= v.3 <= hi,
        0 <= w.2 <= w.1 <= w.0 <= 0x8000,
    ensures
        lo * 0x8000 <= 0x8000 * v.0 + (v.1 - v.0) * w.0 + (v.2 - v.1) * w.1 + (v.3 - v.2) * w.2
            <= hi * 0x8000,
{
    let (a, b, c, d) = (0x8000 - w.0, w.0 - w.1, w.1 - w.2, w.2);
    let total = 0x8000 * v.0 + (v.1 - v.0) * w.0 + (v.2 - v.1) * w.1 + (v.3 - v.2) * w.2;
    assert(total == v.0 * a + v.1 * b + v.2 * c + v.3 * d) by (nonlinear_arith)
        requires
            total == 0x8000 * v.0 + (v.1 - v.0) * w.0 + (v.2 - v.1) * w.1 + (v.3 - v.2) * w.2,
            a == 0x8000 - w.0,
            b == w.0 - w.1,
            c == w.1 - w.2,
            d == w.2,
    ;
    assert(lo * a <= v.0 * a <= hi * a) by (nonlinear_arith)
        requires
            lo <= v.0 <= hi,
            a >= 0,
    ;
    assert(lo * b <= v.1 * b <= hi * b) by (nonlinear_arith)
        requires
            lo <= v.1 <= hi,
            b >= 0,
    ;
    assert(lo * c <= v.2 * c <= hi * c) by (nonlinear_arith)
        requires
            lo <= v.2 <= hi,
            c >= 0,
    ;
    assert(lo * d <= v.3 * d <= hi * d) by (nonlinear_arith)
        requires
            lo <= v.3 <= hi,
            d >= 0,
    ;
    assert(lo * a + lo * b + lo * c + lo * d == lo * 0x8000) by (nonlinear_arith)
        requires
            a + b + c + d == 0x8000,
    ;
    assert(hi * a + hi * b + hi * c + hi * d == hi * 0x8000) by (nonlinear_arith)
        requires
            a + b + c + d == 0x8000,
    ;
}

/// With fractions that are not negative, the exact value on the tetrahedron lies between the
/// corners.
pub proof fn lemma_exact_walk_stays_between_the_corners(
    q: Lookup,
    first: Axis,
    second: Axis,
    third: Axis,
    lo: int,
    hi: int,
)
    requires
        corners_in(q, lo, hi),
        is_falling(q, first, second, third),
        q.r() >= 0,
        q.g() >= 0,
        q.b() >= 0,
    ensures
        lo * 0x8000 <= exact_walk(q, first, second, third) <= hi * 0x8000,
{
    let p0 = (false, false, false);
    let p1 = across(p0, first);
    let p2 = across(p1, second);
    let p3 = across(p2, third);
    let v = (
        q.at(p0.0, p0.1, p0.2) as int,
        q.at(p1.0, p1.1, p1.2) as int,
        q.at(p2.0, p2.1, p2.2) as int,
        q.at(p3.0, p3.1, p3.2) as int,
    );
    assert(lo <= q.at(p0.0, p0.1, p0.2) <= hi && lo <= q.at(p1.0, p1.1, p1.2) <= hi);
    assert(lo <= q.at(p2.0, p2.1, p2.2) <= hi && lo <= q.at(p3.0, p3.1, p3.2) <= hi);
    lemma_falling_walk(v, (fraction(q, first), fraction(q, second), fraction(q, third)), lo, hi);
}

/// A sum that is at most one and a half steps off an exact value leaves the value's range by one
/// step at the most.
proof fn lemma_sum_in_range(sum: int, exact: int, lo: int, hi: int)
    requires
        -3 * 0x8000 <= 2 * (0x8000 * sum - exact) <= 3 * 0x8000,
        lo * 0x8000 <= exact <= hi * 0x8000,
        i16::MIN < lo,
        hi < i16::MAX,
    ensures
        lo - 1 <= sum <= hi + 1,
        wrap16(sum) == sum,
{
}

/// Tetrahedral interpolation is at most one and a half steps away from the exact value on the
/// tetrahedron, as long as no fraction is negative and the corners leave one step to spare at
/// either end of the range of 16 bits.
pub proof fn lemma_tetra_is_close(
    q: Lookup,
    n: nat,
    first: Axis,
    second: Axis,
    third: Axis,
    lo: int,
    hi: int,
)
    requires
        0 <= q.lane < n,
        corners_in(q, lo, hi),
        i16::MIN < lo,
        hi < i16::MAX,
        is_falling(q, first, second, third),
        q.r() >= 0,
        q.g() >= 0,
        q.b() >= 0,
    ensures
        ({
            let value = tetra_lanes(q.cube, q.cell(), q.grid, n)[q.lane];
            &&& -3 * 0x8000 <= 2 * (0x8000 * value - exact_walk(q, first, second, third)) <= 3
                * 0x8000
            &&& lo - 1 <= value <= hi + 1
        }),
{
    lemma_tetra_is_rounded_walk(q, n);
    lemma_rounded_walk_is_close(q, lo, hi);
    lemma_equal_fractions_may_change_places(q, (first, second, third), order_of(q));
    lemma_exact_walk_stays_between_the_corners(q, first, second, third, lo, hi);
    lemma_sum_in_range(rounded_walk(q), exact_walk(q, first, second, third), lo, hi);
}

/// The lane of the cube is a plane over the cell: each step along an axis adds the same, wherever
/// it is made.
pub open spec fn is_plane(q: Lookup, base: int, dx: int, dy: int, dz: int) -> bool {
    forall|x: bool, y: bool, z: bool| #[trigger]
        q.at(x, y, z) == base + dx * q.line(q.in_r, x) + dy * q.line(q.in_g, y) + dz * q.line(
            q.in_b,
            z,
        )
}

/// The value of a plane at the place of the inputs, times `0x8000`: each input stands on its near
/// grid line plus its fraction of the way to the far one.
pub open spec fn plane_at(q: Lookup, base: int, dx: int, dy: int, dz: int) -> int {
    let px = 0x8000 * q.line(q.in_r, false) + (q.line(q.in_r, true) - q.line(q.in_r, false))
        * q.r();
    let py = 0x8000 * q.line(q.in_g, false) + (q.line(q.in_g, true) - q.line(q.in_g, false))
        * q.g();
    let pz = 0x8000 * q.line(q.in_b, false) + (q.line(q.in_b, true) - q.line(q.in_b, false))
        * q.b();
    0x8000 * base + dx * px + dy * py + dz * pz
}

/// On a plane every order of the axes leads to the value of the plane.
proof fn lemma_walk_on_a_plane(
    q: Lookup,
    o: (Axis, Axis, Axis),
    base: int,
    dx: int,
    dy: int,
    dz: int,
)
    requires
        is_plane(q, base, dx, dy, dz),
        o.0 != o.1 && o.1 != o.2 && o.0 != o.2,
    ensures
        exact_walk(q, o.0, o.1, o.2) == plane_at(q, base, dx, dy, dz),
{
    let near = (false, false, false);
    let far = (true, true, true);
    let (x0, x1) = (q.line(q.in_r, false), q.line(q.in_r, true));
    let (y0, y1) = (q.line(q.in_g, false), q.line(q.in_g, true));
    let (z0, z1) = (q.line(q.in_b, false), q.line(q.in_b, true));
    let (r, g, b) = (q.r() as int, q.g() as int, q.b() as int);
    let (gx, gy, gz) = (dx * x1 - dx * x0, dy * y1 - dy * y0, dz * z1 - dz * z0);
    assert forall|y: bool, z: bool| #[trigger] q.at(true, y, z) - q.at(false, y, z) == gx by {}
    assert forall|x: bool, z: bool| #[trigger] q.at(x, true, z) - q.at(x, false, z) == gy by {}
    assert forall|x: bool, y: bool| #[trigger] q.at(x, y, true) - q.at(x, y, false) == gz by {}
    let start = 0x8000 * q.at(false, false, false);
    assert(exact_walk(q, o.0, o.1, o.2) == start + gx * r + gy * g + gz * b);
    let px = 0x8000 * x0 + (x1 - x0) * r;
    let py = 0x8000 * y0 + (y1 - y0) * g;
    let pz = 0x8000 * z0 + (z1 - z0) * b;
    assert(dx * px == 0x8000 * (dx * x0) + gx * r) by (nonlinear_arith)
        requires
            px == 0x8000 * x0 + (x1 - x0) * r,
            gx == dx * x1 - dx * x0,
    ;
    assert(dy * py == 0x8000 * (dy * y0) + gy * g) by (nonlinear_arith)
        requires
            py == 0x8000 * y0 + (y1 - y0) * g,
            gy == dy * y1 - dy * y0,
    ;
    assert(dz * pz == 0x8000 * (dz * z0) + gz * b) by (nonlinear_arith)
        requires
            pz == 0x8000 * z0 + (z1 - z0) * b,
            gz == dz * z1 - dz * z0,
    ;
    assert(q.at(false, false, false) == base + dx * x0 + dy * y0 + dz * z0);
}

/// A plane comes out as the plane: tetrahedral interpolation of a lane that rises evenly along
/// each axis is at most one and a half steps away from the plane's value at the inputs, whichever
/// tetrahedron they lie in.
pub proof fn lemma_tetra_keeps_planes(
    q: Lookup,
    n: nat,
    base: int,
    dx: int,
    dy: int,
    dz: int,
    lo: int,
    hi: int,
)
    requires
        0 <= q.lane < n,
        corners_in(q, lo, hi),
        i16::MIN < lo,
        hi < i16::MAX,
        q.r() >= 0,
        q.g() >= 0,
        q.b() >= 0,
        is_plane(q, base, dx, dy, dz),
    ensures
        -3 * 0x8000 <= 2 * (0x8000 * tetra_lanes(q.cube, q.cell(), q.grid, n)[q.lane] - plane_at(
            q,
            base,
            dx,
            dy,
            dz,
        )) <= 3 * 0x8000,
{
    let o = order_of(q);
    lemma_rounded_walk_is_close(q, lo, hi);
    lemma_tetra_is_close(q, n, o.0, o.1, o.2, lo, hi);
    lemma_walk_on_a_plane(q, o, base, dx, dy, dz);
}

} // verus!
