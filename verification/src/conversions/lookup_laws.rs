//! What the interpolators give for three inputs, said of the axis table and the cube themselves.
//!
//! The axis table places each input between two grid lines. The eight points where the grid lines
//! of the three inputs meet are the corners; every interpolator makes its value of what the cube
//! holds there and of the three fractions.

use crate::conversions::accuracy::{lemma_trilinear_accuracy, lemma_trilinear_in_range, mix};
use crate::conversions::cell::{
    cell_of, lemma_grid_cell_fits, prism_face_plan_of, pyramid_face_plan_of, vx, BarycentricWeight,
    Cell, Edge, EdgePlan, Face, Vertex,
};
use crate::conversions::lanes::{mulhrs, wrap16};
use crate::conversions::simd_interp_q0_15::{
    along, cube_lanes, edge_sum, lane_at, prism_edges, prism_fits, prism_lanes, pyramid_edges,
    pyramid_fits, pyramid_lanes, tetra_edges, tetra_fits, tetra_lanes, trilinear_lanes,
    Aligned4I16,
};
use crate::conversions::simd_interp_q0_15_double::{
    cell_in_cube, cube_lanes_16, pair_weight, prism_five_fits, prism_five_lanes, pyramid_four_fits,
    pyramid_four_lanes, twist, Aligned16I16,
};
use vstd::prelude::*;

verus! {

/// Three inputs, the axis table they are looked up in, a cube with `grid` points a side, and one
/// lane of it.
pub struct Lookup {
    pub lut: Seq<BarycentricWeight<i16>>,
    pub in_r: int,
    pub in_g: int,
    pub in_b: int,
    pub cube: Seq<Seq<i16>>,
    pub grid: int,
    pub lane: int,
}

impl Lookup {
    /// The cell of the inputs.
    pub open spec fn cell(self) -> Cell<i16> {
        cell_of(self.lut, self.in_r, self.in_g, self.in_b)
    }

    /// The fraction of the first input.
    pub open spec fn r(self) -> i16 {
        self.lut[self.in_r].w
    }

    /// The fraction of the second input.
    pub open spec fn g(self) -> i16 {
        self.lut[self.in_g].w
    }

    /// The fraction of the third input.
    pub open spec fn b(self) -> i16 {
        self.lut[self.in_b].w
    }

    /// The grid line of an input: the near one or the far one.
    pub open spec fn line(self, input: int, far: bool) -> int {
        if far {
            self.lut[input].x_n as int
        } else {
            self.lut[input].x as int
        }
    }

    /// What the cube holds at a corner, which lies on the far grid line of the axes that are said
    /// to be far. The points of the cube follow one another along the third axis, then along the
    /// second, then along the first.
    #[verifier::opaque]
    pub open spec fn at(self, x_far: bool, y_far: bool, z_far: bool) -> i16 {
        let x = self.line(self.in_r, x_far);
        let y = self.line(self.in_g, y_far);
        let z = self.line(self.in_b, z_far);
        self.cube[(x * self.grid + y) * self.grid + z][self.lane]
    }

    /// What the value gains from one corner to another.
    pub open spec fn gain(self, from: (bool, bool, bool), to: (bool, bool, bool)) -> int {
        self.at(to.0, to.1, to.2) - self.at(from.0, from.1, from.2)
    }
}

/// A gain weighted with a fraction, in Q0.15. A gain beyond 16 bits wraps around.
pub open spec fn weighted(gain: int, w: i16) -> int {
    mulhrs(wrap16(gain), w) as int
}

/// Reducing to 16 bits changes a number by a multiple of 2^16, and a number of 16 bits not at all.
pub proof fn lemma_wrapping_is_modulo_two_to_sixteen(i: int)
    ensures
        (wrap16(i) - i) % 0x1_0000 == 0,
        i16::MIN <= i <= i16::MAX ==> wrap16(i) == i,
{
}

/// A corner's value is what the cell finds at the vertex.
proof fn lemma_corner(q: Lookup, v: Vertex)
    ensures
        lane_at(q.cube, q.cell(), q.grid, q.lane)(v) == q.at(v.x, v.y, v.z),
{
    reveal(Lookup::at);
    let x = q.line(q.in_r, v.x);
    let y = q.line(q.in_g, v.y);
    let z = q.line(q.in_b, v.z);
    let grid = q.grid;
    assert(x * (grid * grid) + y * grid + z == (x * grid + y) * grid + z) by (nonlinear_arith);
    assert(q.cell().offset_of(v, grid) == (x * grid + y) * grid + z);
}

/// What the value gains along an edge.
spec fn edge_gain(q: Lookup, e: Edge) -> int {
    q.gain((e.from.x, e.from.y, e.from.z), (e.to.x, e.to.y, e.to.z))
}

/// The near corner's value and the weighted gains along the edges of a plan.
spec fn planned_sum(q: Lookup, p: EdgePlan) -> int {
    q.at(false, false, false) + weighted(edge_gain(q, p.r), q.r()) + weighted(
        edge_gain(q, p.g),
        q.g(),
    ) + weighted(edge_gain(q, p.b), q.b())
}

/// What a sum along the edges of a plan is, corner by corner.
proof fn lemma_edge_sum(q: Lookup, p: EdgePlan)
    ensures
        edge_sum(lane_at(q.cube, q.cell(), q.grid, q.lane), p, q.r(), q.g(), q.b()) == wrap16(
            planned_sum(q, p),
        ),
{
    let at = lane_at(q.cube, q.cell(), q.grid, q.lane);
    lemma_corner(q, vx(false, false, false));
    lemma_corner(q, p.r.from);
    lemma_corner(q, p.r.to);
    lemma_corner(q, p.g.from);
    lemma_corner(q, p.g.to);
    lemma_corner(q, p.b.from);
    lemma_corner(q, p.b.to);
    lemma_sum_wraps_once(
        at(vx(false, false, false)) as int,
        mulhrs(along(at, p.r), q.r()) as int,
        mulhrs(along(at, p.g), q.g()) as int,
        mulhrs(along(at, p.b), q.b()) as int,
    );
}

/// Wrapping around once at the end is the same as after every step.
proof fn lemma_sum_wraps_once(c: int, m1: int, m2: int, m3: int)
    ensures
        wrap16(wrap16(wrap16(c + m1) + m2) + m3) == wrap16(c + m1 + m2 + m3),
{
}

/// Tetrahedral interpolation walks from the near corner to the far one, along the axis with the
/// largest fraction first and along the one with the smallest last, and adds what it gains on each
/// leg times the fraction of the leg's axis. Of equal fractions that of the earlier axis counts as
/// the larger.
pub proof fn lemma_tetra_walks_by_falling_fractions(q: Lookup, n: nat)
    requires
        0 <= q.lane < n,
    ensures
        ({
            let near = (false, false, false);
            let far = (true, true, true);
            let (x, y, z) = ((true, false, false), (false, true, false), (false, false, true));
            let (xy, xz, yz) = ((true, true, false), (true, false, true), (false, true, true));
            let (r, g, b) = (q.r(), q.g(), q.b());
            let start = q.at(false, false, false);
            let value = tetra_lanes(q.cube, q.cell(), q.grid, n)[q.lane];
            &&& r >= g >= b ==> value == wrap16(
                start + weighted(q.gain(near, x), r) + weighted(q.gain(x, xy), g) + weighted(
                    q.gain(xy, far),
                    b,
                ),
            )
            &&& r >= b > g ==> value == wrap16(
                start + weighted(q.gain(near, x), r) + weighted(q.gain(x, xz), b) + weighted(
                    q.gain(xz, far),
                    g,
                ),
            )
            &&& b > r >= g ==> value == wrap16(
                start + weighted(q.gain(near, z), b) + weighted(q.gain(z, xz), r) + weighted(
                    q.gain(xz, far),
                    g,
                ),
            )
            &&& g > r >= b ==> value == wrap16(
                start + weighted(q.gain(near, y), g) + weighted(q.gain(y, xy), r) + weighted(
                    q.gain(xy, far),
                    b,
                ),
            )
            &&& g >= b > r ==> value == wrap16(
                start + weighted(q.gain(near, y), g) + weighted(q.gain(y, yz), b) + weighted(
                    q.gain(yz, far),
                    r,
                ),
            )
            &&& b > g > r ==> value == wrap16(
                start + weighted(q.gain(near, z), b) + weighted(q.gain(z, yz), g) + weighted(
                    q.gain(yz, far),
                    r,
                ),
            )
        }),
{
    lemma_edge_sum(q, tetra_edges(q.cell()));
}

/// One step from a value towards another at the fraction `w`, in Q0.15.
pub open spec fn towards(from: i16, to: i16, w: i16) -> i16 {
    wrap16(from + weighted(to - from, w))
}

/// Trilinear interpolation goes along the first axis on the four edges that lie along it, then
/// along the second axis between the results, then along the third.
pub proof fn lemma_trilinear_goes_axis_by_axis(q: Lookup, n: nat)
    requires
        0 <= q.lane < n,
    ensures
        ({
            let edge = |y: bool, z: bool| towards(q.at(false, y, z), q.at(true, y, z), q.r());
            let side = |z: bool| towards(edge(false, z), edge(true, z), q.g());
            trilinear_lanes(q.cube, q.cell(), q.grid, n)[q.lane] == towards(
                side(false),
                side(true),
                q.b(),
            )
        }),
{
    lemma_corner(q, vx(false, false, false));
    lemma_corner(q, vx(true, false, false));
    lemma_corner(q, vx(false, true, false));
    lemma_corner(q, vx(true, true, false));
    lemma_corner(q, vx(false, false, true));
    lemma_corner(q, vx(true, false, true));
    lemma_corner(q, vx(false, true, true));
    lemma_corner(q, vx(true, true, true));
}

/// Three-term pyramidal interpolation adds three weighted gains to the near corner's value: with
/// the first fraction the gain to the far corner along the axis with the smallest fraction, and
/// with the other two the gains from the near corner along the other two axes, the earlier one
/// first. The second axis counts as the one with the smallest fraction where neither of the others
/// is below both.
pub proof fn lemma_pyramid_adds_three_gains(q: Lookup, n: nat)
    requires
        0 <= q.lane < n,
    ensures
        ({
            let near = (false, false, false);
            let far = (true, true, true);
            let (x, y, z) = ((true, false, false), (false, true, false), (false, false, true));
            let (xy, xz, yz) = ((true, true, false), (true, false, true), (false, true, true));
            let (r, g, b) = (q.r(), q.g(), q.b());
            let start = q.at(false, false, false);
            let value = pyramid_lanes(q.cube, q.cell(), q.grid, n)[q.lane];
            &&& b < r && b < g ==> value == wrap16(
                start + weighted(q.gain(xy, far), r) + weighted(q.gain(near, x), g) + weighted(
                    q.gain(near, y),
                    b,
                ),
            )
            &&& r < b && r < g ==> value == wrap16(
                start + weighted(q.gain(yz, far), r) + weighted(q.gain(near, y), g) + weighted(
                    q.gain(near, z),
                    b,
                ),
            )
            &&& !(b < r && b < g) && !(r < b && r < g) ==> value == wrap16(
                start + weighted(q.gain(xz, far), r) + weighted(q.gain(near, x), g) + weighted(
                    q.gain(near, z),
                    b,
                ),
            )
        }),
{
    lemma_edge_sum(q, pyramid_edges(q.cell()));
}

/// Three-term prismatic interpolation adds three weighted gains to the near corner's value: with
/// the first fraction the gain to the far corner along the axis with the smaller one of the first
/// two fractions, with the second the gain from the near corner along the axis with the larger one,
/// and with the third the gain from the near corner along the third axis.
pub proof fn lemma_prism_adds_three_gains(q: Lookup, n: nat)
    requires
        0 <= q.lane < n,
    ensures
        ({
            let near = (false, false, false);
            let far = (true, true, true);
            let (x, y, z) = ((true, false, false), (false, true, false), (false, false, true));
            let (xz, yz) = ((true, false, true), (false, true, true));
            let (r, g, b) = (q.r(), q.g(), q.b());
            let start = q.at(false, false, false);
            let value = prism_lanes(q.cube, q.cell(), q.grid, n)[q.lane];
            &&& r > g ==> value == wrap16(
                start + weighted(q.gain(xz, far), r) + weighted(q.gain(near, x), g) + weighted(
                    q.gain(near, z),
                    b,
                ),
            )
            &&& r <= g ==> value == wrap16(
                start + weighted(q.gain(yz, far), r) + weighted(q.gain(near, y), g) + weighted(
                    q.gain(near, z),
                    b,
                ),
            )
        }),
{
    lemma_edge_sum(q, prism_edges(q.cell()));
}

impl Lookup {
    /// How far the fourth corner of a face is off the plane through the other three, where `a` and
    /// `c` stand across from one another.
    pub open spec fn bend(
        self,
        a: (bool, bool, bool),
        b: (bool, bool, bool),
        c: (bool, bool, bool),
        d: (bool, bool, bool),
    ) -> int {
        self.gain(b, c) - self.gain(a, d)
    }
}

/// How far the fourth corner of a face is off the plane through the other three.
spec fn face_bend(q: Lookup, f: Face) -> int {
    q.bend(
        (f.from.x, f.from.y, f.from.z),
        (f.u.x, f.u.y, f.u.z),
        (f.across.x, f.across.y, f.across.z),
        (f.v.x, f.v.y, f.v.z),
    )
}

/// What a face's twist is, corner by corner.
proof fn lemma_twist(q: Lookup, f: Face)
    ensures
        twist(lane_at(q.cube, q.cell(), q.grid, q.lane), f) == wrap16(face_bend(q, f)),
{
    lemma_corner(q, f.from);
    lemma_corner(q, f.u);
    lemma_corner(q, f.v);
    lemma_corner(q, f.across);
}

/// Adding to a wrapped number wraps around once.
proof fn lemma_plus_wraps_once(sum: int, m: int)
    ensures
        wrap16(wrap16(sum) + m) == wrap16(sum + m),
{
}

/// What the four-term pyramid adds up.
proof fn lemma_pyramid_sum(q: Lookup, n: nat)
    requires
        0 <= q.lane < n,
    ensures
        ({
            let plan = pyramid_face_plan_of(
                q.r() > q.b(),
                q.g() > q.b(),
                q.b() > q.r(),
                q.g() > q.r(),
            );
            pyramid_four_lanes(q.cube, q.cell(), q.grid, n)[q.lane] == wrap16(
                planned_sum(q, plan.edges) + weighted(
                    face_bend(q, plan.base.face),
                    pair_weight(plan.base.axes, q.r(), q.g(), q.b()),
                ),
            )
        }),
{
    let (r, g, b) = (q.r(), q.g(), q.b());
    let plan = pyramid_face_plan_of(r > b, g > b, b > r, g > r);
    let at = lane_at(q.cube, q.cell(), q.grid, q.lane);
    lemma_edge_sum(q, plan.edges);
    lemma_twist(q, plan.base.face);
    let k = pair_weight(plan.base.axes, r, g, b);
    lemma_plus_wraps_once(planned_sum(q, plan.edges), mulhrs(twist(at, plan.base.face), k) as int);
}

/// What the five-term prism adds up.
proof fn lemma_prism_sum(q: Lookup, n: nat)
    requires
        0 <= q.lane < n,
    ensures
        ({
            let plan = prism_face_plan_of(q.b() > q.r());
            prism_five_lanes(q.cube, q.cell(), q.grid, n)[q.lane] == wrap16(
                planned_sum(q, plan.edges) + weighted(
                    face_bend(q, plan.gb.face),
                    mulhrs(q.g(), q.b()),
                ) + weighted(face_bend(q, plan.rg.face), mulhrs(q.r(), q.g())),
            )
        }),
{
    let (r, g, b) = (q.r(), q.g(), q.b());
    let plan = prism_face_plan_of(b > r);
    let at = lane_at(q.cube, q.cell(), q.grid, q.lane);
    lemma_edge_sum(q, plan.edges);
    lemma_twist(q, plan.gb.face);
    lemma_twist(q, plan.rg.face);
    let sum = planned_sum(q, plan.edges);
    let m1 = mulhrs(twist(at, plan.gb.face), mulhrs(g, b)) as int;
    let m2 = mulhrs(twist(at, plan.rg.face), mulhrs(r, g)) as int;
    lemma_plus_wraps_once(sum, m1);
    lemma_plus_wraps_once(sum + m1, m2);
}

/// Four-term pyramidal interpolation is bilinear on the face at the near corner that lies along the
/// two axes with the larger fractions, and linear along the third axis from there to the far
/// corner. The second axis counts as the one with the smallest fraction where neither of the others
/// is below both.
pub proof fn lemma_pyramid_rises_from_its_base(q: Lookup, n: nat)
    requires
        0 <= q.lane < n,
    ensures
        ({
            let near = (false, false, false);
            let far = (true, true, true);
            let (x, y, z) = ((true, false, false), (false, true, false), (false, false, true));
            let (xy, xz, yz) = ((true, true, false), (true, false, true), (false, true, true));
            let (r, g, b) = (q.r(), q.g(), q.b());
            let start = q.at(false, false, false);
            let value = pyramid_four_lanes(q.cube, q.cell(), q.grid, n)[q.lane];
            &&& b < r && b < g ==> value == wrap16(
                start + weighted(q.gain(near, x), r) + weighted(q.gain(near, y), g) + weighted(
                    q.gain(xy, far),
                    b,
                ) + weighted(q.bend(near, x, xy, y), mulhrs(r, g)),
            )
            &&& r < b && r < g ==> value == wrap16(
                start + weighted(q.gain(near, y), g) + weighted(q.gain(near, z), b) + weighted(
                    q.gain(yz, far),
                    r,
                ) + weighted(q.bend(near, y, yz, z), mulhrs(g, b)),
            )
            &&& !(b < r && b < g) && !(r < b && r < g) ==> value == wrap16(
                start + weighted(q.gain(near, x), r) + weighted(q.gain(near, z), b) + weighted(
                    q.gain(xz, far),
                    g,
                ) + weighted(q.bend(near, x, xz, z), mulhrs(b, r)),
            )
        }),
{
    lemma_pyramid_sum(q, n);
}

/// Five-term prismatic interpolation is linear along the first and the third axis, the one with the
/// larger fraction first and the first one where they are equal, with the second axis across: each
/// of the two legs takes the face along with it that it spans with the second axis.
pub proof fn lemma_prism_takes_two_faces_along(q: Lookup, n: nat)
    requires
        0 <= q.lane < n,
    ensures
        ({
            let near = (false, false, false);
            let far = (true, true, true);
            let (x, y, z) = ((true, false, false), (false, true, false), (false, false, true));
            let (xy, xz, yz) = ((true, true, false), (true, false, true), (false, true, true));
            let (r, g, b) = (q.r(), q.g(), q.b());
            let start = q.at(false, false, false) + weighted(q.gain(near, y), g);
            let value = prism_five_lanes(q.cube, q.cell(), q.grid, n)[q.lane];
            &&& b > r ==> value == wrap16(
                start + weighted(q.gain(near, z), b) + weighted(
                    q.bend(near, y, yz, z),
                    mulhrs(g, b),
                ) + weighted(q.gain(z, xz), r) + weighted(q.bend(z, yz, far, xz), mulhrs(r, g)),
            )
            &&& b <= r ==> value == wrap16(
                start + weighted(q.gain(near, x), r) + weighted(
                    q.bend(near, y, xy, x),
                    mulhrs(r, g),
                ) + weighted(q.gain(x, xz), b) + weighted(q.bend(x, xy, far, xz), mulhrs(g, b)),
            )
        }),
{
    lemma_prism_sum(q, n);
}

/// Trilinear interpolation is at most one and a half steps away from the weighted mean of the eight
/// corners, in which each axis shares its fraction with the far side and the rest with the near
/// one, and it stays between the corners. No fraction may be negative, and no two corners may be so
/// far apart that their difference leaves 16 bits.
pub proof fn lemma_trilinear_is_close(q: Lookup, n: nat, lo: int, hi: int)
    requires
        0 <= q.lane < n,
        hi - lo <= i16::MAX,
        forall|x: bool, y: bool, z: bool| lo <= #[trigger] q.at(x, y, z) <= hi,
        q.r() >= 0,
        q.g() >= 0,
        q.b() >= 0,
    ensures
        ({
            let (r, g, b) = (q.r() as int, q.g() as int, q.b() as int);
            let edge = |y: bool, z: bool| mix(q.at(false, y, z) as int, q.at(true, y, z) as int, r);
            let side = |z: bool| mix(edge(false, z), edge(true, z), g);
            let value = trilinear_lanes(q.cube, q.cell(), q.grid, n)[q.lane];
            let off = 0x2000_0000_0000 * value - mix(side(false), side(true), b);
            &&& -3 * 0x2000_0000_0000 <= 2 * off <= 3 * 0x2000_0000_0000
            &&& lo <= value <= hi
        }),
{
    let at = lane_at(q.cube, q.cell(), q.grid, q.lane);
    assert forall|v: Vertex| lo <= #[trigger] at(v) <= hi by {
        lemma_corner(q, v);
        assert(lo <= q.at(v.x, v.y, v.z) <= hi);
    }
    lemma_corner(q, vx(false, false, false));
    lemma_corner(q, vx(true, false, false));
    lemma_corner(q, vx(false, true, false));
    lemma_corner(q, vx(true, true, false));
    lemma_corner(q, vx(false, false, true));
    lemma_corner(q, vx(true, false, true));
    lemma_corner(q, vx(false, true, true));
    lemma_corner(q, vx(true, true, true));
    lemma_trilinear_accuracy(at, q.r(), q.g(), q.b(), lo, hi);
    lemma_trilinear_in_range(at, q.r(), q.g(), q.b(), lo, hi);
}

/// The eight lanes of a cube entry are its four values and four zeros.
pub proof fn lemma_entries_of_four_fill_the_low_lanes(cube: Seq<Aligned4I16>, k: int, i: int)
    requires
        0 <= k < cube.len(),
        0 <= i < 8,
    ensures
        cube_lanes(cube).len() == cube.len(),
        cube_lanes(cube)[k].len() == 8,
        i < 4 ==> cube_lanes(cube)[k][i] == cube[k].0@[i],
        i >= 4 ==> cube_lanes(cube)[k][i] == 0,
{
}

/// The sixteen lanes of a cube entry are its sixteen values.
pub proof fn lemma_entries_of_sixteen_fill_the_lanes(cube: Seq<Aligned16I16>, k: int, i: int)
    requires
        0 <= k < cube.len(),
        0 <= i < 16,
    ensures
        cube_lanes_16(cube).len() == cube.len(),
        cube_lanes_16(cube)[k].len() == 16,
        cube_lanes_16(cube)[k][i] == cube[k].0@[i],
{
}

/// Every method gives as many lanes as it is asked for.
pub proof fn lemma_all_lanes_are_given(cube: Seq<Seq<i16>>, cell: Cell<i16>, grid: int, n: nat)
    ensures
        tetra_lanes(cube, cell, grid, n).len() == n,
        trilinear_lanes(cube, cell, grid, n).len() == n,
        pyramid_lanes(cube, cell, grid, n).len() == n,
        prism_lanes(cube, cell, grid, n).len() == n,
        pyramid_four_lanes(cube, cell, grid, n).len() == n,
        prism_five_lanes(cube, cell, grid, n).len() == n,
{
}

/// Inputs that lie between grid lines of the cube can be looked up with every method, as long as
/// the cube holds all points of the grid and they can be counted in 32 bits.
pub proof fn lemma_inputs_on_the_grid_can_be_looked_up(
    lut: Seq<BarycentricWeight<i16>>,
    in_r: int,
    in_g: int,
    in_b: int,
    grid: int,
    len: int,
)
    requires
        forall|i: int|
            i == in_r || i == in_g || i == in_b ==> 0 <= (#[trigger] lut[i]).x < grid && 0
                <= lut[i].x_n < grid,
        grid * grid * grid <= len,
        grid * grid * grid <= u32::MAX,
    ensures
        ({
            let cell = cell_of(lut, in_r, in_g, in_b);
            &&& tetra_fits(cell, grid, len)
            &&& cell.fits(grid, len)
            &&& pyramid_fits(cell, grid, len)
            &&& prism_fits(cell, grid, len)
            &&& cell_in_cube(cell, grid, len)
            &&& pyramid_four_fits(cell, grid, len)
            &&& prism_five_fits(cell, grid, len)
        }),
{
    let cell = cell_of(lut, in_r, in_g, in_b);
    assert(0 <= lut[in_r].x < grid && 0 <= lut[in_g].x < grid && 0 <= lut[in_b].x < grid);
    lemma_grid_cell_fits(cell, grid, len);
    assert forall|v: Vertex| #[trigger] cell.stands(v, grid, len) by {}
}

} // verus!
