//! The grid cell that an input falls into, and the vertices of it that each method reads.

use vstd::prelude::*;

verus! {

/// Where one input value lies on a grid axis: between grid lines `x` and `x_n`, at the
/// fraction `w` of the way.
#[derive(Clone, Copy, Debug, Default)]
pub struct BarycentricWeight<V> {
    pub x: i32,
    pub x_n: i32,
    pub w: V,
}

/// A vertex of a grid cell: on each axis the near grid line, or the far one.
#[derive(Clone, Copy, Debug, PartialEq, Eq, Structural)]
pub struct Vertex {
    pub x: bool,
    pub y: bool,
    pub z: bool,
}

/// Two vertices of a cell; the value that counts is that of `to` less that of `from`.
#[derive(Clone, Copy, Debug, PartialEq, Eq, Structural)]
pub struct Edge {
    pub from: Vertex,
    pub to: Vertex,
}

/// The edge that is weighted with each of the three input fractions.
#[derive(Clone, Copy, Debug, PartialEq, Eq, Structural)]
pub struct EdgePlan {
    pub r: Edge,
    pub g: Edge,
    pub b: Edge,
}

/// Four vertices of a cell on one plane: `from`, its two neighbours, and the one across.
#[derive(Clone, Copy, Debug, PartialEq, Eq, Structural)]
pub struct Face {
    pub from: Vertex,
    pub u: Vertex,
    pub v: Vertex,
    pub across: Vertex,
}

/// Two of the three axes.
#[derive(Clone, Copy, Debug, PartialEq, Eq, Structural)]
pub enum AxisPair {
    Rg,
    Gb,
    Br,
}

/// A face with the two axes that span it.
#[derive(Clone, Copy, Debug, PartialEq, Eq, Structural)]
pub struct FaceTerm {
    pub face: Face,
    pub axes: AxisPair,
}

/// The edges and the face that the four-term pyramid reads.
#[derive(Clone, Copy, Debug, PartialEq, Eq, Structural)]
pub struct PyramidPlan {
    pub edges: EdgePlan,
    pub base: FaceTerm,
}

/// The edges and the two faces that the five-term prism reads.
#[derive(Clone, Copy, Debug, PartialEq, Eq, Structural)]
pub struct PrismPlan {
    pub edges: EdgePlan,
    pub gb: FaceTerm,
    pub rg: FaceTerm,
}

/// A grid cell with the place of an input in it.
#[derive(Debug)]
pub struct Cell<V> {
    pub x: i32,
    pub y: i32,
    pub z: i32,
    pub x_n: i32,
    pub y_n: i32,
    pub z_n: i32,
    pub r: V,
    pub g: V,
    pub b: V,
}

/// The vertex on the given sides.
pub open spec fn vx(x: bool, y: bool, z: bool) -> Vertex {
    Vertex { x, y, z }
}

impl<V> Cell<V> {
    /// The index in a cube of `grid` points a side at which vertex `v` stands.
    pub open spec fn offset_of(self, v: Vertex, grid: int) -> int {
        let x = if v.x { self.x_n } else { self.x };
        let y = if v.y { self.y_n } else { self.y };
        let z = if v.z { self.z_n } else { self.z };
        x * (grid * grid) + y * grid + z
    }

    /// Vertex `v` is on no negative grid line, and its index fits in 32 bits.
    pub open spec fn counts(self, v: Vertex, grid: int) -> bool {
        &&& 0 <= if v.x { self.x_n } else { self.x }
        &&& 0 <= if v.y { self.y_n } else { self.y }
        &&& 0 <= if v.z { self.z_n } else { self.z }
        &&& grid * grid <= u32::MAX
        &&& self.offset_of(v, grid) <= u32::MAX
    }

    /// Vertex `v` stands in a cube of `len` entries.
    pub open spec fn stands(self, v: Vertex, grid: int, len: int) -> bool {
        self.counts(v, grid) && self.offset_of(v, grid) < len
    }

    /// All eight vertices stand in a cube of `len` entries.
    pub open spec fn fits(self, grid: int, len: int) -> bool {
        forall|v: Vertex| #[trigger] self.stands(v, grid, len)
    }

    /// The near vertex and both ends of every edge of a plan stand in a cube of `len` entries.
    pub open spec fn edges_fit(self, plan: EdgePlan, grid: int, len: int) -> bool {
        &&& self.stands(vx(false, false, false), grid, len)
        &&& self.stands(plan.r.from, grid, len) && self.stands(plan.r.to, grid, len)
        &&& self.stands(plan.g.from, grid, len) && self.stands(plan.g.to, grid, len)
        &&& self.stands(plan.b.from, grid, len) && self.stands(plan.b.to, grid, len)
    }

    /// The four vertices of a face stand in a cube of `len` entries.
    pub open spec fn face_fits(self, f: Face, grid: int, len: int) -> bool {
        &&& self.stands(f.from, grid, len) && self.stands(f.u, grid, len)
        &&& self.stands(f.v, grid, len) && self.stands(f.across, grid, len)
    }

    /// Every grid line of the cell is one of the `grid` lines of its axis.
    pub open spec fn in_grid(self, grid: int) -> bool {
        &&& 0 <= self.x < grid && 0 <= self.x_n < grid
        &&& 0 <= self.y < grid && 0 <= self.y_n < grid
        &&& 0 <= self.z < grid && 0 <= self.z_n < grid
    }

    /// The index of a vertex in the cube.
    pub fn offset(&self, v: Vertex, grid: usize) -> (r: usize)
        requires
            self.counts(v, grid as int),
        ensures
            r == self.offset_of(v, grid as int),
    {
        let x = if v.x { self.x_n } else { self.x };
        let y = if v.y { self.y_n } else { self.y };
        let z = if v.z { self.z_n } else { self.z };
        assert(grid <= u32::MAX) by (nonlinear_arith)
            requires
                grid * grid <= u32::MAX,
                0 <= grid,
        ;
        let g: u32 = grid as u32;
        assert(0 <= x * (grid * grid)) by (nonlinear_arith)
            requires
                0 <= x,
                0 <= grid,
        ;
        assert(0 <= y * grid) by (nonlinear_arith)
            requires
                0 <= y,
                0 <= grid,
        ;
        let plane: u32 = g * g;
        let r: u32 = x as u32 * plane + y as u32 * g + z as u32;
        r as usize
    }
}

/// The cell of three inputs, looked up on the shared axis table.
pub open spec fn cell_of<V>(lut: Seq<BarycentricWeight<V>>, r: int, g: int, b: int) -> Cell<V> {
    Cell {
        x: lut[r].x,
        y: lut[g].x,
        z: lut[b].x,
        x_n: lut[r].x_n,
        y_n: lut[g].x_n,
        z_n: lut[b].x_n,
        r: lut[r].w,
        g: lut[g].w,
        b: lut[b].w,
    }
}

/// Looks the three inputs up on the shared axis table.
pub fn load_bary_weights<V: Copy, const BINS: usize>(
    lut: &[BarycentricWeight<V>; BINS],
    in_r: usize,
    in_g: usize,
    in_b: usize,
) -> (cell: Cell<V>)
    requires
        in_r < BINS,
        in_g < BINS,
        in_b < BINS,
    ensures
        cell == cell_of(lut@, in_r as int, in_g as int, in_b as int),
{
    Cell {
        x: lut[in_r].x,
        y: lut[in_g].x,
        z: lut[in_b].x,
        x_n: lut[in_r].x_n,
        y_n: lut[in_g].x_n,
        z_n: lut[in_b].x_n,
        r: lut[in_r].w,
        g: lut[in_g].w,
        b: lut[in_b].w,
    }
}

/// The edge that crosses the cell along one axis from the given vertex.
pub open spec fn edge(from: Vertex, to: Vertex) -> Edge {
    Edge { from, to }
}

/// The tetrahedral path from the near vertex to the far one. It crosses the axes in order
/// of falling fraction: an axis comes before another when its fraction compares so with the
/// other's, directly or through the third.
pub open spec fn tetra_plan_of(r_ge_g: bool, g_ge_b: bool, r_ge_b: bool) -> EdgePlan {
    let rg = r_ge_g;
    let rb = r_ge_b || (r_ge_g && g_ge_b);
    let gb = g_ge_b || (!r_ge_g && r_ge_b);
    EdgePlan {
        r: edge(vx(false, !rg, !rb), vx(true, !rg, !rb)),
        g: edge(vx(rg, false, !gb), vx(rg, true, !gb)),
        b: edge(vx(rb, gb, false), vx(rb, gb, true)),
    }
}

/// The three edges of the pyramid split. Which pyramid it is hangs on the smallest fraction;
/// where no fraction but the second can be said to be the smallest, the last one is taken.
pub open spec fn pyramid_plan_of(
    r_gt_b: bool,
    g_gt_b: bool,
    b_gt_r: bool,
    g_gt_r: bool,
) -> EdgePlan {
    let near = vx(false, false, false);
    let far = vx(true, true, true);
    if r_gt_b && g_gt_b {
        EdgePlan {
            r: edge(vx(true, true, false), far),
            g: edge(near, vx(true, false, false)),
            b: edge(near, vx(false, true, false)),
        }
    } else if b_gt_r && g_gt_r {
        EdgePlan {
            r: edge(vx(false, true, true), far),
            g: edge(near, vx(false, true, false)),
            b: edge(near, vx(false, false, true)),
        }
    } else {
        EdgePlan {
            r: edge(vx(true, false, true), far),
            g: edge(near, vx(true, false, false)),
            b: edge(near, vx(false, false, true)),
        }
    }
}

/// The three edges of the prism split, which hangs on the order of the first two fractions.
pub open spec fn prism_plan_of(r_gt_g: bool) -> EdgePlan {
    let near = vx(false, false, false);
    let far = vx(true, true, true);
    let first = vx(r_gt_g, !r_gt_g, false);
    EdgePlan {
        r: edge(vx(r_gt_g, !r_gt_g, true), far),
        g: edge(near, first),
        b: edge(near, vx(false, false, true)),
    }
}

/// Builds a vertex.
fn vertex(x: bool, y: bool, z: bool) -> (v: Vertex)
    ensures
        v == vx(x, y, z),
{
    Vertex { x, y, z }
}

/// Picks one of the six tetrahedra of a cell by the order of the three fractions.
pub fn tetra_plan(r_ge_g: bool, g_ge_b: bool, r_ge_b: bool) -> (plan: EdgePlan)
    ensures
        plan == tetra_plan_of(r_ge_g, g_ge_b, r_ge_b),
{
    let near = vertex(false, false, false);
    let far = vertex(true, true, true);
    let x = vertex(true, false, false);
    let y = vertex(false, true, false);
    let z = vertex(false, false, true);
    let xy = vertex(true, true, false);
    let xz = vertex(true, false, true);
    let yz = vertex(false, true, true);
    if r_ge_g {
        if g_ge_b {
            EdgePlan {
                r: Edge { from: near, to: x },
                g: Edge { from: x, to: xy },
                b: Edge { from: xy, to: far },
            }
        } else if r_ge_b {
            EdgePlan {
                r: Edge { from: near, to: x },
                g: Edge { from: xz, to: far },
                b: Edge { from: x, to: xz },
            }
        } else {
            EdgePlan {
                r: Edge { from: z, to: xz },
                g: Edge { from: xz, to: far },
                b: Edge { from: near, to: z },
            }
        }
    } else if r_ge_b {
        EdgePlan {
            r: Edge { from: y, to: xy },
            g: Edge { from: near, to: y },
            b: Edge { from: xy, to: far },
        }
    } else if g_ge_b {
        EdgePlan {
            r: Edge { from: yz, to: far },
            g: Edge { from: near, to: y },
            b: Edge { from: y, to: yz },
        }
    } else {
        EdgePlan {
            r: Edge { from: yz, to: far },
            g: Edge { from: z, to: yz },
            b: Edge { from: near, to: z },
        }
    }
}

/// Picks the pyramid of a cell by comparisons between the three fractions.
pub fn pyramid_plan(r_gt_b: bool, g_gt_b: bool, b_gt_r: bool, g_gt_r: bool) -> (plan: EdgePlan)
    ensures
        plan == pyramid_plan_of(r_gt_b, g_gt_b, b_gt_r, g_gt_r),
{
    let near = vertex(false, false, false);
    let far = vertex(true, true, true);
    if r_gt_b && g_gt_b {
        EdgePlan {
            r: Edge { from: vertex(true, true, false), to: far },
            g: Edge { from: near, to: vertex(true, false, false) },
            b: Edge { from: near, to: vertex(false, true, false) },
        }
    } else if b_gt_r && g_gt_r {
        EdgePlan {
            r: Edge { from: vertex(false, true, true), to: far },
            g: Edge { from: near, to: vertex(false, true, false) },
            b: Edge { from: near, to: vertex(false, false, true) },
        }
    } else {
        EdgePlan {
            r: Edge { from: vertex(true, false, true), to: far },
            g: Edge { from: near, to: vertex(true, false, false) },
            b: Edge { from: near, to: vertex(false, false, true) },
        }
    }
}

/// Picks the prism of a cell by the order of the first two fractions.
pub fn prism_plan(r_gt_g: bool) -> (plan: EdgePlan)
    ensures
        plan == prism_plan_of(r_gt_g),
{
    let near = vertex(false, false, false);
    let far = vertex(true, true, true);
    if r_gt_g {
        EdgePlan {
            r: Edge { from: vertex(true, false, true), to: far },
            g: Edge { from: near, to: vertex(true, false, false) },
            b: Edge { from: near, to: vertex(false, false, true) },
        }
    } else {
        EdgePlan {
            r: Edge { from: vertex(false, true, true), to: far },
            g: Edge { from: near, to: vertex(false, true, false) },
            b: Edge { from: near, to: vertex(false, false, true) },
        }
    }
}

/// The face between the two given vertices next to `from`.
pub open spec fn face(from: Vertex, u: Vertex, v: Vertex, across: Vertex) -> Face {
    Face { from, u, v, across }
}

/// The four-term pyramid. Its base is the face at the near vertex that lies along the two
/// axes with the larger fractions, and its tip is the far vertex. The edges next to the base
/// start at the near vertex, and the third one rises from the base to the tip.
pub open spec fn pyramid_face_plan_of(
    r_gt_b: bool,
    g_gt_b: bool,
    b_gt_r: bool,
    g_gt_r: bool,
) -> PyramidPlan {
    let near = vx(false, false, false);
    let x = vx(true, false, false);
    let y = vx(false, true, false);
    let z = vx(false, false, true);
    let far = vx(true, true, true);
    if r_gt_b && g_gt_b {
        let xy = vx(true, true, false);
        PyramidPlan {
            edges: EdgePlan { r: edge(near, x), g: edge(near, y), b: edge(xy, far) },
            base: FaceTerm { face: face(near, y, x, xy), axes: AxisPair::Rg },
        }
    } else if b_gt_r && g_gt_r {
        let yz = vx(false, true, true);
        PyramidPlan {
            edges: EdgePlan { r: edge(yz, far), g: edge(near, y), b: edge(near, z) },
            base: FaceTerm { face: face(near, y, z, yz), axes: AxisPair::Gb },
        }
    } else {
        let xz = vx(true, false, true);
        PyramidPlan {
            edges: EdgePlan { r: edge(near, x), g: edge(xz, far), b: edge(near, z) },
            base: FaceTerm { face: face(near, x, z, xz), axes: AxisPair::Br },
        }
    }
}

/// The five-term prism. The path along the first and the third axis takes the larger of the
/// two fractions first; each of its two steps drags a face along the second axis with it.
pub open spec fn prism_face_plan_of(b_gt_r: bool) -> PrismPlan {
    let near = vx(false, false, false);
    let x = vx(true, false, false);
    let y = vx(false, true, false);
    let z = vx(false, false, true);
    let xz = vx(true, false, true);
    let far = vx(true, true, true);
    if b_gt_r {
        let yz = vx(false, true, true);
        PrismPlan {
            edges: EdgePlan { r: edge(z, xz), g: edge(near, y), b: edge(near, z) },
            gb: FaceTerm { face: face(near, y, z, yz), axes: AxisPair::Gb },
            rg: FaceTerm { face: face(z, yz, xz, far), axes: AxisPair::Rg },
        }
    } else {
        let xy = vx(true, true, false);
        PrismPlan {
            edges: EdgePlan { r: edge(near, x), g: edge(near, y), b: edge(x, xz) },
            gb: FaceTerm { face: face(x, xy, xz, far), axes: AxisPair::Gb },
            rg: FaceTerm { face: face(near, y, x, xy), axes: AxisPair::Rg },
        }
    }
}

/// Picks the four-term pyramid by comparisons between the three fractions.
pub fn pyramid_face_plan(r_gt_b: bool, g_gt_b: bool, b_gt_r: bool, g_gt_r: bool) -> (plan:
    PyramidPlan)
    ensures
        plan == pyramid_face_plan_of(r_gt_b, g_gt_b, b_gt_r, g_gt_r),
{
    let near = vertex(false, false, false);
    let x = vertex(true, false, false);
    let y = vertex(false, true, false);
    let z = vertex(false, false, true);
    let far = vertex(true, true, true);
    if r_gt_b && g_gt_b {
        let xy = vertex(true, true, false);
        PyramidPlan {
            edges: EdgePlan {
                r: Edge { from: near, to: x },
                g: Edge { from: near, to: y },
                b: Edge { from: xy, to: far },
            },
            base: FaceTerm {
                face: Face { from: near, u: y, v: x, across: xy },
                axes: AxisPair::Rg,
            },
        }
    } else if b_gt_r && g_gt_r {
        let yz = vertex(false, true, true);
        PyramidPlan {
            edges: EdgePlan {
                r: Edge { from: yz, to: far },
                g: Edge { from: near, to: y },
                b: Edge { from: near, to: z },
            },
            base: FaceTerm {
                face: Face { from: near, u: y, v: z, across: yz },
                axes: AxisPair::Gb,
            },
        }
    } else {
        let xz = vertex(true, false, true);
        PyramidPlan {
            edges: EdgePlan {
                r: Edge { from: near, to: x },
                g: Edge { from: xz, to: far },
                b: Edge { from: near, to: z },
            },
            base: FaceTerm {
                face: Face { from: near, u: x, v: z, across: xz },
                axes: AxisPair::Br,
            },
        }
    }
}

/// Picks the five-term prism by the order of the first and the third fraction.
pub fn prism_face_plan(b_gt_r: bool) -> (plan: PrismPlan)
    ensures
        plan == prism_face_plan_of(b_gt_r),
{
    let near = vertex(false, false, false);
    let x = vertex(true, false, false);
    let y = vertex(false, true, false);
    let z = vertex(false, false, true);
    let xz = vertex(true, false, true);
    let far = vertex(true, true, true);
    if b_gt_r {
        let yz = vertex(false, true, true);
        PrismPlan {
            edges: EdgePlan {
                r: Edge { from: z, to: xz },
                g: Edge { from: near, to: y },
                b: Edge { from: near, to: z },
            },
            gb: FaceTerm { face: Face { from: near, u: y, v: z, across: yz }, axes: AxisPair::Gb },
            rg: FaceTerm { face: Face { from: z, u: yz, v: xz, across: far }, axes: AxisPair::Rg },
        }
    } else {
        let xy = vertex(true, true, false);
        PrismPlan {
            edges: EdgePlan {
                r: Edge { from: near, to: x },
                g: Edge { from: near, to: y },
                b: Edge { from: x, to: xz },
            },
            gb: FaceTerm { face: Face { from: x, u: xy, v: xz, across: far }, axes: AxisPair::Gb },
            rg: FaceTerm { face: Face { from: near, u: y, v: x, across: xy }, axes: AxisPair::Rg },
        }
    }
}

/// A cell of a cube with `grid` lines an axis stands in the cube, as long as the cube holds
/// all its points and they can be counted in 32 bits.
pub proof fn lemma_grid_cell_fits<V>(cell: Cell<V>, grid: int, len: int)
    requires
        cell.in_grid(grid),
        grid * grid * grid <= len,
        grid * grid * grid <= u32::MAX,
    ensures
        cell.fits(grid, len),
{
    assert(grid * grid <= grid * grid * grid) by (nonlinear_arith)
        requires
            grid >= 1,
    ;
    assert forall|v: Vertex| #[trigger] cell.stands(v, grid, len) by {
        lemma_offset_below(cell, v, grid);
    }
}

/// Every vertex of a cell in the grid has an index below the number of grid points.
pub proof fn lemma_offset_below<V>(cell: Cell<V>, v: Vertex, grid: int)
    requires
        cell.in_grid(grid),
    ensures
        0 <= cell.offset_of(v, grid) < grid * grid * grid,
{
    let x = if v.x { cell.x_n as int } else { cell.x as int };
    let y = if v.y { cell.y_n as int } else { cell.y as int };
    let z = if v.z { cell.z_n as int } else { cell.z as int };
    assert(0 <= x * (grid * grid) + y * grid + z < grid * grid * grid) by (nonlinear_arith)
        requires
            0 <= x <= grid - 1,
            0 <= y <= grid - 1,
            0 <= z <= grid - 1,
    ;
}

/// The index of a vertex on no negative grid line is not negative.
pub proof fn lemma_offset_not_negative<V>(cell: Cell<V>, v: Vertex, grid: int)
    requires
        cell.counts(v, grid),
        grid >= 0,
    ensures
        cell.offset_of(v, grid) >= 0,
{
    let x = if v.x { cell.x_n as int } else { cell.x as int };
    let y = if v.y { cell.y_n as int } else { cell.y as int };
    let z = if v.z { cell.z_n as int } else { cell.z as int };
    assert(x * (grid * grid) + y * grid + z >= 0) by (nonlinear_arith)
        requires
            x >= 0,
            y >= 0,
            z >= 0,
            grid >= 0,
    ;
}

/// The cell of three inputs has on each axis the grid lines and the fraction of its own input.
pub proof fn lemma_each_axis_has_its_own_input<V>(
    lut: Seq<BarycentricWeight<V>>,
    in_r: int,
    in_g: int,
    in_b: int,
)
    ensures
        ({
            let cell = cell_of(lut, in_r, in_g, in_b);
            &&& cell.x == lut[in_r].x && cell.x_n == lut[in_r].x_n && cell.r == lut[in_r].w
            &&& cell.y == lut[in_g].x && cell.y_n == lut[in_g].x_n && cell.g == lut[in_g].w
            &&& cell.z == lut[in_b].x && cell.z_n == lut[in_b].x_n && cell.b == lut[in_b].w
        }),
{
}

/// One grid line further on the third axis is the next entry of the cube, on the second it is
/// `grid` entries on, and on the first the square of that. The point on the first grid line of
/// every axis is the first entry.
pub proof fn lemma_cube_is_laid_out_row_by_row<V>(cell: Cell<V>, v: Vertex, grid: int)
    ensures
        ({
            let x = if v.x { cell.x_n as int } else { cell.x as int };
            let y = if v.y { cell.y_n as int } else { cell.y as int };
            let z = if v.z { cell.z_n as int } else { cell.z as int };
            cell.offset_of(v, grid) == (x * grid + y) * grid + z
        }),
{
    let x = if v.x { cell.x_n as int } else { cell.x as int };
    let y = if v.y { cell.y_n as int } else { cell.y as int };
    let z = if v.z { cell.z_n as int } else { cell.z as int };
    assert(x * (grid * grid) + y * grid + z == (x * grid + y) * grid + z) by (nonlinear_arith);
}

/// A vertex stands in the cube exactly where it is on no negative grid line and its index is one of
/// the cube's that can be counted in 32 bits, with the square of the grid's side.
pub proof fn lemma_vertex_stands_in_the_cube<V>(cell: Cell<V>, v: Vertex, grid: int, len: int)
    ensures
        cell.stands(v, grid, len) <==> {
            let x = if v.x { cell.x_n as int } else { cell.x as int };
            let y = if v.y { cell.y_n as int } else { cell.y as int };
            let z = if v.z { cell.z_n as int } else { cell.z as int };
            &&& x >= 0 && y >= 0 && z >= 0
            &&& grid * grid <= u32::MAX
            &&& (x * grid + y) * grid + z <= u32::MAX
            &&& (x * grid + y) * grid + z < len
        },
{
    lemma_cube_is_laid_out_row_by_row(cell, v, grid);
}

} // verus!
