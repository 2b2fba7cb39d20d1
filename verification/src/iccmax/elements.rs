//! The processing elements `cvst` and `matf`, and `fl32` number arrays.
//!
//! Floating-point numbers are kept as the binary32 patterns that the profile stores.

use crate::bytes::{
    be16, be32, be32_list, range_error, range_of, read_be16, read_be32, read_be32_list, take_range,
};
use crate::err::CmsError;
use crate::iccmax::segmented_curve::{
    curve_error, curve_of, SegmentedCurve, SegmentedCurveView, SIG_CURF,
};
use vstd::prelude::*;

verus! {

/// The signature `fl32`.
pub const SIG_FL32: u32 = 0x666c_3332;

/// The signature `cvst`.
pub const SIG_CVST: u32 = 0x6376_7374;

/// The signature `matf`.
pub const SIG_MATF: u32 = 0x6d61_7466;

/// The binary32 pattern of one.
pub const F32_ONE: u32 = 0x3f80_0000;

/// A tone curve as a profile gives it.
#[derive(Clone, Debug)]
pub enum CurveSource {
    /// The curve that changes nothing.
    Identity,
    /// A segmented curve. With `invert` the tone curve is its inverse.
    Segmented { curve: SegmentedCurve, invert: bool },
}

/// What a tone curve holds.
pub enum CurveSourceView {
    Identity,
    Segmented { curve: SegmentedCurveView, invert: bool },
}

impl View for CurveSource {
    type V = CurveSourceView;

    open spec fn view(&self) -> CurveSourceView {
        match self {
            CurveSource::Identity => CurveSourceView::Identity,
            CurveSource::Segmented { curve, invert } => CurveSourceView::Segmented {
                curve: curve@,
                invert: *invert,
            },
        }
    }
}

/// A matrix of three rows of three binary32 patterns.
#[derive(Clone, Copy, Debug)]
pub struct Matrix3d {
    pub v: [[u32; 3]; 3],
}

impl View for Matrix3d {
    type V = Seq<Seq<u32>>;

    open spec fn view(&self) -> Seq<Seq<u32>> {
        seq![self.v@[0]@, self.v@[1]@, self.v@[2]@]
    }
}

/// Three binary32 patterns.
#[derive(Clone, Copy, Debug)]
pub struct Vector3d {
    pub v: [u32; 3],
}

impl View for Vector3d {
    type V = Seq<u32>;

    open spec fn view(&self) -> Seq<u32> {
        self.v@
    }
}

/// The rows of the identity matrix.
pub open spec fn identity_matrix() -> Seq<Seq<u32>> {
    seq![seq![F32_ONE, 0u32, 0u32], seq![0u32, F32_ONE, 0u32], seq![0u32, 0u32, F32_ONE]]
}

impl Matrix3d {
    /// The identity matrix.
    pub fn identity() -> (m: Matrix3d)
        ensures
            m@ == identity_matrix(),
    {
        let m = Matrix3d { v: [[F32_ONE, 0, 0], [0, F32_ONE, 0], [0, 0, F32_ONE]] };
        assert(m@[0] =~= identity_matrix()[0]);
        assert(m@[1] =~= identity_matrix()[1]);
        assert(m@[2] =~= identity_matrix()[2]);
        assert(m@ =~= identity_matrix());
        m
    }
}

impl Vector3d {
    /// The zero vector.
    pub fn zero() -> (v: Vector3d)
        ensures
            v@ == seq![0u32, 0u32, 0u32],
    {
        let v = Vector3d { v: [0, 0, 0] };
        assert(v@ =~= seq![0u32, 0u32, 0u32]);
        v
    }
}

/// Whether `blob` is an `fl32` array.
pub open spec fn is_fl32(blob: Seq<u8>) -> bool {
    blob.len() >= 8 && be32(blob, 0) == SIG_FL32
}

/// The numbers of an `fl32` array: as many as fit behind its header of eight bytes.
pub open spec fn fl32_of(blob: Seq<u8>) -> Seq<u32> {
    be32_list(blob, 8, ((blob.len() - 8) / 4) as nat)
}

/// Reads an `fl32` array.
pub fn read_fl32_array(blob: &[u8]) -> (r: Result<Vec<u32>, CmsError>)
    ensures
        !is_fl32(blob@) ==> r == Err::<Vec<u32>, CmsError>(CmsError::InvalidProfile),
        is_fl32(blob@) ==> r is Ok && r->Ok_0@ == fl32_of(blob@),
{
    if blob.len() < 8 {
        return Err(CmsError::InvalidProfile);
    }
    if read_be32(blob, 0) != SIG_FL32 {
        return Err(CmsError::InvalidProfile);
    }
    let n: usize = (blob.len() - 8) / 4;
    Ok(read_be32_list(blob, 8, n))
}

/// Reads a segmented curve. With `invert` the tone curve is the inverse of what is stored.
pub fn read_segmented_curve(blob: &[u8], invert: bool) -> (r: Result<CurveSource, CmsError>)
    ensures
        match curve_error(blob@) {
            Some(e) => r == Err::<CurveSource, CmsError>(e),
            None => r is Ok && r->Ok_0@ == (CurveSourceView::Segmented {
                curve: curve_of(blob@),
                invert,
            }) && curve_of(blob@).well_formed(),
        },
{
    match SegmentedCurve::read(blob) {
        Err(e) => Err(e),
        Ok(curve) => Ok(CurveSource::Segmented { curve, invert }),
    }
}

/// Whether `blob` is a `matf` element of three inputs and three outputs.
pub open spec fn is_matf(blob: Seq<u8>) -> bool {
    &&& blob.len() >= 60
    &&& be32(blob, 0) == SIG_MATF
    &&& be16(blob, 8) == 3
    &&& be16(blob, 10) == 3
}

/// The matrix of a `matf` element, row by row.
pub open spec fn matf_matrix(blob: Seq<u8>) -> Seq<Seq<u32>> {
    seq![be32_list(blob, 12, 3), be32_list(blob, 24, 3), be32_list(blob, 36, 3)]
}

/// The offset vector of a `matf` element, which stands behind the matrix.
pub open spec fn matf_offset(blob: Seq<u8>) -> Seq<u32> {
    be32_list(blob, 48, 3)
}

/// Reads three numbers from `at` on.
fn read_triple(blob: &[u8], at: usize) -> (r: [u32; 3])
    requires
        at + 12 <= blob@.len(),
    ensures
        r@ == be32_list(blob@, at as int, 3),
{
    assert(blob.len() == blob@.len());
    let r: [u32; 3] = [read_be32(blob, at), read_be32(blob, at + 4), read_be32(blob, at + 8)];
    assert(r@ =~= be32_list(blob@, at as int, 3));
    r
}

/// Reads a `matf` element: the matrix, and the offset that is added after it.
pub fn read_matf_element(blob: &[u8]) -> (r: Result<(Matrix3d, Vector3d), CmsError>)
    ensures
        !is_matf(blob@) ==> r == Err::<(Matrix3d, Vector3d), CmsError>(CmsError::InvalidProfile),
        is_matf(blob@) ==> r is Ok && r->Ok_0.0@ == matf_matrix(blob@) && r->Ok_0.1@
            == matf_offset(blob@),
{
    if blob.len() < 12 {
        return Err(CmsError::InvalidProfile);
    }
    if read_be32(blob, 0) != SIG_MATF {
        return Err(CmsError::InvalidProfile);
    }
    let in_ch: u16 = read_be16(blob, 8);
    let out_ch: u16 = read_be16(blob, 10);
    if in_ch != 3 || out_ch != 3 {
        return Err(CmsError::InvalidProfile);
    }
    if blob.len() < 60 {
        return Err(CmsError::InvalidProfile);
    }
    let m = Matrix3d { v: [read_triple(blob, 12), read_triple(blob, 24), read_triple(blob, 36)] };
    assert(m@ =~= matf_matrix(blob@));
    Ok((m, Vector3d { v: read_triple(blob, 48) }))
}

/// How many curves a `cvst` element has: one for each of its inputs or outputs, whichever
/// are more.
pub open spec fn cvst_count(blob: Seq<u8>) -> nat {
    let (i, o) = (be16(blob, 8) as nat, be16(blob, 10) as nat);
    if i >= o {
        i
    } else {
        o
    }
}

/// The bytes of the curve with index `i` of a `cvst` element.
pub open spec fn cvst_blob(blob: Seq<u8>, i: int) -> Seq<u8> {
    range_of(blob, be32(blob, 12 + 8 * i) as int, be32(blob, 16 + 8 * i) as int)
}

/// Why the curve with index `i` of a `cvst` element cannot be read.
pub open spec fn cvst_curve_error(blob: Seq<u8>, i: int) -> Option<CmsError> {
    let offset = be32(blob, 12 + 8 * i) as int;
    let size = be32(blob, 16 + 8 * i) as int;
    if range_error(blob.len() as int, offset, size) is Some {
        range_error(blob.len() as int, offset, size)
    } else if size < 4 {
        Some(CmsError::InvalidProfile)
    } else if be32(blob, offset) == SIG_CURF {
        curve_error(cvst_blob(blob, i))
    } else {
        None
    }
}

/// The curve with index `i` of a `cvst` element. Only segmented curves are understood; any
/// other kind counts as the identity.
pub open spec fn cvst_curve(blob: Seq<u8>, i: int) -> CurveSourceView {
    if be32(blob, be32(blob, 12 + 8 * i) as int) == SIG_CURF {
        CurveSourceView::Segmented { curve: curve_of(cvst_blob(blob, i)), invert: false }
    } else {
        CurveSourceView::Identity
    }
}

/// Why the curves from index `i` on cannot be read: what is wrong with the first of them that
/// is in error.
pub open spec fn cvst_curves_error(blob: Seq<u8>, i: int) -> Option<CmsError>
    decreases cvst_count(blob) - i,
{
    if i >= cvst_count(blob) {
        None
    } else if cvst_curve_error(blob, i) is Some {
        cvst_curve_error(blob, i)
    } else {
        cvst_curves_error(blob, i + 1)
    }
}

/// Why `blob` is no `cvst` element.
pub open spec fn cvst_error(blob: Seq<u8>) -> Option<CmsError> {
    if blob.len() < 12 || be32(blob, 0) != SIG_CVST || !(1 <= cvst_count(blob) <= 16) || blob.len()
        < 12 + 8 * cvst_count(blob) {
        Some(CmsError::InvalidProfile)
    } else {
        cvst_curves_error(blob, 0)
    }
}

/// The curves of a `cvst` element.
pub open spec fn cvst_of(blob: Seq<u8>) -> Seq<CurveSourceView> {
    Seq::new(cvst_count(blob), |i: int| cvst_curve(blob, i))
}

/// What each of a list of tone curves holds.
pub open spec fn curve_views(curves: Seq<CurveSource>) -> Seq<CurveSourceView> {
    curves.map_values(|c: CurveSource| c@)
}

/// Reads the curve that row `i` of a `cvst` table points to.
fn read_cvst_curve(blob: &[u8], i: usize) -> (r: Result<CurveSource, CmsError>)
    requires
        i < 16,
        12 + 8 * (i + 1) <= blob@.len(),
    ensures
        match cvst_curve_error(blob@, i as int) {
            Some(e) => r == Err::<CurveSource, CmsError>(e),
            None => r is Ok && r->Ok_0@ == cvst_curve(blob@, i as int),
        },
{
    let entry: usize = 12 + i * 8;
    let offset: usize = read_be32(blob, entry) as usize;
    let size: usize = read_be32(blob, entry + 4) as usize;
    let curve_blob = take_range(blob, offset, size)?;
    if curve_blob.len() < 4 {
        return Err(CmsError::InvalidProfile);
    }
    if read_be32(curve_blob, 0) == SIG_CURF {
        read_segmented_curve(curve_blob, false)
    } else {
        Ok(CurveSource::Identity)
    }
}

/// Reads a `cvst` element.
pub fn read_cvst_element(blob: &[u8]) -> (r: Result<Vec<CurveSource>, CmsError>)
    ensures
        match cvst_error(blob@) {
            Some(e) => r == Err::<Vec<CurveSource>, CmsError>(e),
            None => r is Ok && curve_views(r->Ok_0@) == cvst_of(blob@),
        },
{
    if blob.len() < 12 {
        return Err(CmsError::InvalidProfile);
    }
    if read_be32(blob, 0) != SIG_CVST {
        return Err(CmsError::InvalidProfile);
    }
    let in_ch: usize = read_be16(blob, 8) as usize;
    let out_ch: usize = read_be16(blob, 10) as usize;
    let n: usize = if in_ch >= out_ch {
        in_ch
    } else {
        out_ch
    };
    if n == 0 || n > 16 {
        return Err(CmsError::InvalidProfile);
    }
    if blob.len() < 12 + n * 8 {
        return Err(CmsError::InvalidProfile);
    }
    let mut curves: Vec<CurveSource> = Vec::new();
    for i in 0..n
        invariant
            n == cvst_count(blob@),
            n <= 16,
            12 + 8 * n <= blob@.len(),
            curves@.len() == i,
            forall|j: int| 0 <= j < i ==> #[trigger] curves@[j]@ == cvst_curve(blob@, j),
            cvst_error(blob@) == cvst_curves_error(blob@, i as int),
    {
        match read_cvst_curve(blob, i) {
            Err(e) => return Err(e),
            Ok(curve) => curves.push(curve),
        }
    }
    assert(curve_views(curves@) =~= cvst_of(blob@));
    Ok(curves)
}

} // verus!
