//! Multi-process elements: `mpet` tags that are a matrix shaper.

use crate::bytes::{be16, be32, range_error, range_of, read_be16, read_be32, take_range};
use crate::err::CmsError;
use crate::iccmax::elements::{
    curve_views, cvst_count, cvst_error, cvst_of, identity_matrix, is_matf, matf_matrix,
    matf_offset, read_cvst_element, read_matf_element, CurveSource, CurveSourceView, Matrix3d,
    Vector3d, SIG_CVST, SIG_MATF,
};
use vstd::prelude::*;

verus! {

/// The signature `mpet`.
pub const SIG_MPET: u32 = 0x6d70_6574;

/// A chain of tone curves and a matrix.
#[derive(Clone, Debug)]
pub struct MpetMatrixShaper {
    /// The tone curve of each channel.
    pub curves: Vec<CurveSource>,
    /// The matrix.
    pub matrix: Matrix3d,
    /// What is added after the matrix.
    pub offset: Vector3d,
    /// Whether the curves come before the matrix, which leads from the device to the
    /// connection space; else the matrix comes first.
    pub curves_first: bool,
}

/// What a matrix shaper holds.
pub struct MpetView {
    pub curves: Seq<CurveSourceView>,
    pub matrix: Seq<Seq<u32>>,
    pub offset: Seq<u32>,
    pub curves_first: bool,
}

impl View for MpetMatrixShaper {
    type V = MpetView;

    open spec fn view(&self) -> MpetView {
        MpetView {
            curves: curve_views(self.curves@),
            matrix: self.matrix@,
            offset: self.offset@,
            curves_first: self.curves_first,
        }
    }
}

/// The bytes of the element with index `i`.
pub open spec fn element_blob(blob: Seq<u8>, i: int) -> Seq<u8> {
    range_of(blob, be32(blob, 16 + 8 * i) as int, be32(blob, 20 + 8 * i) as int)
}

/// Why there is no element with index `i`.
pub open spec fn element_error(blob: Seq<u8>, i: int) -> Option<CmsError> {
    let offset = be32(blob, 16 + 8 * i) as int;
    let size = be32(blob, 20 + 8 * i) as int;
    if range_error(blob.len() as int, offset, size) is Some {
        range_error(blob.len() as int, offset, size)
    } else if size < 4 {
        Some(CmsError::InvalidProfile)
    } else {
        None
    }
}

/// A matrix on its own: the curves are the identity.
pub open spec fn matrix_only(e: Seq<u8>) -> Result<Option<MpetView>, CmsError> {
    if !is_matf(e) {
        Err(CmsError::InvalidProfile)
    } else {
        Ok(
            Some(
                MpetView {
                    curves: Seq::new(3, |i: int| CurveSourceView::Identity),
                    matrix: matf_matrix(e),
                    offset: matf_offset(e),
                    curves_first: false,
                },
            ),
        )
    }
}

/// A curve set on its own: the matrix is the identity.
pub open spec fn curves_only(e: Seq<u8>) -> Result<Option<MpetView>, CmsError> {
    match cvst_error(e) {
        Some(error) => Err(error),
        None => if cvst_count(e) < 3 {
            Ok(None)
        } else {
            Ok(
                Some(
                    MpetView {
                        curves: cvst_of(e),
                        matrix: identity_matrix(),
                        offset: seq![0u32, 0u32, 0u32],
                        curves_first: true,
                    },
                ),
            )
        },
    }
}

/// A curve set and a matrix, in either order. What is wrong with the element that stands
/// first is found first.
pub open spec fn curves_and_matrix(
    curves: Seq<u8>,
    matrix: Seq<u8>,
    curves_first: bool,
) -> Result<Option<MpetView>, CmsError> {
    if !curves_first && !is_matf(matrix) {
        Err(CmsError::InvalidProfile)
    } else if cvst_error(curves) is Some {
        Err(cvst_error(curves)->0)
    } else if !is_matf(matrix) {
        Err(CmsError::InvalidProfile)
    } else if cvst_count(curves) < 3 {
        Ok(None)
    } else {
        Ok(
            Some(
                MpetView {
                    curves: cvst_of(curves),
                    matrix: matf_matrix(matrix),
                    offset: matf_offset(matrix),
                    curves_first,
                },
            ),
        )
    }
}

/// The matrix shaper of a chain of one or two elements.
pub open spec fn chain_of(blob: Seq<u8>) -> Result<Option<MpetView>, CmsError> {
    let e0 = element_blob(blob, 0);
    let e1 = element_blob(blob, 1);
    if element_error(blob, 0) is Some {
        Err(element_error(blob, 0)->0)
    } else if be32(blob, 12) == 1 {
        if be32(e0, 0) == SIG_MATF {
            matrix_only(e0)
        } else if be32(e0, 0) == SIG_CVST {
            curves_only(e0)
        } else {
            Ok(None)
        }
    } else if element_error(blob, 1) is Some {
        Err(element_error(blob, 1)->0)
    } else if be32(e0, 0) == SIG_CVST && be32(e1, 0) == SIG_MATF {
        curves_and_matrix(e0, e1, true)
    } else if be32(e0, 0) == SIG_MATF && be32(e1, 0) == SIG_CVST {
        curves_and_matrix(e1, e0, false)
    } else {
        Ok(None)
    }
}

/// Whether the bytes announce a chain that can be a matrix shaper: three channels in, three
/// out, and one or two elements.
pub open spec fn is_short_rgb_chain(blob: Seq<u8>) -> bool {
    &&& be32(blob, 0) == SIG_MPET
    &&& be16(blob, 8) == 3
    &&& be16(blob, 10) == 3
    &&& 1 <= be32(blob, 12) <= 2
}

/// The matrix shaper of the tag of `size` bytes at `entry`. A tag of any other shape has none.
pub open spec fn mpet_of(s: Seq<u8>, entry: int, size: int) -> Result<Option<MpetView>, CmsError> {
    let blob = range_of(s, entry, size);
    if size < 16 {
        Ok(None)
    } else if range_error(s.len() as int, entry, size) is Some {
        Err(range_error(s.len() as int, entry, size)->0)
    } else if !is_short_rgb_chain(blob) {
        Ok(None)
    } else if size < 16 + 8 * be32(blob, 12) {
        Err(CmsError::InvalidProfile)
    } else {
        chain_of(blob)
    }
}

/// What a result holds.
pub open spec fn mpet_view(r: Result<Option<MpetMatrixShaper>, CmsError>) -> Result<
    Option<MpetView>,
    CmsError,
> {
    match r {
        Err(e) => Err(e),
        Ok(None) => Ok(None),
        Ok(Some(shaper)) => Ok(Some(shaper@)),
    }
}

/// Takes the bytes of the element with index `i`.
fn take_element<'a>(blob: &'a [u8], i: usize) -> (r: Result<&'a [u8], CmsError>)
    requires
        i < 2,
        16 + 8 * (i + 1) <= blob@.len(),
    ensures
        match element_error(blob@, i as int) {
            Some(e) => r == Err::<&'a [u8], CmsError>(e),
            None => r is Ok && r->Ok_0@ == element_blob(blob@, i as int) && r->Ok_0@.len() >= 4,
        },
{
    let off: usize = 16 + i * 8;
    let elem_off: usize = read_be32(blob, off) as usize;
    let elem_sz: usize = read_be32(blob, off + 4) as usize;
    let element = take_range(blob, elem_off, elem_sz)?;
    if elem_sz < 4 {
        return Err(CmsError::InvalidProfile);
    }
    Ok(element)
}

/// Reads a matrix on its own.
fn read_matrix_only(e: &[u8]) -> (r: Result<Option<MpetMatrixShaper>, CmsError>)
    ensures
        mpet_view(r) == matrix_only(e@),
{
    match read_matf_element(e) {
        Err(error) => Err(error),
        Ok((matrix, offset)) => {
            let mut curves: Vec<CurveSource> = Vec::new();
            curves.push(CurveSource::Identity);
            curves.push(CurveSource::Identity);
            curves.push(CurveSource::Identity);
            assert(curve_views(curves@) =~= Seq::new(3, |i: int| CurveSourceView::Identity));
            Ok(Some(MpetMatrixShaper { curves, matrix, offset, curves_first: false }))
        },
    }
}

/// Reads a curve set on its own.
fn read_curves_only(e: &[u8]) -> (r: Result<Option<MpetMatrixShaper>, CmsError>)
    ensures
        mpet_view(r) == curves_only(e@),
{
    match read_cvst_element(e) {
        Err(error) => Err(error),
        Ok(curves) => {
            assert(curve_views(curves@).len() == curves@.len());
            if curves.len() < 3 {
                return Ok(None);
            }
            Ok(
                Some(
                    MpetMatrixShaper {
                        curves,
                        matrix: Matrix3d::identity(),
                        offset: Vector3d::zero(),
                        curves_first: true,
                    },
                ),
            )
        },
    }
}

/// Reads a curve set and a matrix.
fn read_curves_and_matrix(curve_set: &[u8], matf: &[u8], curves_first: bool) -> (r: Result<
    Option<MpetMatrixShaper>,
    CmsError,
>)
    ensures
        mpet_view(r) == curves_and_matrix(curve_set@, matf@, curves_first),
{
    let (curves, (matrix, offset)) = if curves_first {
        let curves = read_cvst_element(curve_set)?;
        (curves, read_matf_element(matf)?)
    } else {
        let m = read_matf_element(matf)?;
        (read_cvst_element(curve_set)?, m)
    };
    assert(curve_views(curves@).len() == curves@.len());
    if curves.len() < 3 {
        return Ok(None);
    }
    Ok(Some(MpetMatrixShaper { curves, matrix, offset, curves_first }))
}

/// Reads the `mpet` tag of `tag_size` bytes at `entry` as a matrix shaper of one or two
/// elements. For any other shape there is none.
pub fn read_mpet_matrix_shaper(slice: &[u8], entry: usize, tag_size: usize) -> (r: Result<
    Option<MpetMatrixShaper>,
    CmsError,
>)
    ensures
        mpet_view(r) == mpet_of(slice@, entry as int, tag_size as int),
{
    if tag_size < 16 {
        return Ok(None);
    }
    let blob = take_range(slice, entry, tag_size)?;
    if read_be32(blob, 0) != SIG_MPET {
        return Ok(None);
    }
    let in_ch: u16 = read_be16(blob, 8);
    let out_ch: u16 = read_be16(blob, 10);
    if in_ch != 3 || out_ch != 3 {
        return Ok(None);
    }
    let n_proc: u32 = read_be32(blob, 12);
    if n_proc < 1 || n_proc > 2 {
        return Ok(None);
    }
    if blob.len() < 16 + 8 * n_proc as usize {
        return Err(CmsError::InvalidProfile);
    }
    let b0 = take_element(blob, 0)?;
    let s0: u32 = read_be32(b0, 0);
    if n_proc == 1 {
        return if s0 == SIG_MATF {
            read_matrix_only(b0)
        } else if s0 == SIG_CVST {
            read_curves_only(b0)
        } else {
            Ok(None)
        };
    }
    let b1 = take_element(blob, 1)?;
    let s1: u32 = read_be32(b1, 0);
    if s0 == SIG_CVST && s1 == SIG_MATF {
        read_curves_and_matrix(b0, b1, true)
    } else if s0 == SIG_MATF && s1 == SIG_CVST {
        read_curves_and_matrix(b1, b0, false)
    } else {
        Ok(None)
    }
}

} // verus!
