//! Colour encoding parameters: `cept` tag structures that are a matrix shaper.

use crate::bytes::{be32, range_of, read_be32};
use crate::err::CmsError;
use crate::iccmax::elements::{
    fl32_of, is_fl32, read_fl32_array, read_segmented_curve, CurveSource, CurveSourceView,
};
use crate::iccmax::segmented_curve::{curve_error, curve_of, SIG_CURF};
use crate::iccmax::tag_struct::{
    same_sig, tag_struct_error, tag_struct_of, TagStruct, TagStructView,
};
use vstd::prelude::*;

verus! {

/// The structure kind `cept`.
pub const SIG_CEPT: [u8; 4] = [0x63, 0x65, 0x70, 0x74];

/// The sub-tag `rXYZ`, the chromaticity of the red primary.
pub const SIG_RED: [u8; 4] = [0x72, 0x58, 0x59, 0x5a];

/// The sub-tag `gXYZ`, the chromaticity of the green primary.
pub const SIG_GREEN: [u8; 4] = [0x67, 0x58, 0x59, 0x5a];

/// The sub-tag `bXYZ`, the chromaticity of the blue primary.
pub const SIG_BLUE: [u8; 4] = [0x62, 0x58, 0x59, 0x5a];

/// The sub-tag `wXYZ`, the chromaticity of the white point.
pub const SIG_WHITE: [u8; 4] = [0x77, 0x58, 0x59, 0x5a];

/// The sub-tag `func`, the transfer function.
pub const SIG_FUNC: [u8; 4] = [0x66, 0x75, 0x6e, 0x63];

/// A chromaticity, as binary32 patterns. Where the profile gives no `z`, it is `1 - x - y`.
#[derive(Clone, Copy, Debug, PartialEq, Eq, Structural)]
pub struct Chromaticity {
    pub x: u32,
    pub y: u32,
    pub z: Option<u32>,
}

/// A colour encoding by its primaries, its white point and its tone curve.
#[derive(Clone, Debug)]
pub struct CeptMatrixShaper {
    pub red_xy: Chromaticity,
    pub green_xy: Chromaticity,
    pub blue_xy: Chromaticity,
    pub white_xy: Chromaticity,
    /// The tone curve from encoded to linear values: the inverse of the transfer function.
    pub trc: CurveSource,
    /// The name of the encoding that the profile refers to. Kept free.
    pub reference_name: Option<String>,
}

/// What a colour encoding holds.
pub struct CeptView {
    pub red_xy: Chromaticity,
    pub green_xy: Chromaticity,
    pub blue_xy: Chromaticity,
    pub white_xy: Chromaticity,
    pub trc: CurveSourceView,
    pub reference_name: Option<Seq<char>>,
}

impl View for CeptMatrixShaper {
    type V = CeptView;

    open spec fn view(&self) -> CeptView {
        CeptView {
            red_xy: self.red_xy,
            green_xy: self.green_xy,
            blue_xy: self.blue_xy,
            white_xy: self.white_xy,
            trc: self.trc@,
            reference_name: match self.reference_name {
                Some(name) => Some(name@),
                None => None,
            },
        }
    }
}

/// The chromaticity that an array of at least two numbers gives.
pub open spec fn chromaticity_of(arr: Seq<u32>) -> Chromaticity {
    Chromaticity {
        x: arr[0],
        y: arr[1],
        z: if arr.len() >= 3 {
            Some(arr[2])
        } else {
            None
        },
    }
}

/// Makes a chromaticity of two or more numbers.
pub fn chromaticity_from_fl32(arr: &[u32]) -> (r: Result<Chromaticity, CmsError>)
    ensures
        arr@.len() < 2 ==> r == Err::<Chromaticity, CmsError>(CmsError::InvalidProfile),
        arr@.len() >= 2 ==> r == Ok::<Chromaticity, CmsError>(chromaticity_of(arr@)),
{
    if arr.len() >= 3 {
        Ok(Chromaticity { x: arr[0], y: arr[1], z: Some(arr[2]) })
    } else if arr.len() == 2 {
        Ok(Chromaticity { x: arr[0], y: arr[1], z: None })
    } else {
        Err(CmsError::InvalidProfile)
    }
}

/// The bytes of the sub-tag `sig`, where the structure has it and it lies in the tag.
#[verifier::opaque]
pub open spec fn sub_tag(ts: TagStructView, sig: Seq<u8>) -> Option<Seq<u8>> {
    match ts.find(sig) {
        Some(e) => ts.slice(e),
        None => None,
    }
}

/// Whether the sub-tag `sig` is missing or gives a chromaticity.
pub open spec fn chromaticity_ok(ts: TagStructView, sig: Seq<u8>) -> bool {
    match sub_tag(ts, sig) {
        Some(blob) => is_fl32(blob) && fl32_of(blob).len() >= 2,
        None => true,
    }
}

/// The chromaticity of the sub-tag `sig`, where there is one.
pub open spec fn chromaticity_in(ts: TagStructView, sig: Seq<u8>) -> Option<Chromaticity> {
    match sub_tag(ts, sig) {
        Some(blob) => Some(chromaticity_of(fl32_of(blob))),
        None => None,
    }
}

/// The bytes of the transfer function, where there is one that is a segmented curve.
pub open spec fn function_in(ts: TagStructView) -> Option<Seq<u8>> {
    match sub_tag(ts, SIG_FUNC@) {
        Some(blob) => if blob.len() >= 4 && be32(blob, 0) == SIG_CURF {
            Some(blob)
        } else {
            None
        },
        None => None,
    }
}

/// The chromaticities of the primaries and of the white point: an error where one of them is
/// there but cannot be read, and none where one is missing.
pub open spec fn chromaticities_of(ts: TagStructView) -> Result<
    Option<Seq<Chromaticity>>,
    CmsError,
> {
    if !chromaticity_ok(ts, SIG_RED@) || !chromaticity_ok(ts, SIG_GREEN@) || !chromaticity_ok(
        ts,
        SIG_BLUE@,
    ) || !chromaticity_ok(ts, SIG_WHITE@) {
        Err(CmsError::InvalidProfile)
    } else {
        match (
            chromaticity_in(ts, SIG_RED@),
            chromaticity_in(ts, SIG_GREEN@),
            chromaticity_in(ts, SIG_BLUE@),
            chromaticity_in(ts, SIG_WHITE@),
        ) {
            (Some(r), Some(g), Some(b), Some(w)) => Ok(Some(seq![r, g, b, w])),
            _ => Ok(None),
        }
    }
}

/// The matrix shaper of a `cept` structure: none where a chromaticity or the transfer function
/// is missing.
pub open spec fn shaper_of(ts: TagStructView) -> Result<Option<CeptView>, CmsError> {
    match chromaticities_of(ts) {
        Err(e) => Err(e),
        Ok(None) => Ok(None),
        Ok(Some(xy)) => match function_in(ts) {
            None => Ok(None),
            Some(f) => match curve_error(f) {
                Some(e) => Err(e),
                None => Ok(
                    Some(
                        CeptView {
                            red_xy: xy[0],
                            green_xy: xy[1],
                            blue_xy: xy[2],
                            white_xy: xy[3],
                            trc: CurveSourceView::Segmented { curve: curve_of(f), invert: true },
                            reference_name: None,
                        },
                    ),
                ),
            },
        },
    }
}

/// The matrix shaper of the tag of `size` bytes at `entry`. A tag that is no `cept` structure
/// has none.
pub open spec fn cept_of(s: Seq<u8>, entry: int, size: int) -> Result<Option<CeptView>, CmsError> {
    let ts = tag_struct_of(range_of(s, entry, size));
    if tag_struct_error(s, entry, size) is Some || ts.struct_id != SIG_CEPT@ {
        Ok(None)
    } else {
        shaper_of(ts)
    }
}

/// What a result holds.
pub open spec fn cept_view(r: Result<Option<CeptMatrixShaper>, CmsError>) -> Result<
    Option<CeptView>,
    CmsError,
> {
    match r {
        Err(e) => Err(e),
        Ok(None) => Ok(None),
        Ok(Some(shaper)) => Ok(Some(shaper@)),
    }
}

/// Finds the bytes of a sub-tag.
fn find_sub_tag<'a>(ts: &TagStruct<'a>, sig: &[u8; 4]) -> (r: Option<&'a [u8]>)
    ensures
        match sub_tag(ts@, sig@) {
            Some(bytes) => r is Some && r->0@ == bytes,
            None => r is None,
        },
{
    reveal(sub_tag);
    match ts.find(sig) {
        Some(e) => ts.slice(e),
        None => None,
    }
}

/// Reads the chromaticity of a sub-tag.
fn read_chromaticity(ts: &TagStruct, sig: &[u8; 4]) -> (r: Result<Option<Chromaticity>, CmsError>)
    ensures
        chromaticity_ok(ts@, sig@) ==> r == Ok::<Option<Chromaticity>, CmsError>(
            chromaticity_in(ts@, sig@),
        ),
        !chromaticity_ok(ts@, sig@) ==> r == Err::<Option<Chromaticity>, CmsError>(
            CmsError::InvalidProfile,
        ),
{
    match find_sub_tag(ts, sig) {
        Some(blob) => {
            let arr = read_fl32_array(blob)?;
            let xy = chromaticity_from_fl32(arr.as_slice())?;
            Ok(Some(xy))
        },
        None => Ok(None),
    }
}

/// Finds the bytes of the transfer function.
fn find_function<'a>(ts: &TagStruct<'a>) -> (r: Option<&'a [u8]>)
    ensures
        match function_in(ts@) {
            Some(bytes) => r is Some && r->0@ == bytes,
            None => r is None,
        },
{
    match find_sub_tag(ts, &SIG_FUNC) {
        Some(blob) => if blob.len() >= 4 && read_be32(blob, 0) == SIG_CURF {
            Some(blob)
        } else {
            None
        },
        None => None,
    }
}

/// Reads the four chromaticities of a structure, where it has all of them.
fn read_chromaticities(ts: &TagStruct) -> (r: Result<Option<[Chromaticity; 4]>, CmsError>)
    ensures
        match chromaticities_of(ts@) {
            Err(e) => r == Err::<Option<[Chromaticity; 4]>, CmsError>(e),
            Ok(None) => r == Ok::<Option<[Chromaticity; 4]>, CmsError>(None),
            Ok(Some(c)) => r is Ok && r->Ok_0 is Some && r->Ok_0->0@ == c,
        },
{
    let red_xy = read_chromaticity(ts, &SIG_RED)?;
    let green_xy = read_chromaticity(ts, &SIG_GREEN)?;
    let blue_xy = read_chromaticity(ts, &SIG_BLUE)?;
    let white_xy = read_chromaticity(ts, &SIG_WHITE)?;
    match (red_xy, green_xy, blue_xy, white_xy) {
        (Some(r), Some(g), Some(b), Some(w)) => {
            let all: [Chromaticity; 4] = [r, g, b, w];
            assert(all@ =~= seq![r, g, b, w]);
            Ok(Some(all))
        },
        _ => Ok(None),
    }
}

/// Reads a `cept` structure.
fn read_shaper(ts: &TagStruct) -> (r: Result<Option<CeptMatrixShaper>, CmsError>)
    ensures
        cept_view(r) == shaper_of(ts@),
{
    let xy = match read_chromaticities(ts) {
        Err(e) => return Err(e),
        Ok(None) => return Ok(None),
        Ok(Some(xy)) => xy,
    };
    match find_function(ts) {
        None => Ok(None),
        Some(blob) => match read_segmented_curve(blob, true) {
            Err(e) => Err(e),
            Ok(trc) => Ok(
                Some(
                    CeptMatrixShaper {
                        red_xy: xy[0],
                        green_xy: xy[1],
                        blue_xy: xy[2],
                        white_xy: xy[3],
                        trc,
                        reference_name: None,
                    },
                ),
            ),
        },
    }
}

/// Reads the `cept` tag of `tag_size` bytes at `entry` as a matrix shaper. Where the tag is
/// something else, or one of the three primaries, the white point and the transfer function
/// is missing, there is none.
pub fn read_cept_matrix_shaper(slice: &[u8], entry: usize, tag_size: usize) -> (r: Result<
    Option<CeptMatrixShaper>,
    CmsError,
>)
    ensures
        cept_view(r) == cept_of(slice@, entry as int, tag_size as int),
{
    let ts = match TagStruct::read(slice, entry, tag_size) {
        Ok(ts) => ts,
        Err(_) => return Ok(None),
    };
    if !same_sig(&ts.struct_id, &SIG_CEPT) {
        return Ok(None);
    }
    read_shaper(&ts)
}

} // verus!
