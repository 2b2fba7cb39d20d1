//! The readers, on hand-made profiles.

use moxcms::err::CmsError;
use moxcms::iccmax::cept::{chromaticity_from_fl32, read_cept_matrix_shaper, Chromaticity};
use moxcms::iccmax::curve_eval::{eval_parf, sample_neighbours, EvalStep, ParfFormula};
use moxcms::iccmax::elements::{
    read_cvst_element, read_fl32_array, read_matf_element, read_segmented_curve, CurveSource,
};
use moxcms::iccmax::mpet::read_mpet_matrix_shaper;
use moxcms::iccmax::segmented_curve::{CurveSegment, SegmentedCurve};
use moxcms::iccmax::tag_struct::{TagStruct, TagStructEntry};
use moxcms::iccmax::utf8_tag::{read_utf8_tag, strip_trailing_nuls};

fn be32(v: u32) -> [u8; 4] {
    v.to_be_bytes()
}

fn fl(v: f32) -> [u8; 4] {
    v.to_be_bytes()
}

/// A signature and four reserved bytes.
fn header(sig: &[u8; 4]) -> Vec<u8> {
    let mut b = sig.to_vec();
    b.extend([0; 4]);
    b
}

fn parf(func_type: u16, params: &[f32]) -> Vec<u8> {
    let mut b = header(b"parf");
    b.extend(func_type.to_be_bytes());
    b.extend([0; 2]);
    for &p in params {
        b.extend(fl(p));
    }
    b
}

fn samf(samples: &[f32]) -> Vec<u8> {
    let mut b = header(b"samf");
    b.extend(be32(samples.len() as u32));
    for &s in samples {
        b.extend(fl(s));
    }
    b
}

fn curf(breakpoints: &[f32], segments: &[Vec<u8>]) -> Vec<u8> {
    let mut b = header(b"curf");
    b.extend((segments.len() as u16).to_be_bytes());
    b.extend([0; 2]);
    for &bp in breakpoints {
        b.extend(fl(bp));
    }
    for s in segments {
        b.extend(s);
    }
    b
}

fn matf(values: &[f32; 12]) -> Vec<u8> {
    let mut b = header(b"matf");
    b.extend([0, 3, 0, 3]);
    for &v in values {
        b.extend(fl(v));
    }
    b
}

fn cvst(inputs: u16, outputs: u16, curves: &[Vec<u8>]) -> Vec<u8> {
    let mut b = header(b"cvst");
    b.extend(inputs.to_be_bytes());
    b.extend(outputs.to_be_bytes());
    let mut offset = 12 + 8 * curves.len();
    for c in curves {
        b.extend(be32(offset as u32));
        b.extend(be32(c.len() as u32));
        offset += c.len();
    }
    for c in curves {
        b.extend(c);
    }
    b
}

fn mpet(inputs: u16, outputs: u16, elements: &[Vec<u8>]) -> Vec<u8> {
    let mut b = header(b"mpet");
    b.extend(inputs.to_be_bytes());
    b.extend(outputs.to_be_bytes());
    b.extend(be32(elements.len() as u32));
    let mut offset = 16 + 8 * elements.len();
    for e in elements {
        b.extend(be32(offset as u32));
        b.extend(be32(e.len() as u32));
        offset += e.len();
    }
    for e in elements {
        b.extend(e);
    }
    b
}

fn fl32(values: &[f32]) -> Vec<u8> {
    let mut b = header(b"fl32");
    for &v in values {
        b.extend(fl(v));
    }
    b
}

fn tstr(id: &[u8; 4], tags: &[(&[u8; 4], Vec<u8>)]) -> Vec<u8> {
    let mut b = header(b"tstr");
    b.extend(id);
    b.extend(be32(tags.len() as u32));
    let mut offset = 16 + 12 * tags.len();
    for (sig, data) in tags {
        b.extend(*sig);
        b.extend(be32(offset as u32));
        b.extend(be32(data.len() as u32));
        offset += data.len();
    }
    for (_, data) in tags {
        b.extend(data);
    }
    b
}

fn identity_curf() -> Vec<u8> {
    curf(&[], &[parf(0, &[1.0, 1.0, 0.0, 0.0])])
}

fn srgb_tags() -> Vec<(&'static [u8; 4], Vec<u8>)> {
    vec![
        (b"rXYZ", fl32(&[0.64, 0.33, 0.03])),
        (b"gXYZ", fl32(&[0.30, 0.60])),
        (b"bXYZ", fl32(&[0.15, 0.06])),
        (b"wXYZ", fl32(&[0.3127, 0.3290])),
        (b"func", identity_curf()),
    ]
}

#[test]
fn utf8_text_is_read_without_its_trailing_nuls() {
    let mut tag = header(b"utf8");
    tag.extend("Grün \u{1f308}\0x\0\0".as_bytes());
    assert_eq!(
        read_utf8_tag(&tag, 0, tag.len()),
        Ok("Grün \u{1f308}\0x".to_string())
    );
    // At another place in a profile, with other bytes around it.
    let mut profile = vec![9u8; 5];
    profile.extend(&tag);
    profile.extend([7u8; 3]);
    assert_eq!(
        read_utf8_tag(&profile, 5, tag.len()),
        Ok("Grün \u{1f308}\0x".to_string())
    );
    assert_eq!(read_utf8_tag(&tag, 0, 8), Ok(String::new()));
}

#[test]
fn malformed_utf8_is_replaced() {
    let mut tag = header(b"utf8");
    tag.extend([b'a', 0xff, b'b', 0]);
    assert_eq!(read_utf8_tag(&tag, 0, 12), Ok("a\u{fffd}b".to_string()));
}

#[test]
fn trailing_nuls_are_stripped_and_no_others() {
    assert_eq!(strip_trailing_nuls(""), "");
    assert_eq!(strip_trailing_nuls("\0\0\0"), "");
    assert_eq!(strip_trailing_nuls("\0a\0b\0"), "\0a\0b");
    assert_eq!(strip_trailing_nuls("ab"), "ab");
}

#[test]
fn utf8_tags_are_checked() {
    let mut tag = header(b"utf8");
    tag.extend(b"text");
    assert_eq!(read_utf8_tag(&tag, 0, 7), Err(CmsError::InvalidProfile));
    assert_eq!(read_utf8_tag(&tag, 0, 13), Err(CmsError::InvalidProfile));
    assert_eq!(
        read_utf8_tag(&tag, usize::MAX, 8),
        Err(CmsError::OverflowingError)
    );
    tag[0] = b'U';
    assert_eq!(read_utf8_tag(&tag, 0, 12), Err(CmsError::InvalidProfile));
}

#[test]
fn tag_structures_are_read() {
    let tag = tstr(
        b"cept",
        &[
            (b"aaaa", vec![1, 2, 3, 4]),
            (b"bbbb", vec![5, 6]),
            (b"aaaa", vec![7]),
        ],
    );
    let mut profile = vec![0u8; 3];
    profile.extend(&tag);
    let ts = TagStruct::read(&profile, 3, tag.len()).unwrap();
    assert_eq!(ts.struct_id, *b"cept");
    assert_eq!(ts.blob, &tag[..]);
    assert_eq!(ts.entries.len(), 3);
    // The first of two rows with one signature is found.
    let a = ts.find(b"aaaa").unwrap();
    assert_eq!((a.offset, a.size), (52, 4));
    assert_eq!(ts.slice(a), Some(&[1u8, 2, 3, 4][..]));
    let b = ts.find(b"bbbb").unwrap();
    assert_eq!(ts.slice(b), Some(&[5u8, 6][..]));
    assert!(ts.find(b"cccc").is_none());
}

#[test]
fn rows_that_point_outside_have_no_bytes() {
    let tag = tstr(b"cept", &[(b"aaaa", vec![1, 2, 3, 4])]);
    let ts = TagStruct::read(&tag, 0, tag.len()).unwrap();
    let row = |offset: usize, size: usize| TagStructEntry {
        sig: *b"aaaa",
        offset,
        size,
    };
    assert_eq!(ts.slice(&row(tag.len(), 0)), Some(&[][..]));
    assert_eq!(ts.slice(&row(tag.len(), 1)), None);
    assert_eq!(ts.slice(&row(usize::MAX, 1)), None);
}

#[test]
fn tag_structures_are_checked() {
    let tag = tstr(b"cept", &[(b"aaaa", vec![1, 2, 3, 4])]);
    let read = |bytes: &[u8], entry: usize, size: usize| {
        TagStruct::read(bytes, entry, size).map(|ts| ts.entries.len())
    };
    assert_eq!(read(&tag, 0, tag.len()), Ok(1));
    assert_eq!(read(&tag, 0, 15), Err(CmsError::InvalidProfile));
    assert_eq!(read(&tag, 0, 27), Err(CmsError::InvalidProfile));
    assert_eq!(read(&tag, 0, 28), Ok(1));
    assert_eq!(
        read(&tag, 1, tag.len()),
        Err(CmsError::InvalidProfile)
    );
    assert_eq!(
        read(&tag, usize::MAX - 3, 16),
        Err(CmsError::OverflowingError)
    );
    let mut other = tag.clone();
    other[3] = b'R';
    assert_eq!(read(&other, 0, other.len()), Err(CmsError::InvalidProfile));
    // More rows than the tag has room for.
    let mut long = tag.clone();
    long[12] = 0xff;
    assert_eq!(read(&long, 0, long.len()), Err(CmsError::InvalidProfile));
}

#[test]
fn number_arrays_are_read() {
    let one = 1.0f32.to_bits();
    let half = 0.5f32.to_bits();
    assert_eq!(read_fl32_array(&fl32(&[1.0, 0.5])), Ok(vec![one, half]));
    assert_eq!(read_fl32_array(&fl32(&[])), Ok(vec![]));
    // Bytes that do not make up a whole number are left.
    let mut odd = fl32(&[1.0]);
    odd.extend([1, 2, 3]);
    assert_eq!(read_fl32_array(&odd), Ok(vec![one]));
    assert_eq!(
        read_fl32_array(&odd[..7]),
        Err(CmsError::InvalidProfile)
    );
    odd[0] = b'F';
    assert_eq!(read_fl32_array(&odd), Err(CmsError::InvalidProfile));
}

#[test]
fn chromaticities_take_two_numbers_or_more() {
    assert_eq!(
        chromaticity_from_fl32(&[1, 2]),
        Ok(Chromaticity {
            x: 1,
            y: 2,
            z: None
        })
    );
    assert_eq!(
        chromaticity_from_fl32(&[1, 2, 3, 4]),
        Ok(Chromaticity {
            x: 1,
            y: 2,
            z: Some(3)
        })
    );
    assert_eq!(
        chromaticity_from_fl32(&[1]),
        Err(CmsError::InvalidProfile)
    );
    assert_eq!(chromaticity_from_fl32(&[]), Err(CmsError::InvalidProfile));
}

#[test]
fn segmented_curves_are_read() {
    let blob = curf(
        &[0.25, 0.75],
        &[
            parf(0, &[2.0, 1.0, 0.0, 0.5]),
            samf(&[0.1, 0.2, 0.3]),
            parf(3, &[2.4, 1.0, 0.9, 0.1, 0.0]),
        ],
    );
    let curve = SegmentedCurve::read(&blob).unwrap();
    assert_eq!(
        curve.breakpoints,
        vec![0.25f32.to_bits(), 0.75f32.to_bits()]
    );
    assert_eq!(curve.segments.len(), 3);
    match &curve.segments[0] {
        CurveSegment::Parametric { func_type, params } => {
            assert_eq!(*func_type, 0);
            assert_eq!(
                *params,
                [2.0f32, 1.0, 0.0, 0.5].map(f32::to_bits).to_vec()
            );
        }
        CurveSegment::Sampled(_) => panic!("not a formula"),
    }
    match &curve.segments[1] {
        CurveSegment::Sampled(samples) => {
            assert_eq!(*samples, [0.1f32, 0.2, 0.3].map(f32::to_bits).to_vec());
        }
        CurveSegment::Parametric { .. } => panic!("not sampled"),
    }
    match &curve.segments[2] {
        CurveSegment::Parametric { func_type, params } => {
            assert_eq!((*func_type, params.len()), (3, 5));
        }
        CurveSegment::Sampled(_) => panic!("not a formula"),
    }
    // What follows the last segment is not looked at.
    let mut longer = blob.clone();
    longer.extend([1, 2, 3]);
    assert_eq!(SegmentedCurve::read(&longer).unwrap().segments.len(), 3);
}

#[test]
fn segmented_curves_are_checked() {
    let blob = curf(&[0.5], &[parf(0, &[1.0; 4]), samf(&[0.5; 2])]);
    let read = |b: &[u8]| SegmentedCurve::read(b).map(|c| c.segments.len());
    assert_eq!(read(&blob), Ok(2));
    // Every shorter blob is refused.
    for n in 0..blob.len() {
        assert_eq!(read(&blob[..n]), Err(CmsError::InvalidProfile), "{n}");
    }
    let mut other = blob.clone();
    other[0] = b'C';
    assert_eq!(read(&other), Err(CmsError::InvalidProfile));
    let mut none = blob.clone();
    none[9] = 0;
    assert_eq!(read(&none), Err(CmsError::InvalidProfile));
    let mut unknown = blob.clone();
    unknown[16] = b'q';
    assert_eq!(read(&unknown), Err(CmsError::InvalidProfile));
    // A formula of another type wants a fifth parameter, which is the next signature.
    let mut five = blob.clone();
    five[25] = 1;
    assert_eq!(read(&five), Err(CmsError::InvalidProfile));
}

#[test]
fn sample_counts_are_held_against_the_blob() {
    let mut blob = curf(&[], &[samf(&[0.5; 2])]);
    assert_eq!(SegmentedCurve::read(&blob).unwrap().segments.len(), 1);
    blob[23] = 3;
    assert_eq!(
        SegmentedCurve::read(&blob).map(|_| ()),
        Err(CmsError::InvalidProfile)
    );
    for i in 20..24 {
        blob[i] = 0xff;
    }
    // Four times the count fits in 64 bits, but not in 32.
    let expect = if usize::BITS == 64 {
        CmsError::InvalidProfile
    } else {
        CmsError::OverflowingError
    };
    assert_eq!(SegmentedCurve::read(&blob).map(|_| ()), Err(expect));
}

#[test]
fn tone_curves_keep_their_direction() {
    for invert in [false, true] {
        match read_segmented_curve(&identity_curf(), invert) {
            Ok(CurveSource::Segmented { curve, invert: i }) => {
                assert_eq!(curve.segments.len(), 1);
                assert_eq!(i, invert);
            }
            other => panic!("{other:?}"),
        }
    }
    assert_eq!(
        read_segmented_curve(&[], true).map(|_| ()),
        Err(CmsError::InvalidProfile)
    );
}

#[test]
fn inputs_fall_into_the_segment_up_to_its_breakpoint() {
    let curve = SegmentedCurve::read(&curf(
        &[0.25, 0.75],
        &[samf(&[0.0]), samf(&[0.1, 0.2]), samf(&[])],
    ))
    .unwrap();
    let at = |x: f64| curve.locate(x.to_bits());
    assert_eq!(at(f64::NEG_INFINITY), 0);
    assert_eq!(at(-1.0), 0);
    assert_eq!(at(0.25), 0);
    assert_eq!(at(0.25000000000000006), 1);
    assert_eq!(at(0.75), 1);
    assert_eq!(at(0.7500000000000001), 2);
    assert_eq!(at(f64::INFINITY), 2);
    assert_eq!(at(f64::NAN), 2);
    let lo = Some(0.25f32.to_bits());
    let hi = Some(0.75f32.to_bits());
    assert_eq!(
        curve.eval(0.1f64.to_bits()),
        EvalStep::Samples {
            segment: 0,
            lo: None,
            hi: lo
        }
    );
    assert_eq!(
        curve.eval(0.5f64.to_bits()),
        EvalStep::Samples {
            segment: 1,
            lo,
            hi
        }
    );
    // A segment without samples passes the input through.
    assert_eq!(curve.eval(0.9f64.to_bits()), EvalStep::Identity);
}

#[test]
fn a_single_sampled_segment_spans_zero_to_one() {
    let curve = SegmentedCurve::read(&curf(&[], &[samf(&[0.0, 1.0])])).unwrap();
    assert_eq!(
        curve.eval(0.5f64.to_bits()),
        EvalStep::Samples {
            segment: 0,
            lo: None,
            hi: None
        }
    );
}

#[test]
fn formulas_take_their_parameters_in_order() {
    let p = [11, 12, 13, 14, 15];
    assert_eq!(
        eval_parf(0, &p),
        Some(ParfFormula::Power {
            g: 11,
            a: 12,
            b: 13,
            c: 14
        })
    );
    assert_eq!(
        eval_parf(1, &p),
        Some(ParfFormula::Logarithm {
            g: 11,
            a: 12,
            b: 13,
            c: 14,
            d: 15
        })
    );
    assert_eq!(
        eval_parf(2, &p),
        Some(ParfFormula::Exponential {
            a: 11,
            b: 12,
            c: 13,
            d: 14,
            e: 15
        })
    );
    assert_eq!(
        eval_parf(3, &p),
        Some(ParfFormula::ScaledPower {
            g: 11,
            a: 12,
            b: 13,
            c: 14,
            d: 15
        })
    );
    assert_eq!(eval_parf(4, &p), None);
    // What is missing is zero.
    assert_eq!(
        eval_parf(0, &p[..2]),
        Some(ParfFormula::Power {
            g: 11,
            a: 12,
            b: 0,
            c: 0
        })
    );
}

#[test]
fn samples_beyond_the_end_repeat_the_last() {
    assert_eq!(sample_neighbours(0, 1), (0, 0));
    assert_eq!(sample_neighbours(0, 3), (0, 1));
    assert_eq!(sample_neighbours(1, 3), (1, 2));
    assert_eq!(sample_neighbours(2, 3), (2, 2));
    assert_eq!(sample_neighbours(usize::MAX, 3), (2, 2));
}

const VALUES: [f32; 12] = [
    0.1, 0.2, 0.3, 0.4, 0.5, 0.6, 0.7, 0.8, 0.9, 1.0, 1.1, 1.2,
];

#[test]
fn matrices_are_read_row_by_row() {
    let (m, o) = read_matf_element(&matf(&VALUES)).unwrap();
    for r in 0..3 {
        for c in 0..3 {
            assert_eq!(m.v[r][c], VALUES[3 * r + c].to_bits());
        }
        assert_eq!(o.v[r], VALUES[9 + r].to_bits());
    }
}

#[test]
fn matrices_are_checked() {
    let blob = matf(&VALUES);
    for n in 0..blob.len() {
        assert_eq!(
            read_matf_element(&blob[..n]).map(|_| ()),
            Err(CmsError::InvalidProfile)
        );
    }
    for i in [0, 9, 11] {
        let mut other = blob.clone();
        other[i] ^= 1;
        assert_eq!(
            read_matf_element(&other).map(|_| ()),
            Err(CmsError::InvalidProfile)
        );
    }
}

fn kinds(curves: &[CurveSource]) -> Vec<bool> {
    curves
        .iter()
        .map(|c| matches!(c, CurveSource::Segmented { invert: false, .. }))
        .collect()
}

#[test]
fn curve_sets_are_read() {
    // Another kind of curve counts as the identity.
    let other = b"sngf".to_vec();
    let blob = cvst(2, 3, &[identity_curf(), other, identity_curf()]);
    let curves = read_cvst_element(&blob).unwrap();
    assert_eq!(kinds(&curves), vec![true, false, true]);
    assert!(matches!(curves[1], CurveSource::Identity));
}

#[test]
fn curve_sets_are_checked() {
    let one = identity_curf();
    let read = |b: &[u8]| read_cvst_element(b).map(|c| c.len());
    let blob = cvst(1, 1, &[one.clone()]);
    assert_eq!(read(&blob), Ok(1));
    for n in 0..blob.len() {
        assert_eq!(read(&blob[..n]), Err(CmsError::InvalidProfile));
    }
    assert_eq!(read(&cvst(0, 0, &[])), Err(CmsError::InvalidProfile));
    let sixteen: Vec<Vec<u8>> = (0..16).map(|_| one.clone()).collect();
    assert_eq!(read(&cvst(16, 1, &sixteen)), Ok(16));
    let seventeen: Vec<Vec<u8>> = (0..17).map(|_| one.clone()).collect();
    assert_eq!(
        read(&cvst(17, 17, &seventeen)),
        Err(CmsError::InvalidProfile)
    );
    // A curve of fewer than four bytes, and one with an error inside.
    assert_eq!(
        read(&cvst(1, 1, &[vec![1, 2, 3]])),
        Err(CmsError::InvalidProfile)
    );
    assert_eq!(
        read(&cvst(1, 1, &[b"curf".to_vec()])),
        Err(CmsError::InvalidProfile)
    );
    let mut other = blob.clone();
    other[0] = b'x';
    assert_eq!(read(&other), Err(CmsError::InvalidProfile));
    // An offset and a size whose sum cannot be counted in 32 bits.
    let mut far = blob.clone();
    for i in 12..20 {
        far[i] = 0xff;
    }
    let expect = if usize::BITS == 64 {
        CmsError::InvalidProfile
    } else {
        CmsError::OverflowingError
    };
    assert_eq!(read(&far), Err(expect));
}

fn rgb_cvst() -> Vec<u8> {
    cvst(3, 3, &[identity_curf(), identity_curf(), identity_curf()])
}

#[test]
fn chains_of_one_or_two_elements_are_matrix_shapers() {
    let one = 1.0f32.to_bits();
    let read = |elements: &[Vec<u8>]| {
        let tag = mpet(3, 3, elements);
        read_mpet_matrix_shaper(&tag, 0, tag.len()).unwrap().unwrap()
    };
    let m = read(&[matf(&VALUES)]);
    assert!(!m.curves_first);
    assert_eq!(kinds(&m.curves), vec![false; 3]);
    assert_eq!(m.matrix.v[1][2], VALUES[5].to_bits());
    assert_eq!(m.offset.v[2], VALUES[11].to_bits());

    let c = read(&[rgb_cvst()]);
    assert!(c.curves_first);
    assert_eq!(kinds(&c.curves), vec![true; 3]);
    assert_eq!(
        c.matrix.v,
        [[one, 0, 0], [0, one, 0], [0, 0, one]]
    );
    assert_eq!(c.offset.v, [0; 3]);

    let cm = read(&[rgb_cvst(), matf(&VALUES)]);
    assert!(cm.curves_first);
    assert_eq!(kinds(&cm.curves), vec![true; 3]);
    assert_eq!(cm.matrix.v[0][0], VALUES[0].to_bits());

    let mc = read(&[matf(&VALUES), rgb_cvst()]);
    assert!(!mc.curves_first);
    assert_eq!(kinds(&mc.curves), vec![true; 3]);
    assert_eq!(mc.matrix.v[2][1], VALUES[7].to_bits());
}

/// What becomes of a tag: an error, nothing, or a shaper.
fn outcome(tag: &[u8], entry: usize, size: usize) -> Result<bool, CmsError> {
    read_mpet_matrix_shaper(tag, entry, size).map(|r| r.is_some())
}

#[test]
fn other_chains_are_passed_over() {
    let all = |tag: Vec<u8>| outcome(&tag, 0, tag.len());
    assert_eq!(all(mpet(3, 3, &[rgb_cvst()])), Ok(true));
    assert_eq!(all(mpet(4, 3, &[rgb_cvst()])), Ok(false));
    assert_eq!(all(mpet(3, 1, &[rgb_cvst()])), Ok(false));
    assert_eq!(all(mpet(3, 3, &[])), Ok(false));
    assert_eq!(
        all(mpet(3, 3, &[rgb_cvst(), matf(&VALUES), rgb_cvst()])),
        Ok(false)
    );
    assert_eq!(all(mpet(3, 3, &[b"clut".to_vec()])), Ok(false));
    assert_eq!(
        all(mpet(3, 3, &[b"calc".to_vec(), matf(&VALUES)])),
        Ok(false)
    );
    assert_eq!(all(mpet(3, 3, &[matf(&VALUES), matf(&VALUES)])), Ok(false));
    // Fewer than three curves.
    let two = cvst(2, 2, &[identity_curf(), identity_curf()]);
    assert_eq!(all(mpet(3, 3, &[two.clone()])), Ok(false));
    assert_eq!(all(mpet(3, 3, &[two.clone(), matf(&VALUES)])), Ok(false));
    assert_eq!(all(mpet(3, 3, &[matf(&VALUES), two])), Ok(false));
    let mut other = mpet(3, 3, &[rgb_cvst()]);
    other[0] = b'x';
    assert_eq!(all(other), Ok(false));
    assert_eq!(outcome(&[], 0, 15), Ok(false));
}

#[test]
fn broken_chains_are_errors() {
    let tag = mpet(3, 3, &[rgb_cvst(), matf(&VALUES)]);
    let bad = Err(CmsError::InvalidProfile);
    assert_eq!(outcome(&tag, 0, tag.len()), Ok(true));
    assert_eq!(outcome(&tag, 1, tag.len()), bad);
    assert_eq!(
        outcome(&tag, usize::MAX, 16),
        Err(CmsError::OverflowingError)
    );
    // The table is cut off, then the elements.
    assert_eq!(outcome(&tag, 0, 31), bad);
    assert_eq!(outcome(&tag, 0, tag.len() - 1), bad);
    assert_eq!(
        outcome(&mpet(3, 3, &[vec![1, 2, 3]]), 0, 27),
        bad
    );
    // An element that is announced but broken.
    let short = mpet(3, 3, &[b"matf".to_vec()]);
    assert_eq!(outcome(&short, 0, short.len()), bad);
    let empty = mpet(3, 3, &[b"cvst".to_vec(), matf(&VALUES)]);
    assert_eq!(outcome(&empty, 0, empty.len()), bad);
    let late = mpet(3, 3, &[matf(&VALUES), b"cvst".to_vec()]);
    assert_eq!(outcome(&late, 0, late.len()), bad);
    // A second element outside the tag counts before what the first one is.
    let mut outside = mpet(3, 3, &[b"clut".to_vec(), b"clut".to_vec()]);
    outside[27] = 0xff;
    assert_eq!(outcome(&outside, 0, outside.len()), bad);
}

#[test]
fn tags_are_read_alone() {
    let tag = mpet(3, 3, &[matf(&VALUES), rgb_cvst()]);
    let mut profile = vec![0xeeu8; 11];
    profile.extend(&tag);
    profile.extend([0xdd; 9]);
    let here = read_mpet_matrix_shaper(&tag, 0, tag.len());
    let there = read_mpet_matrix_shaper(&profile, 11, tag.len());
    assert_eq!(format!("{here:?}"), format!("{there:?}"));
    let cept = tstr(b"cept", &srgb_tags());
    let mut profile = vec![1u8; 6];
    profile.extend(&cept);
    let here = read_cept_matrix_shaper(&cept, 0, cept.len());
    let there = read_cept_matrix_shaper(&profile, 6, cept.len());
    assert!(matches!(here, Ok(Some(_))));
    assert_eq!(format!("{here:?}"), format!("{there:?}"));
}

#[test]
fn colour_encodings_are_read() {
    let tag = tstr(b"cept", &srgb_tags());
    let shaper = read_cept_matrix_shaper(&tag, 0, tag.len())
        .unwrap()
        .unwrap();
    assert_eq!(
        shaper.red_xy,
        Chromaticity {
            x: 0.64f32.to_bits(),
            y: 0.33f32.to_bits(),
            z: Some(0.03f32.to_bits())
        }
    );
    assert_eq!(
        shaper.white_xy,
        Chromaticity {
            x: 0.3127f32.to_bits(),
            y: 0.3290f32.to_bits(),
            z: None
        }
    );
    assert_eq!(shaper.green_xy.y, 0.6f32.to_bits());
    assert_eq!(shaper.blue_xy.x, 0.15f32.to_bits());
    assert!(matches!(
        shaper.trc,
        CurveSource::Segmented { invert: true, .. }
    ));
    assert_eq!(shaper.reference_name, None);
}

fn cept_outcome(id: &[u8; 4], tags: &[(&[u8; 4], Vec<u8>)]) -> Result<bool, CmsError> {
    let tag = tstr(id, tags);
    read_cept_matrix_shaper(&tag, 0, tag.len()).map(|r| r.is_some())
}

#[test]
fn incomplete_colour_encodings_are_passed_over() {
    assert_eq!(cept_outcome(b"cept", &srgb_tags()), Ok(true));
    assert_eq!(cept_outcome(b"brdf", &srgb_tags()), Ok(false));
    assert_eq!(
        read_cept_matrix_shaper(&[0; 40], 0, 40).map(|r| r.is_some()),
        Ok(false)
    );
    assert_eq!(
        read_cept_matrix_shaper(&[], usize::MAX, 40).map(|r| r.is_some()),
        Ok(false)
    );
    for missing in 0..5 {
        let mut tags = srgb_tags();
        tags.remove(missing);
        assert_eq!(cept_outcome(b"cept", &tags), Ok(false), "{missing}");
    }
    // A transfer function that is no segmented curve.
    let mut tags = srgb_tags();
    tags[4].1 = b"para1234".to_vec();
    assert_eq!(cept_outcome(b"cept", &tags), Ok(false));
}

#[test]
fn broken_colour_encodings_are_errors() {
    let bad = Err(CmsError::InvalidProfile);
    for i in 0..4 {
        let mut tags = srgb_tags();
        tags[i].1 = fl32(&[0.5]);
        assert_eq!(cept_outcome(b"cept", &tags), bad);
        tags[i].1 = b"XYZ 0000".to_vec();
        assert_eq!(cept_outcome(b"cept", &tags), bad);
    }
    let mut tags = srgb_tags();
    tags[4].1 = b"curf0000".to_vec();
    assert_eq!(cept_outcome(b"cept", &tags), bad);
    // A broken chromaticity counts even where another one is missing.
    let mut tags = srgb_tags();
    tags[0].1 = fl32(&[0.5]);
    tags.remove(3);
    assert_eq!(cept_outcome(b"cept", &tags), bad);
}
