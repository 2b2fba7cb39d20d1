//! Recognition of well-known primaries and transfer characteristics.

use crate::float_bits::{f32_is_infinite, f32_is_nan, f32_value, f64_is_nan, f64_lt, f64_value};
use crate::iccmax::canonical_laws::lemma_close_is_close_everywhere;
use crate::iccmax::cept::Chromaticity;
use vstd::arithmetic::power2::{
    lemma2_to64, lemma_pow2_adds, lemma_pow2_pos, lemma_pow2_strictly_increases, pow2,
};
use vstd::prelude::*;

verus! {

/// Colour primaries by their code point name.
#[derive(Clone, Copy, Debug, PartialEq, Eq, Structural)]
pub enum CicpColorPrimaries {
    Bt709,
    Bt2020,
    Smpte431,
    Smpte432,
}

/// Transfer characteristics by their code point name.
#[derive(Clone, Copy, Debug, PartialEq, Eq, Structural)]
pub enum TransferCharacteristics {
    Srgb,
    Bt709,
    Bt470M,
    Bt202010bit,
    Linear,
    Smpte428,
    Smpte2084,
}

/// At how many points a curve is held against a reference.
pub const TRANSFER_SAMPLES: usize = 33;

/// How many transfer characteristics are known.
pub const TRANSFER_CANDIDATES: usize = 7;

/// What the largest difference has to stay below: the binary64 pattern of 300 / 65535, a few
/// hundred units of 16 bits.
pub const TRANSFER_TOLERANCE: u64 = 0x3f72_c012_c012_c013;

/// The number is less than 0.005 away from `c` ten-thousandths.
pub open spec fn is_near(x: u32, c: int) -> bool {
    &&& !f32_is_nan(x) && !f32_is_infinite(x)
    &&& -50 * pow2(149) < 10000 * f32_value(x) - c * pow2(149) < 50 * pow2(149)
}

/// Both coordinates are near the given ten-thousandths.
pub open spec fn is_near_xy(a: Chromaticity, x: int, y: int) -> bool {
    is_near(a.x, x) && is_near(a.y, y)
}

/// The white point D65.
pub open spec fn is_d65(w: Chromaticity) -> bool {
    is_near_xy(w, 3127, 3290)
}

/// The primaries that four chromaticities are near to.
pub open spec fn primaries_of(
    r: Chromaticity,
    g: Chromaticity,
    b: Chromaticity,
    w: Chromaticity,
) -> Option<CicpColorPrimaries> {
    if is_near_xy(r, 6400, 3300) && is_near_xy(g, 3000, 6000) && is_near_xy(b, 1500, 600) && is_d65(
        w,
    ) {
        Some(CicpColorPrimaries::Bt709)
    } else if is_near_xy(r, 7080, 2920) && is_near_xy(g, 1700, 7970) && is_near_xy(b, 1310, 460)
        && is_d65(w) {
        Some(CicpColorPrimaries::Bt2020)
    } else if is_near_xy(r, 6800, 3200) && is_near_xy(g, 2650, 6900) && is_near_xy(b, 1500, 600) {
        if is_d65(w) {
            Some(CicpColorPrimaries::Smpte432)
        } else if is_near_xy(w, 3140, 3510) {
            Some(CicpColorPrimaries::Smpte431)
        } else {
            None
        }
    } else {
        None
    }
}

/// A binary32 number with exponent field `e` is worth its significand times a power of two.
proof fn lemma_near_range(x: u32, e: nat, f: nat, c: int)
    requires
        x < 0x8000_0000,
        e == x as nat / 0x80_0000,
        f == x as nat % 0x80_0000,
        200 <= c <= 9000,
    ensures
        !(120 <= e <= 127) ==> !is_near(x, c),
        120 <= e <= 127 ==> (is_near(x, c) <==> ({
            let v = (0x80_0000 + f) * pow2((e - 120) as nat);
            -50 * 0x4000_0000 < 10000 * v - c * 0x4000_0000 < 50 * 0x4000_0000
        })),
{
    lemma2_to64();
    let unit = pow2(119) as int;
    lemma_pow2_pos(119);
    lemma_pow2_adds(30, 119);
    assert(pow2(149) == 0x4000_0000 * unit);
    if e == 0 {
        lemma_pow2_strictly_increases(30, 119);
        assert(10000 * f - c * (0x4000_0000 * unit) <= -50 * (0x4000_0000 * unit))
            by (nonlinear_arith)
            requires
                0 <= f < 0x80_0000,
                unit >= 0x4000_0000,
                c >= 200,
        ;
    } else if e < 120 {
        let q = pow2((e - 1) as nat) as int;
        assert(q <= unit / 2 && unit % 2 == 0) by {
            lemma_pow2_adds(1, 118);
            if e < 119 {
                lemma_pow2_strictly_increases((e - 1) as nat, 118);
            }
        }
        let value = (0x80_0000 + f) * q;
        assert(value <= 0x80_0000 * unit) by (nonlinear_arith)
            requires
                value == (0x80_0000 + f) * q,
                0 <= f < 0x80_0000,
                2 * q <= unit,
                0 <= q,
        ;
        assert(10000 * value - c * (0x4000_0000 * unit) <= -50 * (0x4000_0000 * unit))
            by (nonlinear_arith)
            requires
                value <= 0x80_0000 * unit,
                unit > 0,
                c >= 200,
        ;
    } else if e <= 127 {
        let p = pow2((e - 120) as nat) as int;
        let v = (0x80_0000 + f) * p;
        lemma_pow2_adds((e - 120) as nat, 119);
        let value = f32_value(x);
        assert(value == v * unit) by (nonlinear_arith)
            requires
                value == (0x80_0000 + f) * (p * unit),
                v == (0x80_0000 + f) * p,
        ;
        let d = 10000 * v - c * 0x4000_0000;
        assert(10000 * value - c * (0x4000_0000 * unit) == d * unit) by (nonlinear_arith)
            requires
                value == v * unit,
                d == 10000 * v - c * 0x4000_0000,
        ;
        assert(-50 * (0x4000_0000 * unit) < d * unit <==> -50 * 0x4000_0000 < d)
            by (nonlinear_arith)
            requires
                unit > 0,
        ;
        assert(d * unit < 50 * (0x4000_0000 * unit) <==> d < 50 * 0x4000_0000)
            by (nonlinear_arith)
            requires
                unit > 0,
        ;
    } else {
        let q = pow2((e - 1) as nat) as int;
        assert(q >= 256 * unit) by {
            lemma_pow2_adds(8, 119);
            if e > 128 {
                lemma_pow2_strictly_increases(127, (e - 1) as nat);
            }
        }
        let value = (0x80_0000 + f) * q;
        assert(value >= 0x8000_0000 * unit) by (nonlinear_arith)
            requires
                value == (0x80_0000 + f) * q,
                0 <= f,
                q >= 256 * unit,
                unit > 0,
        ;
        assert(10000 * value - c * (0x4000_0000 * unit) >= 50 * (0x4000_0000 * unit))
            by (nonlinear_arith)
            requires
                value >= 0x8000_0000 * unit,
                unit > 0,
                c <= 9000,
        ;
    }
}

/// Whether a number is less than 0.005 away from `c` ten-thousandths.
fn near(x: u32, c: u32) -> (r: bool)
    requires
        200 <= c <= 9000,
    ensures
        r == is_near(x, c as int),
{
    if x >= 0x8000_0000 {
        proof {
            lemma_pow2_pos(149);
            let p = pow2(149) as int;
            assert(f32_value(x) <= 0);
            assert(10000 * f32_value(x) - c * p <= -50 * p) by (nonlinear_arith)
                requires
                    f32_value(x) <= 0,
                    p > 0,
                    c >= 200,
            ;
        }
        return false;
    }
    let e: u32 = x / 0x80_0000;
    let f: u32 = x % 0x80_0000;
    proof {
        lemma_near_range(x, e as nat, f as nat, c as int);
    }
    if e < 120 || e > 127 {
        return false;
    }
    proof {
        lemma2_to64();
    }
    let scale: i64 = match e {
        120 => 1,
        121 => 2,
        122 => 4,
        123 => 8,
        124 => 16,
        125 => 32,
        126 => 64,
        _ => 128,
    };
    assert(scale == pow2((e - 120) as nat));
    let v: i64 = (0x80_0000 + f as i64) * scale;
    let d: i64 = 10000 * v - c as i64 * 0x4000_0000;
    -50 * 0x4000_0000 < d && d < 50 * 0x4000_0000
}

/// Whether both coordinates are near the given ten-thousandths.
fn near_xy(a: &Chromaticity, x: u32, y: u32) -> (r: bool)
    requires
        200 <= x <= 9000,
        200 <= y <= 9000,
    ensures
        r == is_near_xy(*a, x as int, y as int),
{
    near(a.x, x) && near(a.y, y)
}

/// Recognises the primaries of a colour encoding. Each coordinate may be off by less than
/// 0.005.
pub fn match_canonical_primaries(
    r: Chromaticity,
    g: Chromaticity,
    b: Chromaticity,
    w: Chromaticity,
) -> (p: Option<CicpColorPrimaries>)
    ensures
        p == primaries_of(r, g, b, w),
{
    let d65 = near_xy(&w, 3127, 3290);
    if near_xy(&r, 6400, 3300) && near_xy(&g, 3000, 6000) && near_xy(&b, 1500, 600) && d65 {
        return Some(CicpColorPrimaries::Bt709);
    }
    if near_xy(&r, 7080, 2920) && near_xy(&g, 1700, 7970) && near_xy(&b, 1310, 460) && d65 {
        return Some(CicpColorPrimaries::Bt2020);
    }
    if near_xy(&r, 6800, 3200) && near_xy(&g, 2650, 6900) && near_xy(&b, 1500, 600) {
        if d65 {
            return Some(CicpColorPrimaries::Smpte432);
        } else if near_xy(&w, 3140, 3510) {
            return Some(CicpColorPrimaries::Smpte431);
        }
    }
    None
}

/// The largest worth among the first `n` of the patterns, and no less than zero. What is not
/// a number does not count.
pub open spec fn largest(d: Seq<u64>, n: nat) -> int
    decreases n,
{
    if n == 0 {
        0
    } else {
        let before = largest(d, (n - 1) as nat);
        if !f64_is_nan(d[n - 1]) && f64_value(d[n - 1]) > before {
            f64_value(d[n - 1])
        } else {
            before
        }
    }
}

/// Each of the differences that is a number is below the tolerance.
pub open spec fn close_everywhere(d: [u64; 33]) -> bool {
    forall|i: int|
        0 <= i < 33 && !f64_is_nan(#[trigger] d@[i]) ==> f64_value(d@[i]) < f64_value(
            TRANSFER_TOLERANCE,
        )
}

/// The largest difference of one candidate.
pub open spec fn worst(diffs: Seq<[u64; 33]>, k: int) -> int {
    largest(diffs[k]@, 33)
}

/// Candidate `k` fits best: its largest difference is below the tolerance, below that of every
/// candidate before it, and not above that of any other.
pub open spec fn fits_best(diffs: Seq<[u64; 33]>, k: int) -> bool {
    &&& 0 <= k < 7
    &&& worst(diffs, k) < f64_value(TRANSFER_TOLERANCE)
    &&& forall|j: int| 0 <= j < k ==> worst(diffs, k) < #[trigger] worst(diffs, j)
    &&& forall|j: int| k <= j < 7 ==> worst(diffs, k) <= #[trigger] worst(diffs, j)
}

/// The candidates, in the order in which they are tried.
pub open spec fn candidate(k: int) -> TransferCharacteristics {
    if k == 0 {
        TransferCharacteristics::Srgb
    } else if k == 1 {
        TransferCharacteristics::Bt709
    } else if k == 2 {
        TransferCharacteristics::Bt470M
    } else if k == 3 {
        TransferCharacteristics::Bt202010bit
    } else if k == 4 {
        TransferCharacteristics::Linear
    } else if k == 5 {
        TransferCharacteristics::Smpte428
    } else {
        TransferCharacteristics::Smpte2084
    }
}

/// The largest of the differences to a reference.
pub fn max_err(d: &[u64; 33]) -> (max: u64)
    ensures
        !f64_is_nan(max),
        f64_value(max) == largest(d@, 33),
        forall|i: int|
            0 <= i < 33 && !f64_is_nan(#[trigger] d@[i]) ==> f64_value(d@[i]) <= f64_value(max),
        max == 0 || exists|i: int| 0 <= i < 33 && #[trigger] d@[i] == max,
{
    let mut max: u64 = 0;
    proof {
        assert(f64_value(0) == 0);
    }
    for i in 0..TRANSFER_SAMPLES
        invariant
            !f64_is_nan(max),
            f64_value(max) == largest(d@, i as nat),
            forall|j: int|
                0 <= j < i && !f64_is_nan(#[trigger] d@[j]) ==> f64_value(d@[j]) <= f64_value(max),
            max == 0 || exists|j: int| 0 <= j < i && #[trigger] d@[j] == max,
    {
        if f64_lt(max, d[i]) {
            max = d[i];
            assert(d@[i as int] == max);
        }
    }
    max
}

/// The candidate with index `k`.
fn candidate_at(k: usize) -> (tc: TransferCharacteristics)
    requires
        k < 7,
    ensures
        tc == candidate(k as int),
{
    match k {
        0 => TransferCharacteristics::Srgb,
        1 => TransferCharacteristics::Bt709,
        2 => TransferCharacteristics::Bt470M,
        3 => TransferCharacteristics::Bt202010bit,
        4 => TransferCharacteristics::Linear,
        5 => TransferCharacteristics::Smpte428,
        _ => TransferCharacteristics::Smpte2084,
    }
}

/// Recognises a transfer characteristic. `diffs` holds, for each candidate in turn, how far
/// the curve is from the candidate's reference at each sample point, as binary64 patterns.
pub fn match_canonical_transfer(diffs: &[[u64; 33]; 7]) -> (r: Option<TransferCharacteristics>)
    ensures
        match r {
            Some(tc) => exists|k: int| #[trigger] fits_best(diffs@, k) && tc == candidate(k),
            None => forall|k: int|
                0 <= k < 7 ==> #[trigger] worst(diffs@, k) >= f64_value(TRANSFER_TOLERANCE),
        },
        match r {
            Some(tc) => exists|k: int|
                0 <= k < 7 && #[trigger] close_everywhere(diffs@[k]) && tc == candidate(k),
            None => forall|k: int| 0 <= k < 7 ==> !#[trigger] close_everywhere(diffs@[k]),
        },
{
    let mut best: Option<(usize, u64)> = None;
    assert(!f64_is_nan(TRANSFER_TOLERANCE));
    for i in 0..TRANSFER_CANDIDATES
        invariant
            !f64_is_nan(TRANSFER_TOLERANCE),
            match best {
                None => forall|j: int|
                    0 <= j < i ==> #[trigger] worst(diffs@, j) >= f64_value(TRANSFER_TOLERANCE),
                Some((k, e)) => {
                    &&& k < i
                    &&& !f64_is_nan(e)
                    &&& f64_value(e) == worst(diffs@, k as int)
                    &&& worst(diffs@, k as int) < f64_value(TRANSFER_TOLERANCE)
                    &&& forall|j: int|
                        0 <= j < k ==> worst(diffs@, k as int) < #[trigger] worst(diffs@, j)
                    &&& forall|j: int|
                        k <= j < i ==> worst(diffs@, k as int) <= #[trigger] worst(diffs@, j)
                },
            },
    {
        let e: u64 = max_err(&diffs[i]);
        assert(f64_value(e) == worst(diffs@, i as int));
        if f64_lt(e, TRANSFER_TOLERANCE) {
            match best {
                None => {
                    best = Some((i, e));
                },
                Some((_, prev)) => {
                    if f64_lt(e, prev) {
                        best = Some((i, e));
                    }
                },
            }
        }
    }
    match best {
        None => {
            proof {
                assert forall|k: int| 0 <= k < 7 implies !#[trigger] close_everywhere(diffs@[k]) by {
                    lemma_close_is_close_everywhere(diffs@, k);
                }
            }
            None
        },
        Some((k, _)) => {
            assert(fits_best(diffs@, k as int));
            proof {
                lemma_close_is_close_everywhere(diffs@, k as int);
            }
            Some(candidate_at(k))
        },
    }
}

} // verus!
