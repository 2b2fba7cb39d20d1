//! Tone curves as tables, and the recognition of well-known encodings.

use moxcms::iccmax::canonical::{
    match_canonical_primaries, match_canonical_transfer, max_err, CicpColorPrimaries,
    TransferCharacteristics, TRANSFER_CANDIDATES, TRANSFER_SAMPLES, TRANSFER_TOLERANCE,
};
use moxcms::iccmax::cept::Chromaticity;
use moxcms::iccmax::tone_curve::{
    inverse_cells, sample_curve, CurveSamples, ToneReprCurve, SEGMENTED_CURVE_SAMPLES,
};

fn xy(x: f32, y: f32) -> Chromaticity {
    Chromaticity {
        x: x.to_bits(),
        y: y.to_bits(),
        z: None,
    }
}

#[test]
fn known_primaries_are_recognised() {
    let d65 = xy(0.3127, 0.3290);
    assert_eq!(
        match_canonical_primaries(xy(0.64, 0.33), xy(0.30, 0.60), xy(0.15, 0.06), d65),
        Some(CicpColorPrimaries::Bt709)
    );
    assert_eq!(
        match_canonical_primaries(xy(0.708, 0.292), xy(0.170, 0.797), xy(0.131, 0.046), d65),
        Some(CicpColorPrimaries::Bt2020)
    );
    let (r, g, b) = (xy(0.680, 0.320), xy(0.265, 0.690), xy(0.150, 0.060));
    assert_eq!(
        match_canonical_primaries(r, g, b, d65),
        Some(CicpColorPrimaries::Smpte432)
    );
    assert_eq!(
        match_canonical_primaries(r, g, b, xy(0.314, 0.351)),
        Some(CicpColorPrimaries::Smpte431)
    );
    assert_eq!(match_canonical_primaries(r, g, b, xy(0.3457, 0.3585)), None);
    assert_eq!(
        match_canonical_primaries(xy(0.64, 0.33), xy(0.21, 0.71), xy(0.15, 0.06), d65),
        None
    );
    assert_eq!(
        match_canonical_primaries(xy(f32::NAN, 0.33), xy(0.30, 0.60), xy(0.15, 0.06), d65),
        None
    );
    assert_eq!(
        match_canonical_primaries(xy(0.64, 0.33), xy(0.30, -0.60), xy(0.15, 0.06), d65),
        None
    );
    assert_eq!(
        match_canonical_primaries(xy(0.64, f32::INFINITY), xy(0.30, 0.60), xy(0.15, 0.06), d65),
        None
    );
}

/// The tolerance in double precision.
fn near(a: f32, c: f64) -> bool {
    (a as f64 - c).abs() < 0.005
}

#[test]
fn tolerance_ends_where_double_precision_ends_it() {
    // Around either end of the tolerance of each coordinate, one coordinate at a time.
    let sets: [([(f32, f32); 4], CicpColorPrimaries); 4] = [
        (
            [(0.64, 0.33), (0.30, 0.60), (0.15, 0.06), (0.3127, 0.3290)],
            CicpColorPrimaries::Bt709,
        ),
        (
            [
                (0.708, 0.292),
                (0.170, 0.797),
                (0.131, 0.046),
                (0.3127, 0.3290),
            ],
            CicpColorPrimaries::Bt2020,
        ),
        (
            [
                (0.680, 0.320),
                (0.265, 0.690),
                (0.150, 0.060),
                (0.3127, 0.3290),
            ],
            CicpColorPrimaries::Smpte432,
        ),
        (
            [
                (0.680, 0.320),
                (0.265, 0.690),
                (0.150, 0.060),
                (0.314, 0.351),
            ],
            CicpColorPrimaries::Smpte431,
        ),
    ];
    let exact: [[(f64, f64); 4]; 4] = [
        [(0.64, 0.33), (0.30, 0.60), (0.15, 0.06), (0.3127, 0.3290)],
        [
            (0.708, 0.292),
            (0.170, 0.797),
            (0.131, 0.046),
            (0.3127, 0.3290),
        ],
        [
            (0.680, 0.320),
            (0.265, 0.690),
            (0.150, 0.060),
            (0.3127, 0.3290),
        ],
        [
            (0.680, 0.320),
            (0.265, 0.690),
            (0.150, 0.060),
            (0.314, 0.351),
        ],
    ];
    for (s, (set, name)) in sets.iter().enumerate() {
        for which in 0..4 {
            for first in [true, false] {
                let c = if first {
                    exact[s][which].0
                } else {
                    exact[s][which].1
                };
                for end in [c - 0.005, c + 0.005] {
                    let middle = (end as f32).to_bits();
                    for bits in middle - 40..=middle + 40 {
                        let v = f32::from_bits(bits);
                        let mut moved = *set;
                        if first {
                            moved[which].0 = v;
                        } else {
                            moved[which].1 = v;
                        }
                        let p = moved.map(|(x, y)| xy(x, y));
                        let got = match_canonical_primaries(p[0], p[1], p[2], p[3]);
                        let expect = if near(v, c) { Some(*name) } else { None };
                        assert_eq!(got, expect, "{name:?} {which} {first} {v}");
                    }
                }
            }
        }
    }
}

#[test]
fn the_worst_difference_is_the_largest_number() {
    let mut d = [0.0f64; TRANSFER_SAMPLES];
    assert_eq!(max_err(&d.map(f64::to_bits)), 0.0f64.to_bits());
    d[3] = 0.5;
    d[20] = 0.25;
    d[32] = f64::NAN;
    assert_eq!(max_err(&d.map(f64::to_bits)), 0.5f64.to_bits());
    d[32] = 0.75;
    assert_eq!(max_err(&d.map(f64::to_bits)), 0.75f64.to_bits());
    assert_eq!(f64::from_bits(TRANSFER_TOLERANCE), 300.0 / 65535.0);
}

const NAMES: [TransferCharacteristics; TRANSFER_CANDIDATES] = [
    TransferCharacteristics::Srgb,
    TransferCharacteristics::Bt709,
    TransferCharacteristics::Bt470M,
    TransferCharacteristics::Bt202010bit,
    TransferCharacteristics::Linear,
    TransferCharacteristics::Smpte428,
    TransferCharacteristics::Smpte2084,
];

/// Differences of which each candidate has the given one at its last point.
fn last_diffs(errors: [f64; 7]) -> [[u64; 33]; 7] {
    errors.map(|e| {
        let mut d = [0u64; 33];
        d[32] = e.to_bits();
        d
    })
}

#[test]
fn the_first_smallest_error_below_the_tolerance_wins() {
    assert_eq!(match_canonical_transfer(&last_diffs([1.0; 7])), None);
    // Three hundred units of 16 bits are too many, and a little less is not.
    let limit = 300.0 / 65535.0;
    assert_eq!(match_canonical_transfer(&last_diffs([limit; 7])), None);
    for k in 0..7 {
        let mut e = [0.5; 7];
        e[k] = f64::from_bits(TRANSFER_TOLERANCE - 1);
        assert!(e[k] < limit);
        assert_eq!(match_canonical_transfer(&last_diffs(e)), Some(NAMES[k]));
    }
    // Of two that are equal the first, of two others the smaller.
    assert_eq!(
        match_canonical_transfer(&last_diffs([0.0025; 7])),
        Some(NAMES[0])
    );
    assert_eq!(
        match_canonical_transfer(&last_diffs([4e-3, 3e-3, 2e-3, 2e-3, 3e-3, 2.0, 2.0])),
        Some(NAMES[2])
    );
    assert_eq!(
        match_canonical_transfer(&last_diffs([2.0, 4e-3, 3e-3, 2.0, 2.0, 2.0, 1e-3])),
        Some(NAMES[6])
    );
}

fn srgb_ref(x: f64) -> f64 {
    if x <= 0.04045 {
        x / 12.92
    } else {
        ((x + 0.055) / 1.055).powf(2.4)
    }
}

fn bt709_ref(x: f64) -> f64 {
    if x < 0.081 {
        x / 4.5
    } else {
        ((x + 0.099) / 1.099).powf(1.0 / 0.45)
    }
}

fn pq_ref(x: f64) -> f64 {
    let vp = x.powf(1.0 / 78.84375);
    let num = (vp - 0.8359375).max(0.0);
    let den = 18.8515625 - 18.6875 * vp;
    if den <= 0.0 {
        0.0
    } else {
        (num / den).powf(1.0 / 0.1593017578125)
    }
}

/// The values that the library gives for a table.
fn values_of(curve: &ToneReprCurve, samples: usize) -> Vec<u64> {
    match sample_curve(curve, samples) {
        CurveSamples::Values(values) => values,
        CurveSamples::Formula(_) => panic!("not a table"),
    }
}

/// Samples a table with the library and holds it against the seven references.
fn recognise(curve: &ToneReprCurve) -> Option<TransferCharacteristics> {
    let values = values_of(curve, TRANSFER_SAMPLES);
    recognise_values(|i| values[i] as f64 / 32.0 / 65535.0)
}

/// Holds the value at each of 33 points against the seven references.
fn recognise_values(actual: impl Fn(usize) -> f64) -> Option<TransferCharacteristics> {
    let refs: [fn(f64) -> f64; 7] = [
        srgb_ref,
        bt709_ref,
        |x| x.powf(2.2),
        bt709_ref,
        |x| x,
        |x| x.powf(2.4),
        pq_ref,
    ];
    let mut diffs = [[0u64; 33]; 7];
    for (k, reference) in refs.iter().enumerate() {
        for i in 0..33 {
            diffs[k][i] = (actual(i) - reference(i as f64 / 32.0)).abs().to_bits();
        }
    }
    match_canonical_transfer(&diffs)
}

fn table(n: usize, f: fn(f64) -> f64) -> ToneReprCurve {
    ToneReprCurve::Lut(
        (0..n)
            .map(|i| (f(i as f64 / (n - 1) as f64) * 65535.0 + 0.5) as u16)
            .collect(),
    )
}

#[test]
fn known_transfer_curves_are_recognised() {
    assert_eq!(recognise(&table(1024, srgb_ref)), Some(NAMES[0]));
    // The reference of BT.2020 at ten bits is that of BT.709, which is tried first.
    assert_eq!(recognise(&table(1024, bt709_ref)), Some(NAMES[1]));
    assert_eq!(recognise(&table(1024, |x| x.powf(2.2))), Some(NAMES[2]));
    assert_eq!(recognise(&table(2, |x| x)), Some(NAMES[4]));
    assert_eq!(recognise(&ToneReprCurve::Lut(vec![])), Some(NAMES[4]));
    // A straight line that is 100 units off where it starts.
    assert_eq!(
        recognise(&ToneReprCurve::Lut(vec![100, 65535])),
        Some(NAMES[4])
    );
    assert_eq!(recognise(&ToneReprCurve::Lut(vec![299, 65535])), Some(NAMES[4]));
    assert_eq!(recognise(&ToneReprCurve::Lut(vec![301, 65535])), None);
    assert_eq!(recognise(&table(1024, |x| x.powf(2.4))), Some(NAMES[5]));
    assert_eq!(recognise(&table(4096, pq_ref)), Some(NAMES[6]));
    assert_eq!(recognise(&table(1024, |x| x.powf(1.8))), None);
}

#[test]
fn samples_are_those_of_double_precision() {
    for n in [1usize, 2, 3, 32, 33, 34, 256, 1000, 1024, 4096] {
        let lut: Vec<u16> = (0..n)
            .map(|i| (i as u32).wrapping_mul(0x9E37_79B1) as u16)
            .collect();
        let got = values_of(&ToneReprCurve::Lut(lut.clone()), 33);
        assert_eq!(got.len(), 33);
        for i in 0..33 {
            let pos = (i as f64 / 32.0) * (n - 1) as f64;
            let i0 = pos.floor() as usize;
            let i1 = (i0 + 1).min(n - 1);
            let frac = pos - i0 as f64;
            let v = (lut[i0] as f64 * (1.0 - frac) + lut[i1] as f64 * frac) / 65535.0;
            assert_eq!(v, got[i] as f64 / 32.0 / 65535.0, "{n} {i}");
            assert!(got[i] <= 32 * 65535);
        }
        assert_eq!(got[0], lut[0] as u64 * 32);
        assert_eq!(got[32], lut[n - 1] as u64 * 32);
    }
    let ramp = values_of(&ToneReprCurve::Lut(vec![]), 5);
    assert_eq!(ramp, vec![0, 65535, 131070, 196605, 262140]);
    let two = ToneReprCurve::Lut(vec![100, 200]);
    assert_eq!(values_of(&two, 5), vec![400, 500, 600, 700, 800]);
}

#[test]
fn a_parametric_curve_is_sampled_by_its_formula() {
    let gamma = ToneReprCurve::Parametric(vec![2.2f32.to_bits()]);
    let params = match sample_curve(&gamma, 33) {
        CurveSamples::Formula(params) => params,
        CurveSamples::Values(_) => panic!("not a formula"),
    };
    assert_eq!(params, [2.2f32.to_bits()]);
    // What the formula gives is recognised for what it is, and not as the identity.
    let g = f32::from_bits(params[0]) as f64;
    assert_eq!(
        recognise_values(|i| (i as f64 / 32.0).powf(g)),
        Some(TransferCharacteristics::Bt470M)
    );
}

/// The scan in double precision.
fn cells_in_doubles(samples: &[u16]) -> Vec<usize> {
    let n = samples.len();
    let mut j = 0usize;
    (0..n)
        .map(|i| {
            let target = (i as f64 / (n - 1) as f64) * 65535.0;
            while j + 1 < n && (samples[j + 1] as f64) < target {
                j += 1;
            }
            j
        })
        .collect()
}

#[test]
fn inverse_cells_are_those_of_double_precision() {
    let n = SEGMENTED_CURVE_SAMPLES;
    let curves: [fn(usize) -> u16; 7] = [
        |i| (i * 65535 / 1023) as u16,
        |i| ((i as f64 / 1023.0).powf(2.2) * 65535.0 + 0.5) as u16,
        |i| ((i as f64 / 1023.0).powf(1.0 / 2.4) * 65535.0 + 0.5) as u16,
        |i| (i as u32).wrapping_mul(0x9E37_79B1) as u16,
        |_| 0,
        |_| 65535,
        |i| if i % 3 == 0 { 21845 } else { 43690 },
    ];
    for f in curves {
        let samples: Vec<u16> = (0..n).map(f).collect();
        let cells = inverse_cells(&samples);
        assert_eq!(cells, cells_in_doubles(&samples));
        for pair in cells.windows(2) {
            assert!(pair[0] <= pair[1]);
        }
    }
    // Every value at every step: one entry of a table that is zero up to it.
    for i in (0..n).step_by(11) {
        for v in [
            (i * 65535 / 1023) as u16,
            (i * 65535 / 1023).saturating_sub(1) as u16,
            (i * 65535 / 1023 + 1).min(65535) as u16,
        ] {
            let mut samples = vec![0u16; n];
            for s in samples[n / 2..].iter_mut() {
                *s = v;
            }
            assert_eq!(inverse_cells(&samples), cells_in_doubles(&samples));
        }
    }
}

#[test]
fn a_rising_table_brackets_its_steps() {
    let samples: Vec<u16> = (0..1024u64).map(|i| (i * i * 65535 / (1023 * 1023)) as u16).collect();
    let cells = inverse_cells(&samples);
    assert_eq!(cells[0], 0);
    assert_eq!(cells[1023], 1022);
    for (i, &j) in cells.iter().enumerate() {
        assert!(samples[j] as usize * 1023 <= i * 65535);
        if j < 1023 {
            assert!(i * 65535 <= samples[j + 1] as usize * 1023);
        }
    }
}
