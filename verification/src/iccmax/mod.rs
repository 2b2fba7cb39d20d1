//! Readers for the tag types and processing elements of iccMAX profiles.
//!
//! The subset is that of matrix-shaper profiles: `utf8` text, the `cept` tag structure, and
//! `mpet` chains of a `cvst` curve set and a `matf` matrix, with `curf` segmented curves of
//! `parf` formulas and `samf` samples.
//!
//! The modules whose names end in `laws` state what holds of the readers for all bytes.
//! `curve_bytes` and `mpet_bytes` say how curves and matrix shapers are stored, and that they are
//! read back.

pub mod canonical;
pub mod canonical_laws;
pub mod cept;
pub mod cept_laws;
pub mod curve_bytes;
pub mod curve_eval;
pub mod element_laws;
pub mod elements;
pub mod eval_laws;
pub mod fixed_point;
pub mod laws;
pub mod mpet;
pub mod mpet_bytes;
pub mod mpet_laws;
pub mod segment_laws;
pub mod segmented_curve;
pub mod tag_struct;
pub mod tone_curve;
pub mod utf8_tag;
pub mod view_laws;
