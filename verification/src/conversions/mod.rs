//! Interpolation in three-dimensional look-up cubes.
//!
//! `cell` finds the grid cell an input falls into and chooses the cube vertices that an
//! interpolation method reads. `lanes` holds the 16-bit vector arithmetic, with one
//! implementation for each instruction tier. The two `simd_interp_*` modules put these
//! together into fixed-point interpolators, and `laws` states what holds of all of them.
//! `lookup_laws` says what each interpolator gives in terms of the axis table and the cube, and
//! `accuracy` and `tetra_laws` how close that comes to the exact values.

pub mod accuracy;
pub mod cell;
pub mod lanes;
pub mod laws;
pub mod lookup_laws;
pub mod simd_interp_q0_15;
pub mod simd_interp_q0_15_double;
pub mod tetra_laws;
