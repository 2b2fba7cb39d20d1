//! Colour lookup-table interpolation in fixed point, and readers for iccMAX profiles.

pub mod bytes;
pub mod conversions;
pub mod err;
pub mod float_bits;
pub mod iccmax;
