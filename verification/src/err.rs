//! What can go wrong while a profile is read.

use vstd::prelude::*;

verus! {

/// The reason why a profile could not be read.
#[derive(Clone, Copy, Debug, PartialEq, Eq, Structural)]
pub enum CmsError {
    /// The bytes are not what the format asks for.
    InvalidProfile,
    /// A position or a size in the profile cannot be counted on this machine.
    OverflowingError,
}

} // verus!
