//! The ways in which the library fails.

use vstd::prelude::*;

verus! {

/// Why a kernel node could not be attached, or a snapshot not be read.
#[derive(Debug, Copy, Clone, PartialEq, Eq, Hash, Structural)]
pub enum Error {
    /// No entry of the platform's registry has the handle's device number.
    NotFound,
    /// The handle did not give the name, vendor and product of its device.
    IdentityUnavailable,
    /// The text is no snapshot that this version of the library wrote.
    MalformedSnapshot,
}

} // verus!
