use vstd::prelude::*;

verus! {

/// Why a window was not created. Both failures leave every window as it was,
/// so the caller is free to try again, with another identity or with none.
#[derive(Clone, Copy, Debug, PartialEq, Eq, Structural)]
pub enum Error {
    /// The identity that was asked for belongs to a live window.
    DuplicateIdentity,
    /// The native layer could not bring the window up.
    BackendCreationFailed,
}

} // verus!
