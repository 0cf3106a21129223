use vstd::prelude::*;

verus! {

/// Why a buffer could not be built.
#[derive(Clone, Copy, Debug, PartialEq, Eq, Structural)]
pub enum BufferError {
    /// The file could not be created, truncated, extended or zero-filled.
    CreationFailure,
    /// Another live buffer holds the exclusive lock on the file.
    LockUnavailable,
    /// The mapped bytes are not a whole, aligned run of elements.
    LayoutMismatch,
    /// The file is missing or could not be opened.
    OpenFailure,
}

} // verus!
