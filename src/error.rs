//! Errors reported by the capture pipeline.

use vstd::prelude::*;

verus! {

/// Every failure of the pipeline, scoped to the operation that reported it.
#[derive(Clone, Copy, Debug, PartialEq, Eq, Structural)]
pub enum ScrollError {
    /// A session is already `Initialized` or `Capturing`.
    AlreadyActive,
    /// A frame's geometry does not fit the session or the composite.
    SizeMismatch,
    /// The screen-capture provider failed; the caller may retry.
    CaptureFailed,
    /// The file or clipboard writer failed.
    EncodeFailed,
    /// The operation needs a session that `init` has started.
    NotInitialized,
}

} // verus!
