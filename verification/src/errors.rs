//! Error taxonomy of the core.
//!
//! An import failure is fatal to session start; a traversal failure is
//! fatal to building the timeline; an out-of-range seek is recoverable and
//! rejected without any state change; a checkout failure is propagated for
//! that single seek attempt.  No error is silently swallowed.

use vstd::prelude::*;

verus! {

/// The engine rejected the snapshot as malformed or incompatible.
#[derive(Debug, PartialEq, Eq)]
pub struct ImportError {
    pub message: String,
}

/// The supplied head frontier is unknown to the engine, so no timeline
/// could be built (no partial timeline is ever returned).
#[derive(Debug, PartialEq, Eq)]
pub struct GraphTraversalError {
    pub message: String,
}

/// Why a navigation request failed.
#[derive(Debug, PartialEq, Eq)]
pub enum SeekError {
    /// The requested index lies outside the valid range of the timeline
    /// plus the live sentinel; the navigator did not transition.
    IndexOutOfRange,
    /// The engine refused the checkout; the navigator stayed in its prior
    /// state and the engine's own message is carried along unchanged.
    CheckoutFailed { message: String },
}

} // verus!
