//! Errors a handler can report. All of them are recoverable for the process:
//! the caller logs the envelope and moves on.

use vstd::prelude::*;

verus! {

/// Why a handler refused an envelope.
#[derive(Clone, Copy, Debug, PartialEq, Eq, Structural)]
pub enum NodeError {
    /// A second topology assignment arrived; the first one stands.
    AlreadyConfigured,
    /// The topology map holds no entry for this node's own identity.
    NotInTopology,
    /// A request kind this node does not serve.
    UnexpectedType,
}

} // verus!
