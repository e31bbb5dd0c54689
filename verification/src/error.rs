//! Errors raised by the snap sync stage logic.

use vstd::prelude::*;

verus! {

/// Why a snap sync stage step failed.
#[derive(Debug, Clone, Copy, PartialEq, Eq, Structural)]
pub enum StageError {
    /// A key-space step of zero was asked for.
    ZeroRangeSize,
    /// Incrementing a hash did not move past it.
    NoProgress,
    /// No target state root is known, so a proof cannot be checked.
    MissingTargetStateRoot,
    /// An account range proof did not verify against the target state root.
    ProofVerificationFailed,
    /// An account body could not be decoded.
    AccountDecodeFailed,
    /// The accounts of a range were not in strictly ascending hash order.
    AccountsNotAscending,
    /// State verification found the downloaded state invalid.
    StateVerificationFailed,
    /// A request counter would pass its greatest value.
    CounterOverflow,
    /// The target state root was not accepted by the state manager.
    TargetStateRootRejected,
    /// The download failed; the stage cannot go on.
    Fatal,
}

} // verus!
