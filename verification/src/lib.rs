//! Recovery of payloads embedded fragment by fragment in the memo field of
//! coin-creation outputs on the Chia ledger.

use vstd::prelude::*;

pub mod chain;
pub mod codec;
pub mod collection;
pub mod commands;
pub mod conditions;
pub mod image;
pub mod locator;
pub mod markers;
pub mod metadata;

verus! {

/// The ways a recovery traversal can fail. Every failure is fatal within one
/// traversal: the library never emits a truncated or misattributed payload.
#[derive(Clone, Copy, Debug, PartialEq, Eq, Structural)]
pub enum RecoveryError {
    /// An expected coin, record or block is absent from the ledger.
    NotFound,
    /// The chain ends (an unspent coin) before a terminal marker was reached.
    Truncated,
    /// A marker expected at a given phase is missing or wrong.
    ProtocolMismatch,
    /// Hex, base64, bech32, gzip or JSON input is malformed.
    Decode,
    /// Zero or multiple candidates where exactly one is required.
    Ambiguous,
    /// Puzzle execution failed; passed through from the execution engine.
    EvalError,
}

} // verus!
