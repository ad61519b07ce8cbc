//! Error taxonomy of the escrow protocol.

use vstd::prelude::*;

verus! {

/// Reason the computation gateway refused a submission.
#[derive(Clone, Copy, Debug, PartialEq, Eq, Structural)]
pub enum SubmitRejection {
    /// The confidential-computation cluster is not available.
    ClusterUnavailable,
    /// The submitted argument list is malformed.
    MalformedArgs,
}

/// Errors surfaced by the protocol operations.
///
/// Every rejected operation is all-or-nothing: no ledger, vault or balance
/// mutation survives it, with the one documented exception of
/// `ComputationAborted`, which records the terminal failed-verification state
/// of the offer that the aborted computation belongs to.
#[derive(Clone, Copy, Debug, PartialEq, Eq, Structural)]
pub enum ExchangeError {
    /// An input precondition does not hold: the offer id is already used,
    /// the deadline lies in the past, a request id is reused, a party lacks
    /// funds, or the addressed offer or vault does not exist.
    PreconditionViolation,
    /// The operation was invoked from an incompatible offer state.
    StateConflict,
    /// Settlement was attempted after the offer's deadline.
    DeadlineExceeded,
    /// The confidential computation reported an abort; the offer is now in
    /// its terminal failed-verification state and only a refund remains.
    ComputationAborted,
    /// A vault balance did not match the committed amount at release time,
    /// or crediting a party would overflow its balance. Fatal: it indicates
    /// a bug elsewhere, never a recoverable condition.
    ConsistencyFault,
    /// The computation gateway refused the submission; the offer state is
    /// unchanged and the caller may retry with a fresh request id.
    GatewayRejected(SubmitRejection),
}

} // verus!
