//! Confidential escrow and settlement protocol.
//!
//! Two parties exchange assets while a confidential identity check runs in an
//! external multi-party computation network. An offer moves through the
//! lifecycle Created -> VerificationPending -> Verified | Aborted, with an
//! orthogonal expiry once its deadline has passed, and is closed either by an
//! atomic bilateral settlement or by an expiry refund.

pub mod circuits;
pub mod errors;
pub mod exchange;
pub mod gateway;
pub mod laws;
pub mod offer;
