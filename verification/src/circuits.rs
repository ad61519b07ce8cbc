//! Plaintext semantics of the confidential circuits.
//!
//! The computation network evaluates each of these functions inside a
//! multi-party computation over encrypted inputs; the encryption envelope is
//! the gateway's concern. Stated here on plain values, each circuit's result
//! is exact: the demonstration circuit adds two bytes, and every other
//! circuit acknowledges the identity hash it received.

use vstd::prelude::*;

verus! {

/// The two summands of the demonstration addition circuit.
#[derive(Clone, Copy, Debug, PartialEq, Eq)]
pub struct InputValues {
    /// First summand.
    pub v1: u8,
    /// Second summand.
    pub v2: u8,
}

/// Adds the two 8-bit inputs into a 16-bit sum.
pub fn add_together(input: InputValues) -> (r: u16)
    ensures
        r == input.v1 + input.v2,
{
    input.v1 as u16 + input.v2 as u16
}

/// Input of the cross-chain offer relay circuit.
#[derive(Clone, Copy, Debug, PartialEq, Eq)]
pub struct RelayOfferInput {
    /// Identity hash of the seller on the foreign domain.
    pub external_seller_identity_hash: u64,
}

/// Output of the cross-chain offer relay circuit.
#[derive(Clone, Copy, Debug, PartialEq, Eq)]
pub struct RelayOfferOutput {
    /// Acknowledged identity hash.
    pub ack: u64,
}

/// Acknowledges the relayed seller identity hash.
pub fn relay_offer_clone(input: RelayOfferInput) -> (r: RelayOfferOutput)
    ensures
        r.ack == input.external_seller_identity_hash,
{
    RelayOfferOutput { ack: input.external_seller_identity_hash }
}

/// Input of the confidential native-asset deposit circuit.
#[derive(Clone, Copy, Debug, PartialEq, Eq)]
pub struct DepositInput {
    /// Amount being deposited.
    pub amount: u64,
}

/// Output of the confidential native-asset deposit circuit.
#[derive(Clone, Copy, Debug, PartialEq, Eq)]
pub struct DepositOutput {
    /// The amount as processed by the circuit.
    pub processed_amount: u64,
}

/// Passes the confidential deposit amount through unchanged.
pub fn confidential_deposit_native(input: DepositInput) -> (r: DepositOutput)
    ensures
        r.processed_amount == input.amount,
{
    DepositOutput { processed_amount: input.amount }
}

/// Input of the cross-chain tokenized seller-deposit circuit.
#[derive(Clone, Copy, Debug, PartialEq, Eq)]
pub struct DepositSplInput {
    /// Identity hash of the depositing seller.
    pub seller_identity_hash: u64,
}

/// Output of the cross-chain tokenized seller-deposit circuit.
#[derive(Clone, Copy, Debug, PartialEq, Eq)]
pub struct DepositSplOutput {
    /// Acknowledged identity hash.
    pub ack: u64,
}

/// Acknowledges the seller identity hash of a cross-chain tokenized deposit.
pub fn interchain_origin_evm_deposit_seller_spl(input: DepositSplInput) -> (r: DepositSplOutput)
    ensures
        r.ack == input.seller_identity_hash,
{
    DepositSplOutput { ack: input.seller_identity_hash }
}

/// Input of the same-chain native seller-deposit circuit.
#[derive(Clone, Copy, Debug, PartialEq, Eq)]
pub struct DepositSellerNativeInput {
    /// Identity hash of the depositing seller.
    pub seller_identity_hash: u64,
}

/// Output of the same-chain native seller-deposit circuit.
#[derive(Clone, Copy, Debug, PartialEq, Eq)]
pub struct DepositSellerNativeOutput {
    /// Acknowledged identity hash.
    pub ack: u64,
}

/// Acknowledges the seller identity hash of a same-chain native deposit.
pub fn deposit_seller_native(input: DepositSellerNativeInput) -> (r: DepositSellerNativeOutput)
    ensures
        r.ack == input.seller_identity_hash,
{
    DepositSellerNativeOutput { ack: input.seller_identity_hash }
}

/// Input of the same-chain tokenized seller-deposit circuit.
#[derive(Clone, Copy, Debug, PartialEq, Eq)]
pub struct DepositSellerSPLInput {
    /// Identity hash of the depositing seller.
    pub seller_identity_hash: u64,
}

/// Output of the same-chain tokenized seller-deposit circuit.
#[derive(Clone, Copy, Debug, PartialEq, Eq)]
pub struct DepositSellerSPLOutput {
    /// Acknowledged identity hash.
    pub ack: u64,
}

/// Acknowledges the seller identity hash of a same-chain tokenized deposit.
pub fn deposit_seller_spl(input: DepositSellerSPLInput) -> (r: DepositSellerSPLOutput)
    ensures
        r.ack == input.seller_identity_hash,
{
    DepositSellerSPLOutput { ack: input.seller_identity_hash }
}

/// Input of the cross-chain finalization circuit.
#[derive(Clone, Copy, Debug, PartialEq, Eq)]
pub struct FinalizeInterchainInput {
    /// Identity hash of the settling buyer.
    pub buyer_identity_hash: u64,
}

/// Output of the cross-chain finalization circuit.
#[derive(Clone, Copy, Debug, PartialEq, Eq)]
pub struct FinalizeInterchainOutput {
    /// Acknowledged identity hash.
    pub ack: u64,
}

/// Acknowledges the buyer identity hash closing a cross-chain offer.
pub fn finalize_interchain_origin_evm_offer(input: FinalizeInterchainInput) -> (r:
    FinalizeInterchainOutput)
    ensures
        r.ack == input.buyer_identity_hash,
{
    FinalizeInterchainOutput { ack: input.buyer_identity_hash }
}

/// Input of the same-chain finalization circuit.
#[derive(Clone, Copy, Debug, PartialEq, Eq)]
pub struct FinalizeIntrachainInput {
    /// Identity hash of the settling buyer.
    pub buyer_identity_hash: u64,
}

/// Output of the same-chain finalization circuit.
#[derive(Clone, Copy, Debug, PartialEq, Eq)]
pub struct FinalizeIntrachainOutput {
    /// Acknowledged identity hash.
    pub ack: u64,
}

/// Acknowledges the buyer identity hash closing a same-chain offer.
pub fn finalize_intrachain_offer(input: FinalizeIntrachainInput) -> (r: FinalizeIntrachainOutput)
    ensures
        r.ack == input.buyer_identity_hash,
{
    FinalizeIntrachainOutput { ack: input.buyer_identity_hash }
}

} // verus!
