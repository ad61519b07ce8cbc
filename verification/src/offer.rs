//! Offer ledger entries: public deal terms and lifecycle state.

use vstd::prelude::*;

verus! {

/// Which execution domain the counterparty resides in.
#[derive(Clone, Copy, Debug, PartialEq, Eq, Structural)]
pub enum OfferDomain {
    /// Both parties live on the local chain.
    IntraChain,
    /// The counterparty lives on the foreign domain `chain_id`.
    InterChain { chain_id: u64 },
}

/// Which side of the exchange a vault belongs to.
#[derive(Clone, Copy, Debug, PartialEq, Eq, Structural)]
pub enum VaultRole {
    /// The creator's side, committing the offered asset.
    Seller,
    /// The counterparty's side, committing the wanted asset.
    Buyer,
}

/// Lifecycle phase of an offer. Expiry is tracked orthogonally on the
/// record, since an offer may expire from `Created`, `VerificationPending`
/// or `Verified` alike.
#[derive(Clone, Copy, Debug, PartialEq, Eq, Structural)]
pub enum OfferPhase {
    /// Ledger entry written; no verification requested yet.
    Created,
    /// A confidential verification request was accepted by the gateway and
    /// its callback is outstanding.
    VerificationPending,
    /// The confidential computation succeeded; settlement may follow.
    Verified,
    /// The confidential computation aborted; only a refund remains.
    Aborted,
    /// Both settlement legs were applied; terminal.
    Settled,
}

/// Public deal terms of an offer, exactly as supplied at creation.
#[derive(Clone, Copy, Debug, PartialEq, Eq)]
pub struct OfferTerms {
    /// Caller-chosen identifier, unique per creator.
    pub id: u64,
    /// Amount the creator (seller) commits.
    pub token_a_offered_amount: u64,
    /// Amount the counterparty (buyer) must supply.
    pub token_b_wanted_amount: u64,
    /// Whether the counterparty settles in the native asset.
    pub is_taker_native: bool,
    /// Absolute expiry instant; settlement must not execute after this.
    pub deadline: i64,
    /// Same-chain or cross-chain scoping.
    pub domain: OfferDomain,
    /// Opaque proof that the entry's address was derived deterministically.
    pub bump: u8,
}

/// One in-flight offer: its terms, its state, and both escrow vaults.
#[derive(Clone, Copy, Debug, PartialEq, Eq)]
pub struct OfferRecord {
    /// Public key of the creating party (the seller); forms the ledger key
    /// together with `terms.id`.
    pub creator: u64,
    /// The public deal terms.
    pub terms: OfferTerms,
    /// Current lifecycle phase.
    pub phase: OfferPhase,
    /// Whether the offer was expired and refunded.
    pub expired: bool,
    /// Balance of the seller's escrow vault.
    pub seller_vault: u64,
    /// The single counterparty, recorded when it first funds its vault.
    pub buyer: Option<u64>,
    /// Balance of the buyer's escrow vault.
    pub buyer_vault: u64,
}

impl OfferRecord {
    /// Both escrow vaults are empty.
    pub open spec fn vaults_zero(self) -> bool {
        self.seller_vault == 0 && self.buyer_vault == 0
    }

    /// The offer is closed: settled, or expired and refunded.
    pub open spec fn closed(self) -> bool {
        self.phase is Settled || self.expired
    }

    /// Well-formedness of a single record: a closed offer holds nothing in
    /// escrow, a settled offer was never expired, a funded buyer vault has a
    /// recorded buyer, and the buyer is distinct from the creator.
    pub open spec fn wf(self) -> bool {
        &&& self.closed() ==> self.vaults_zero()
        &&& self.phase is Settled ==> !self.expired
        &&& self.buyer_vault > 0 ==> self.buyer is Some
        &&& self.buyer matches Some(b) ==> b != self.creator
    }

    /// The freshly created ledger entry for `creator` and `terms`.
    pub open spec fn created(creator: u64, terms: OfferTerms) -> OfferRecord {
        OfferRecord {
            creator,
            terms,
            phase: OfferPhase::Created,
            expired: false,
            seller_vault: 0,
            buyer: None,
            buyer_vault: 0,
        }
    }

    /// The record after `party` funded the vault of `role` with `amount`.
    /// A buyer funding records the counterparty.
    pub open spec fn funded(self, role: VaultRole, party: u64, amount: u64) -> OfferRecord {
        match role {
            VaultRole::Seller => OfferRecord {
                seller_vault: (self.seller_vault + amount) as u64,
                ..self
            },
            VaultRole::Buyer => OfferRecord {
                buyer: Some(party),
                buyer_vault: (self.buyer_vault + amount) as u64,
                ..self
            },
        }
    }

    /// The record after its verification request was accepted.
    pub open spec fn verification_requested(self) -> OfferRecord {
        OfferRecord { phase: OfferPhase::VerificationPending, ..self }
    }

    /// The record after a verification callback with the given outcome.
    pub open spec fn verification_resolved(self, success: bool) -> OfferRecord {
        OfferRecord {
            phase: if success { OfferPhase::Verified } else { OfferPhase::Aborted },
            ..self
        }
    }

    /// The record after both settlement legs were applied.
    pub open spec fn settled(self) -> OfferRecord {
        OfferRecord {
            phase: OfferPhase::Settled,
            seller_vault: 0,
            buyer_vault: 0,
            ..self
        }
    }

    /// The record after expiry: both vaults refunded, phase untouched so a
    /// late callback can still be booked.
    pub open spec fn refunded(self) -> OfferRecord {
        OfferRecord { expired: true, seller_vault: 0, buyer_vault: 0, ..self }
    }
}

} // verus!
