use confidential_exchange::errors::{ExchangeError, SubmitRejection};
use confidential_exchange::exchange::Exchange;
use confidential_exchange::gateway::{ComputationOutcome, SubmitOutcome};
use confidential_exchange::offer::{OfferDomain, OfferPhase, OfferTerms, VaultRole};

const SELLER: u64 = 1;
const BUYER: u64 = 2;

fn terms_7() -> OfferTerms {
    OfferTerms {
        id: 7,
        token_a_offered_amount: 100,
        token_b_wanted_amount: 50,
        is_taker_native: true,
        deadline: 1000 + 3600,
        domain: OfferDomain::IntraChain,
        bump: 254,
    }
}

fn success_outcome() -> ComputationOutcome {
    ComputationOutcome::Success {
        ciphertexts: vec![[7u8; 32]],
        nonce: 99,
    }
}

/// A state with both parties funded and offer 7 created at time 1000.
fn created_exchange() -> Exchange {
    let mut ex = Exchange::new();
    ex.credit_account(SELLER, 1000).unwrap();
    ex.credit_account(BUYER, 500).unwrap();
    ex.create_offer(SELLER, terms_7(), 1000).unwrap();
    ex
}

/// The same state driven to `Verified` with both vaults committed.
fn verified_exchange() -> Exchange {
    let mut ex = created_exchange();
    ex.fund_vault(SELLER, 7, VaultRole::Seller, SELLER, 100).unwrap();
    ex.fund_vault(SELLER, 7, VaultRole::Buyer, BUYER, 50).unwrap();
    ex.request_verification(SELLER, 7, 42, SubmitOutcome::Accepted)
        .unwrap();
    ex.verification_callback(42, &success_outcome()).unwrap();
    ex
}

#[test]
fn create_offer_records_exact_terms() {
    let ex = created_exchange();
    let o = ex.get_offer(SELLER, 7).unwrap();
    assert_eq!(o.terms, terms_7());
    assert_eq!(o.creator, SELLER);
    assert_eq!(o.phase, OfferPhase::Created);
    assert!(!o.expired);
    assert_eq!(o.seller_vault, 0);
    assert_eq!(o.buyer_vault, 0);
    assert_eq!(o.buyer, None);
}

#[test]
fn create_offer_rejects_duplicate_id() {
    let mut ex = created_exchange();
    let r = ex.create_offer(SELLER, terms_7(), 1000);
    assert_eq!(r, Err(ExchangeError::PreconditionViolation));
    // A different creator may reuse the numeric id.
    assert_eq!(ex.create_offer(BUYER, terms_7(), 1000), Ok(()));
}

#[test]
fn create_offer_rejects_past_deadline() {
    let mut ex = Exchange::new();
    let r = ex.create_offer(SELLER, terms_7(), 4600);
    assert_eq!(r, Err(ExchangeError::PreconditionViolation));
    assert_eq!(ex.get_offer(SELLER, 7), None);
}

#[test]
fn funding_establishes_vault_commitment() {
    let mut ex = created_exchange();
    ex.fund_vault(SELLER, 7, VaultRole::Seller, SELLER, 100).unwrap();
    let o = ex.get_offer(SELLER, 7).unwrap();
    assert_eq!(o.seller_vault, o.terms.token_a_offered_amount);
    assert_eq!(ex.balance(SELLER), 900);
}

#[test]
fn funding_adds_instead_of_replacing() {
    let mut ex = created_exchange();
    ex.fund_vault(SELLER, 7, VaultRole::Seller, SELLER, 60).unwrap();
    ex.fund_vault(SELLER, 7, VaultRole::Seller, SELLER, 40).unwrap();
    let o = ex.get_offer(SELLER, 7).unwrap();
    assert_eq!(o.seller_vault, 100);
    assert_eq!(ex.balance(SELLER), 900);
}

#[test]
fn funding_needs_sufficient_balance() {
    let mut ex = created_exchange();
    let r = ex.fund_vault(SELLER, 7, VaultRole::Seller, SELLER, 1001);
    assert_eq!(r, Err(ExchangeError::PreconditionViolation));
    assert_eq!(ex.balance(SELLER), 1000);
}

#[test]
fn funding_checks_the_party_for_each_role() {
    let mut ex = created_exchange();
    // Only the creator funds the seller vault.
    assert_eq!(
        ex.fund_vault(SELLER, 7, VaultRole::Seller, BUYER, 10),
        Err(ExchangeError::PreconditionViolation)
    );
    // The creator cannot take the buyer side of its own offer.
    assert_eq!(
        ex.fund_vault(SELLER, 7, VaultRole::Buyer, SELLER, 10),
        Err(ExchangeError::PreconditionViolation)
    );
    // The first buyer funding fixes the counterparty.
    ex.credit_account(3, 100).unwrap();
    ex.fund_vault(SELLER, 7, VaultRole::Buyer, BUYER, 10).unwrap();
    assert_eq!(
        ex.fund_vault(SELLER, 7, VaultRole::Buyer, 3, 10),
        Err(ExchangeError::PreconditionViolation)
    );
    let o = ex.get_offer(SELLER, 7).unwrap();
    assert_eq!(o.buyer, Some(BUYER));
    assert_eq!(o.buyer_vault, 10);
}

#[test]
fn funding_a_missing_offer_fails() {
    let mut ex = created_exchange();
    let r = ex.fund_vault(SELLER, 8, VaultRole::Seller, SELLER, 10);
    assert_eq!(r, Err(ExchangeError::PreconditionViolation));
}

#[test]
fn request_verification_moves_to_pending() {
    let mut ex = created_exchange();
    ex.request_verification(SELLER, 7, 42, SubmitOutcome::Accepted)
        .unwrap();
    let o = ex.get_offer(SELLER, 7).unwrap();
    assert_eq!(o.phase, OfferPhase::VerificationPending);
    let p = ex.pending_request(42).unwrap();
    assert_eq!(p.creator, SELLER);
    assert_eq!(p.offer_id, 7);
}

#[test]
fn second_verification_request_conflicts() {
    let mut ex = created_exchange();
    ex.request_verification(SELLER, 7, 42, SubmitOutcome::Accepted)
        .unwrap();
    // Even with a fresh request id the offer refuses a second live
    // correlation: only the first accepted request may be matched.
    let r = ex.request_verification(SELLER, 7, 43, SubmitOutcome::Accepted);
    assert_eq!(r, Err(ExchangeError::StateConflict));
    assert_eq!(ex.pending_request(43), None);
}

#[test]
fn rejected_submission_changes_nothing_and_retry_works() {
    let mut ex = created_exchange();
    let r = ex.request_verification(
        SELLER,
        7,
        42,
        SubmitOutcome::Rejected(SubmitRejection::ClusterUnavailable),
    );
    assert_eq!(
        r,
        Err(ExchangeError::GatewayRejected(
            SubmitRejection::ClusterUnavailable
        ))
    );
    assert_eq!(ex.get_offer(SELLER, 7).unwrap().phase, OfferPhase::Created);
    assert_eq!(ex.pending_request(42), None);
    // The caller retries with a fresh request id.
    ex.request_verification(SELLER, 7, 43, SubmitOutcome::Accepted)
        .unwrap();
    assert_eq!(
        ex.get_offer(SELLER, 7).unwrap().phase,
        OfferPhase::VerificationPending
    );
}

#[test]
fn malformed_submission_is_surfaced_to_the_caller() {
    let mut ex = created_exchange();
    let r = ex.request_verification(
        SELLER,
        7,
        42,
        SubmitOutcome::Rejected(SubmitRejection::MalformedArgs),
    );
    assert_eq!(
        r,
        Err(ExchangeError::GatewayRejected(SubmitRejection::MalformedArgs))
    );
    assert_eq!(ex.get_offer(SELLER, 7).unwrap().phase, OfferPhase::Created);
}

#[test]
fn funding_rejects_vault_overflow() {
    let mut ex = Exchange::new();
    ex.credit_account(SELLER, u64::MAX).unwrap();
    ex.create_offer(SELLER, terms_7(), 1000).unwrap();
    ex.fund_vault(SELLER, 7, VaultRole::Seller, SELLER, u64::MAX)
        .unwrap();
    ex.credit_account(SELLER, 10).unwrap();
    let r = ex.fund_vault(SELLER, 7, VaultRole::Seller, SELLER, 1);
    assert_eq!(r, Err(ExchangeError::PreconditionViolation));
    assert_eq!(ex.get_offer(SELLER, 7).unwrap().seller_vault, u64::MAX);
    assert_eq!(ex.balance(SELLER), 10);
}

#[test]
fn request_ids_are_never_reused() {
    let mut ex = created_exchange();
    ex.create_offer(SELLER, OfferTerms { id: 8, ..terms_7() }, 1000)
        .unwrap();
    ex.request_verification(SELLER, 7, 42, SubmitOutcome::Accepted)
        .unwrap();
    let r = ex.request_verification(SELLER, 8, 42, SubmitOutcome::Accepted);
    assert_eq!(r, Err(ExchangeError::PreconditionViolation));
    assert_eq!(ex.get_offer(SELLER, 8).unwrap().phase, OfferPhase::Created);
}

#[test]
fn unmatched_callback_is_rejected() {
    let mut ex = created_exchange();
    let r = ex.verification_callback(41, &success_outcome());
    assert_eq!(r, Err(ExchangeError::StateConflict));
}

#[test]
fn callback_is_consumed_exactly_once() {
    let mut ex = created_exchange();
    ex.request_verification(SELLER, 7, 42, SubmitOutcome::Accepted)
        .unwrap();
    let ack = ex.verification_callback(42, &success_outcome()).unwrap();
    assert_eq!(ack.acknowledged, 1);
    assert_eq!(ex.get_offer(SELLER, 7).unwrap().phase, OfferPhase::Verified);
    // A duplicate delivery must be rejected and must not mutate the ledger.
    let dup = ex.verification_callback(42, &success_outcome());
    assert_eq!(dup, Err(ExchangeError::StateConflict));
    assert_eq!(ex.get_offer(SELLER, 7).unwrap().phase, OfferPhase::Verified);
}

#[test]
fn aborted_callback_marks_offer_failed() {
    let mut ex = created_exchange();
    ex.request_verification(SELLER, 7, 42, SubmitOutcome::Accepted)
        .unwrap();
    let r = ex.verification_callback(42, &ComputationOutcome::Aborted);
    assert_eq!(r, Err(ExchangeError::ComputationAborted));
    assert_eq!(ex.get_offer(SELLER, 7).unwrap().phase, OfferPhase::Aborted);
    // No retry on the same offer: verification can only start from Created.
    let retry = ex.request_verification(SELLER, 7, 43, SubmitOutcome::Accepted);
    assert_eq!(retry, Err(ExchangeError::StateConflict));
}

#[test]
fn settle_fails_from_every_unverified_phase_without_balance_change() {
    // Created.
    let mut ex = created_exchange();
    ex.fund_vault(SELLER, 7, VaultRole::Seller, SELLER, 100).unwrap();
    let before = (ex.balance(SELLER), ex.balance(BUYER));
    assert_eq!(ex.settle(SELLER, 7, 1010), Err(ExchangeError::StateConflict));
    assert_eq!((ex.balance(SELLER), ex.balance(BUYER)), before);
    // VerificationPending.
    ex.request_verification(SELLER, 7, 42, SubmitOutcome::Accepted)
        .unwrap();
    assert_eq!(ex.settle(SELLER, 7, 1010), Err(ExchangeError::StateConflict));
    assert_eq!((ex.balance(SELLER), ex.balance(BUYER)), before);
    // Aborted.
    let _ = ex.verification_callback(42, &ComputationOutcome::Aborted);
    assert_eq!(ex.settle(SELLER, 7, 1010), Err(ExchangeError::StateConflict));
    assert_eq!((ex.balance(SELLER), ex.balance(BUYER)), before);
    assert_eq!(ex.get_offer(SELLER, 7).unwrap().seller_vault, 100);
}

#[test]
fn scenario_verified_offer_settles_atomically() {
    // Offer id 7, amounts (100, 50), deadline an hour after creation; the
    // seller vault holds 100 and the buyer vault 50; the callback reports
    // success; settlement runs ten ticks after creation.
    let mut ex = verified_exchange();
    ex.settle(SELLER, 7, 1010).unwrap();
    let o = ex.get_offer(SELLER, 7).unwrap();
    assert_eq!(o.phase, OfferPhase::Settled);
    assert_eq!(o.seller_vault, 0);
    assert_eq!(o.buyer_vault, 0);
    // Both legs applied: the buyer received 100, the seller received 50.
    assert_eq!(ex.balance(BUYER), 500 - 50 + 100);
    assert_eq!(ex.balance(SELLER), 1000 - 100 + 50);
    // Re-invoking settle on the closed offer is a state conflict.
    assert_eq!(ex.settle(SELLER, 7, 1020), Err(ExchangeError::StateConflict));
}

#[test]
fn scenario_aborted_verification_blocks_settlement_until_refund() {
    // Same setup, but the callback delivers an abort.
    let mut ex = created_exchange();
    ex.fund_vault(SELLER, 7, VaultRole::Seller, SELLER, 100).unwrap();
    ex.request_verification(SELLER, 7, 42, SubmitOutcome::Accepted)
        .unwrap();
    let r = ex.verification_callback(42, &ComputationOutcome::Aborted);
    assert_eq!(r, Err(ExchangeError::ComputationAborted));
    assert_eq!(ex.settle(SELLER, 7, 1010), Err(ExchangeError::StateConflict));
    // After the deadline the seller gets the 100 back.
    ex.expire_and_refund(SELLER, 7, 1000 + 3601).unwrap();
    assert_eq!(ex.balance(SELLER), 1000);
    assert_eq!(ex.get_offer(SELLER, 7).unwrap().seller_vault, 0);
}

#[test]
fn settle_after_deadline_is_rejected_even_when_verified() {
    let mut ex = verified_exchange();
    let r = ex.settle(SELLER, 7, 1000 + 3601);
    assert_eq!(r, Err(ExchangeError::DeadlineExceeded));
    // Nothing moved.
    assert_eq!(ex.balance(SELLER), 900);
    assert_eq!(ex.balance(BUYER), 450);
    assert_eq!(ex.get_offer(SELLER, 7).unwrap().seller_vault, 100);
}

#[test]
fn settle_with_underfunded_vault_is_a_consistency_fault() {
    let mut ex = created_exchange();
    ex.fund_vault(SELLER, 7, VaultRole::Seller, SELLER, 99).unwrap();
    ex.fund_vault(SELLER, 7, VaultRole::Buyer, BUYER, 50).unwrap();
    ex.request_verification(SELLER, 7, 42, SubmitOutcome::Accepted)
        .unwrap();
    ex.verification_callback(42, &success_outcome()).unwrap();
    let r = ex.settle(SELLER, 7, 1010);
    assert_eq!(r, Err(ExchangeError::ConsistencyFault));
    assert_eq!(ex.balance(SELLER), 901);
}

#[test]
fn settle_without_a_buyer_is_rejected() {
    let mut ex = created_exchange();
    ex.fund_vault(SELLER, 7, VaultRole::Seller, SELLER, 100).unwrap();
    ex.request_verification(SELLER, 7, 42, SubmitOutcome::Accepted)
        .unwrap();
    ex.verification_callback(42, &success_outcome()).unwrap();
    let r = ex.settle(SELLER, 7, 1010);
    assert_eq!(r, Err(ExchangeError::PreconditionViolation));
}

#[test]
fn expiry_needs_a_passed_deadline() {
    let mut ex = created_exchange();
    let r = ex.expire_and_refund(SELLER, 7, 1000 + 3600);
    assert_eq!(r, Err(ExchangeError::PreconditionViolation));
}

#[test]
fn expiry_refunds_both_vaults_exactly_once() {
    let mut ex = verified_exchange();
    ex.expire_and_refund(SELLER, 7, 1000 + 3601).unwrap();
    let o = ex.get_offer(SELLER, 7).unwrap();
    assert!(o.expired);
    assert_eq!(o.seller_vault, 0);
    assert_eq!(o.buyer_vault, 0);
    assert_eq!(ex.balance(SELLER), 1000);
    assert_eq!(ex.balance(BUYER), 500);
    // A second expiry is a state conflict, and settlement stays impossible.
    assert_eq!(
        ex.expire_and_refund(SELLER, 7, 1000 + 3602),
        Err(ExchangeError::StateConflict)
    );
    assert_eq!(
        ex.settle(SELLER, 7, 1000 + 3602),
        Err(ExchangeError::DeadlineExceeded)
    );
}

#[test]
fn expiring_a_settled_offer_conflicts() {
    let mut ex = verified_exchange();
    ex.settle(SELLER, 7, 1010).unwrap();
    let r = ex.expire_and_refund(SELLER, 7, 1000 + 3601);
    assert_eq!(r, Err(ExchangeError::StateConflict));
}

#[test]
fn late_callback_is_booked_but_settlement_stays_closed() {
    let mut ex = created_exchange();
    ex.fund_vault(SELLER, 7, VaultRole::Seller, SELLER, 100).unwrap();
    ex.request_verification(SELLER, 7, 42, SubmitOutcome::Accepted)
        .unwrap();
    ex.expire_and_refund(SELLER, 7, 1000 + 3601).unwrap();
    // The callback arriving after expiry is still accepted for bookkeeping.
    let ack = ex.verification_callback(42, &success_outcome()).unwrap();
    assert_eq!(ack.acknowledged, 1);
    let o = ex.get_offer(SELLER, 7).unwrap();
    assert_eq!(o.phase, OfferPhase::Verified);
    assert!(o.expired);
    // But the now-late settlement is refused.
    assert_eq!(
        ex.settle(SELLER, 7, 1000 + 3700),
        Err(ExchangeError::DeadlineExceeded)
    );
}

#[test]
fn credit_account_rejects_overflow() {
    let mut ex = Exchange::new();
    ex.credit_account(SELLER, u64::MAX).unwrap();
    let r = ex.credit_account(SELLER, 1);
    assert_eq!(r, Err(ExchangeError::PreconditionViolation));
    assert_eq!(ex.balance(SELLER), u64::MAX);
}

#[test]
fn unknown_parties_and_offers_read_as_empty() {
    let ex = Exchange::new();
    assert_eq!(ex.balance(77), 0);
    assert_eq!(ex.get_offer(77, 7), None);
    assert_eq!(ex.pending_request(42), None);
}

#[test]
fn value_is_conserved_across_the_lifecycle() {
    // Main balances plus vault balances always total what was credited in.
    let total = |ex: &Exchange| {
        let o = ex.get_offer(SELLER, 7);
        let vaults = o.map(|o| o.seller_vault + o.buyer_vault).unwrap_or(0);
        ex.balance(SELLER) + ex.balance(BUYER) + vaults
    };
    let mut ex = created_exchange();
    assert_eq!(total(&ex), 1500);
    ex.fund_vault(SELLER, 7, VaultRole::Seller, SELLER, 100).unwrap();
    assert_eq!(total(&ex), 1500);
    ex.fund_vault(SELLER, 7, VaultRole::Buyer, BUYER, 50).unwrap();
    assert_eq!(total(&ex), 1500);
    ex.request_verification(SELLER, 7, 42, SubmitOutcome::Accepted)
        .unwrap();
    ex.verification_callback(42, &success_outcome()).unwrap();
    assert_eq!(total(&ex), 1500);
    ex.settle(SELLER, 7, 1010).unwrap();
    assert_eq!(total(&ex), 1500);
}

#[test]
fn distinct_offers_progress_independently() {
    let mut ex = created_exchange();
    let cross = OfferTerms {
        id: 9,
        domain: OfferDomain::InterChain { chain_id: 11155111 },
        ..terms_7()
    };
    ex.create_offer(SELLER, cross, 1000).unwrap();
    ex.request_verification(SELLER, 9, 52, SubmitOutcome::Accepted)
        .unwrap();
    // Offer 7 is untouched by offer 9's progress.
    assert_eq!(ex.get_offer(SELLER, 7).unwrap().phase, OfferPhase::Created);
    let o9 = ex.get_offer(SELLER, 9).unwrap();
    assert_eq!(o9.phase, OfferPhase::VerificationPending);
    assert_eq!(o9.terms.domain, OfferDomain::InterChain { chain_id: 11155111 });
}
