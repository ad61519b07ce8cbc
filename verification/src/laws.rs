//! Protocol-wide laws, proved once and for all over the operation outcome
//! functions and record transformers that the operations' own contracts
//! speak of.

use vstd::prelude::*;

use crate::errors::ExchangeError;
use crate::exchange::{
    callback_outcome, expire_outcome, fund_vault_outcome, lookup_offer, lookup_pending,
    request_verification_outcome, settle_outcome, AccountEntry, Exchange, PendingRequest,
};
use crate::gateway::{AckEvent, SubmitOutcome};
use crate::offer::{OfferRecord, OfferTerms, VaultRole};

verus! {

/// Law: a freshly created ledger entry carries exactly the input terms and
/// the creator's key, and both vaults start empty.
pub proof fn lemma_created_entry_matches_input(creator: u64, terms: OfferTerms)
    ensures
        OfferRecord::created(creator, terms).terms == terms,
        OfferRecord::created(creator, terms).creator == creator,
        OfferRecord::created(creator, terms).vaults_zero(),
{
}

/// Law: funding the vault of either role of a fresh entry with the
/// committed amount makes the vault balance equal the commitment.
pub proof fn lemma_funding_establishes_commitment(creator: u64, terms: OfferTerms, party: u64)
    ensures
        OfferRecord::created(creator, terms).funded(
            VaultRole::Seller,
            party,
            terms.token_a_offered_amount,
        ).seller_vault == terms.token_a_offered_amount,
        OfferRecord::created(creator, terms).funded(
            VaultRole::Buyer,
            party,
            terms.token_b_wanted_amount,
        ).buyer_vault == terms.token_b_wanted_amount,
{
}

/// Law: settlement can only succeed from `Verified`: attempted from
/// `Created`, `VerificationPending`, `Aborted` or `Settled` it is a state
/// conflict, and `settle` guarantees that a rejected attempt changes no
/// balance.
pub proof fn lemma_settle_requires_verified(
    offers: Seq<OfferRecord>,
    balances: Seq<AccountEntry>,
    creator: u64,
    offer_id: u64,
    now: i64,
)
    requires
        lookup_offer(offers, creator, offer_id) matches Some(o) && !(o.phase is Verified),
    ensures
        settle_outcome(offers, balances, creator, offer_id, now) == Err::<(), ExchangeError>(
            ExchangeError::StateConflict,
        ),
{
}

/// Law: the correlation table is one-to-one in every well-formed state: no
/// two entries share a request id, and no two entries address one offer.
pub proof fn lemma_correlations_one_to_one(ex: Exchange, i: int, j: int)
    requires
        ex.wf(),
        0 <= i < j < ex.pending@.len(),
    ensures
        ex.pending@[i].request_id != ex.pending@[j].request_id,
        !(ex.pending@[i].creator == ex.pending@[j].creator && ex.pending@[i].offer_id
            == ex.pending@[j].offer_id),
{
}

/// Law: while a correlation is outstanding for an offer, no further
/// verification request for that offer can be accepted, whatever request id
/// is chosen and whatever the gateway would answer: only the first accepted
/// request may ever be matched.
pub proof fn lemma_single_live_correlation(
    ex: Exchange,
    i: int,
    request_id: u64,
    submit: SubmitOutcome,
)
    requires
        ex.wf(),
        0 <= i < ex.pending@.len(),
    ensures
        request_verification_outcome(
            ex.offers@,
            ex.used_request_ids@,
            ex.pending@[i].creator,
            ex.pending@[i].offer_id,
            request_id,
            submit,
        ) == Err::<(), ExchangeError>(ExchangeError::StateConflict),
{
    assert(lookup_offer(ex.offers@, ex.pending@[i].creator, ex.pending@[i].offer_id) matches Some(
        o,
    ) && o.phase is VerificationPending);
}

/// Law: a consumed or never-issued correlation can never match a callback:
/// the callback is rejected as a state conflict, and
/// `verification_callback` guarantees that a rejected callback changes
/// nothing.
pub proof fn lemma_callback_one_shot(
    pending: Seq<PendingRequest>,
    request_id: u64,
    success: bool,
)
    requires
        lookup_pending(pending, request_id) is None,
    ensures
        callback_outcome(pending, request_id, success) == Err::<AckEvent, ExchangeError>(
            ExchangeError::StateConflict,
        ),
{
}

/// Law: once the deadline lies in the past, settlement fails, whatever the
/// verification state of the offer.
pub proof fn lemma_expiry_dominates_settlement(
    offers: Seq<OfferRecord>,
    balances: Seq<AccountEntry>,
    creator: u64,
    offer_id: u64,
    now: i64,
)
    requires
        lookup_offer(offers, creator, offer_id) matches Some(o) && now > o.terms.deadline,
    ensures
        settle_outcome(offers, balances, creator, offer_id, now) is Err,
{
}

/// Law: expiry refunds exactly once. A refunded record holds empty vaults,
/// and against a record already marked expired, a second refund is a state
/// conflict and settlement stays impossible.
pub proof fn lemma_expiry_refunds_once(
    offers: Seq<OfferRecord>,
    balances: Seq<AccountEntry>,
    creator: u64,
    offer_id: u64,
    o: OfferRecord,
    now: i64,
)
    requires
        lookup_offer(offers, creator, offer_id) == Some(o),
        o.expired,
    ensures
        o.refunded().vaults_zero(),
        expire_outcome(offers, balances, creator, offer_id, now) == Err::<(), ExchangeError>(
            ExchangeError::StateConflict,
        ),
        settle_outcome(offers, balances, creator, offer_id, now) is Err,
{
}

/// Law: `Settled` is terminal. Against a settled offer, settlement,
/// expiry, funding and a fresh verification request are all state
/// conflicts.
pub proof fn lemma_settled_is_terminal(
    offers: Seq<OfferRecord>,
    balances: Seq<AccountEntry>,
    creator: u64,
    offer_id: u64,
    o: OfferRecord,
    now: i64,
    role: VaultRole,
    party: u64,
    amount: u64,
    used: Seq<u64>,
    request_id: u64,
    submit: SubmitOutcome,
)
    requires
        lookup_offer(offers, creator, offer_id) == Some(o),
        o.phase is Settled,
    ensures
        settle_outcome(offers, balances, creator, offer_id, now) == Err::<(), ExchangeError>(
            ExchangeError::StateConflict,
        ),
        expire_outcome(offers, balances, creator, offer_id, now) == Err::<(), ExchangeError>(
            ExchangeError::StateConflict,
        ),
        fund_vault_outcome(offers, balances, creator, offer_id, role, party, amount) == Err::<
            (),
            ExchangeError,
        >(ExchangeError::StateConflict),
        request_verification_outcome(offers, used, creator, offer_id, request_id, submit)
            == Err::<(), ExchangeError>(ExchangeError::StateConflict),
{
}

/// Law: a failed verification leaves only the refund path. Against an
/// aborted offer, settlement and a new verification request are state
/// conflicts, while expiry stays available on the usual terms.
pub proof fn lemma_aborted_offer_only_refunds(
    offers: Seq<OfferRecord>,
    balances: Seq<AccountEntry>,
    creator: u64,
    offer_id: u64,
    o: OfferRecord,
    now: i64,
    used: Seq<u64>,
    request_id: u64,
    submit: SubmitOutcome,
)
    requires
        lookup_offer(offers, creator, offer_id) == Some(o),
        o.phase is Aborted,
    ensures
        settle_outcome(offers, balances, creator, offer_id, now) == Err::<(), ExchangeError>(
            ExchangeError::StateConflict,
        ),
        request_verification_outcome(offers, used, creator, offer_id, request_id, submit)
            == Err::<(), ExchangeError>(ExchangeError::StateConflict),
{
}

} // verus!
