//! The serialized protocol state: offer ledger, escrow vaults, party
//! balances, and the one-shot correlation table from outstanding
//! verification requests to the offers they belong to.

use vstd::prelude::*;

use crate::errors::ExchangeError;
use crate::gateway::{AckEvent, ComputationOutcome, SubmitOutcome};
use crate::offer::{OfferPhase, OfferRecord, OfferTerms, VaultRole};

verus! {

/// A party's main balance on the platform.
#[derive(Clone, Copy, Debug, PartialEq, Eq)]
pub struct AccountEntry {
    /// Public key of the party.
    pub owner: u64,
    /// Its spendable balance.
    pub balance: u64,
}

/// One outstanding verification request, correlated to the offer it
/// verifies. The entry is written once, at acceptance, and consumed exactly
/// once, by the matching callback.
#[derive(Clone, Copy, Debug, PartialEq, Eq)]
pub struct PendingRequest {
    /// The request identifier chosen by the submitter; never reused.
    pub request_id: u64,
    /// Creator key of the offer under verification.
    pub creator: u64,
    /// Identifier of the offer under verification.
    pub offer_id: u64,
}

/// The ledger entry `o` is addressed by `(creator, id)`.
pub open spec fn offer_key_matches(o: OfferRecord, creator: u64, id: u64) -> bool {
    o.creator == creator && o.terms.id == id
}

/// The first ledger entry addressed by `(creator, id)`, if any. Under the
/// state invariant the address is unique, so the first entry is the only
/// one.
pub open spec fn lookup_offer(s: Seq<OfferRecord>, creator: u64, id: u64) -> Option<OfferRecord>
    decreases s.len(),
{
    if s.len() == 0 {
        None
    } else if offer_key_matches(s[0], creator, id) {
        Some(s[0])
    } else {
        lookup_offer(s.drop_first(), creator, id)
    }
}

/// The first balance entry of `owner`, if any.
pub open spec fn lookup_balance(s: Seq<AccountEntry>, owner: u64) -> Option<u64>
    decreases s.len(),
{
    if s.len() == 0 {
        None
    } else if s[0].owner == owner {
        Some(s[0].balance)
    } else {
        lookup_balance(s.drop_first(), owner)
    }
}

/// The spendable balance of `owner`: zero for an unknown party.
pub open spec fn balance_of(s: Seq<AccountEntry>, owner: u64) -> u64 {
    match lookup_balance(s, owner) {
        Some(b) => b,
        None => 0,
    }
}

/// The first correlation entry for `request_id`, if any.
pub open spec fn lookup_pending(s: Seq<PendingRequest>, request_id: u64) -> Option<PendingRequest>
    decreases s.len(),
{
    if s.len() == 0 {
        None
    } else if s[0].request_id == request_id {
        Some(s[0])
    } else {
        lookup_pending(s.drop_first(), request_id)
    }
}

// Lemmas connecting the recursive lookups to indexed reasoning about the
// underlying sequences.

proof fn lemma_lookup_offer_at(s: Seq<OfferRecord>, k: int, creator: u64, id: u64)
    requires
        0 <= k < s.len(),
        offer_key_matches(s[k], creator, id),
        forall|j: int| 0 <= j < k ==> !offer_key_matches(#[trigger] s[j], creator, id),
    ensures
        lookup_offer(s, creator, id) == Some(s[k]),
    decreases k,
{
    if k > 0 {
        assert forall|j: int| 0 <= j < k - 1 implies !offer_key_matches(
            #[trigger] s.drop_first()[j],
            creator,
            id,
        ) by {
            assert(s.drop_first()[j] == s[j + 1]);
        }
        assert(s.drop_first()[k - 1] == s[k]);
        lemma_lookup_offer_at(s.drop_first(), k - 1, creator, id);
    }
}

proof fn lemma_lookup_offer_none(s: Seq<OfferRecord>, creator: u64, id: u64)
    requires
        forall|j: int| 0 <= j < s.len() ==> !offer_key_matches(#[trigger] s[j], creator, id),
    ensures
        lookup_offer(s, creator, id) is None,
    decreases s.len(),
{
    if s.len() > 0 {
        assert forall|j: int| 0 <= j < s.drop_first().len() implies !offer_key_matches(
            #[trigger] s.drop_first()[j],
            creator,
            id,
        ) by {
            assert(s.drop_first()[j] == s[j + 1]);
        }
        lemma_lookup_offer_none(s.drop_first(), creator, id);
    }
}

proof fn lemma_lookup_offer_some_of_match(s: Seq<OfferRecord>, k: int, creator: u64, id: u64)
    requires
        0 <= k < s.len(),
        offer_key_matches(s[k], creator, id),
    ensures
        lookup_offer(s, creator, id) is Some,
    decreases k,
{
    if !offer_key_matches(s[0], creator, id) {
        assert(s.drop_first()[k - 1] == s[k]);
        lemma_lookup_offer_some_of_match(s.drop_first(), k - 1, creator, id);
    }
}

proof fn lemma_lookup_offer_push(s: Seq<OfferRecord>, o: OfferRecord, creator: u64, id: u64)
    ensures
        lookup_offer(s.push(o), creator, id) == (if lookup_offer(s, creator, id) is Some {
            lookup_offer(s, creator, id)
        } else if offer_key_matches(o, creator, id) {
            Some(o)
        } else {
            None
        }),
    decreases s.len(),
{
    if s.len() == 0 {
        assert(s.push(o)[0] == o);
        assert(s.push(o).drop_first() =~= Seq::<OfferRecord>::empty());
    } else {
        assert(s.push(o)[0] == s[0]);
        assert(s.push(o).drop_first() =~= s.drop_first().push(o));
        lemma_lookup_offer_push(s.drop_first(), o, creator, id);
    }
}

proof fn lemma_lookup_offer_update(s: Seq<OfferRecord>, k: int, v: OfferRecord, creator: u64, id: u64)
    requires
        0 <= k < s.len(),
        offer_key_matches(v, s[k].creator, s[k].terms.id),
        forall|j: int| 0 <= j < s.len() && j != k ==> !offer_key_matches(
            #[trigger] s[j],
            s[k].creator,
            s[k].terms.id,
        ),
    ensures
        lookup_offer(s.update(k, v), creator, id) == (if offer_key_matches(s[k], creator, id) {
            Some(v)
        } else {
            lookup_offer(s, creator, id)
        }),
    decreases s.len(),
{
    if k == 0 {
        assert(s.update(0, v)[0] == v);
        if offer_key_matches(s[0], creator, id) {
            assert(offer_key_matches(v, creator, id));
        } else {
            assert(!offer_key_matches(v, creator, id));
            assert(s.update(0, v).drop_first() =~= s.drop_first());
        }
    } else {
        assert(s.update(k, v)[0] == s[0]);
        if offer_key_matches(s[0], creator, id) {
            assert(!offer_key_matches(s[k], creator, id));
        } else {
            assert(s.update(k, v).drop_first() =~= s.drop_first().update(k - 1, v));
            assert(s.drop_first()[k - 1] == s[k]);
            assert forall|j: int|
                0 <= j < s.drop_first().len() && j != k - 1 implies !offer_key_matches(
                #[trigger] s.drop_first()[j],
                s.drop_first()[k - 1].creator,
                s.drop_first()[k - 1].terms.id,
            ) by {
                assert(s.drop_first()[j] == s[j + 1]);
            }
            lemma_lookup_offer_update(s.drop_first(), k - 1, v, creator, id);
        }
    }
}

proof fn lemma_lookup_balance_at(s: Seq<AccountEntry>, k: int, owner: u64)
    requires
        0 <= k < s.len(),
        s[k].owner == owner,
        forall|j: int| 0 <= j < k ==> (#[trigger] s[j]).owner != owner,
    ensures
        lookup_balance(s, owner) == Some(s[k].balance),
    decreases k,
{
    if k > 0 {
        assert forall|j: int| 0 <= j < k - 1 implies (#[trigger] s.drop_first()[j]).owner
            != owner by {
            assert(s.drop_first()[j] == s[j + 1]);
        }
        assert(s.drop_first()[k - 1] == s[k]);
        lemma_lookup_balance_at(s.drop_first(), k - 1, owner);
    }
}

proof fn lemma_lookup_balance_none(s: Seq<AccountEntry>, owner: u64)
    requires
        forall|j: int| 0 <= j < s.len() ==> (#[trigger] s[j]).owner != owner,
    ensures
        lookup_balance(s, owner) is None,
    decreases s.len(),
{
    if s.len() > 0 {
        assert forall|j: int| 0 <= j < s.drop_first().len() implies (
        #[trigger] s.drop_first()[j]).owner != owner by {
            assert(s.drop_first()[j] == s[j + 1]);
        }
        lemma_lookup_balance_none(s.drop_first(), owner);
    }
}

proof fn lemma_lookup_balance_some_of_match(s: Seq<AccountEntry>, k: int, owner: u64)
    requires
        0 <= k < s.len(),
        s[k].owner == owner,
    ensures
        lookup_balance(s, owner) is Some,
    decreases k,
{
    if s[0].owner != owner {
        assert(s.drop_first()[k - 1] == s[k]);
        lemma_lookup_balance_some_of_match(s.drop_first(), k - 1, owner);
    }
}

proof fn lemma_lookup_balance_push(s: Seq<AccountEntry>, e: AccountEntry, owner: u64)
    ensures
        lookup_balance(s.push(e), owner) == (if lookup_balance(s, owner) is Some {
            lookup_balance(s, owner)
        } else if e.owner == owner {
            Some(e.balance)
        } else {
            None
        }),
    decreases s.len(),
{
    if s.len() == 0 {
        assert(s.push(e)[0] == e);
        assert(s.push(e).drop_first() =~= Seq::<AccountEntry>::empty());
        if e.owner == owner {
            assert(lookup_balance(s.push(e), owner) == Some(e.balance));
        } else {
            assert(lookup_balance(s.push(e), owner) == lookup_balance(
                Seq::<AccountEntry>::empty(),
                owner,
            ));
        }
    } else {
        assert(s.push(e)[0] == s[0]);
        assert(s.push(e).drop_first() =~= s.drop_first().push(e));
        lemma_lookup_balance_push(s.drop_first(), e, owner);
    }
}

proof fn lemma_lookup_balance_update(s: Seq<AccountEntry>, k: int, e: AccountEntry, owner: u64)
    requires
        0 <= k < s.len(),
        e.owner == s[k].owner,
        forall|j: int| 0 <= j < s.len() && j != k ==> (#[trigger] s[j]).owner != s[k].owner,
    ensures
        lookup_balance(s.update(k, e), owner) == (if s[k].owner == owner {
            Some(e.balance)
        } else {
            lookup_balance(s, owner)
        }),
    decreases s.len(),
{
    if k == 0 {
        assert(s.update(0, e)[0] == e);
        if s[0].owner != owner {
            assert(s.update(0, e).drop_first() =~= s.drop_first());
        }
    } else {
        assert(s.update(k, e)[0] == s[0]);
        if s[0].owner != owner {
            assert(s.update(k, e).drop_first() =~= s.drop_first().update(k - 1, e));
            assert(s.drop_first()[k - 1] == s[k]);
            assert forall|j: int|
                0 <= j < s.drop_first().len() && j != k - 1 implies (
            #[trigger] s.drop_first()[j]).owner != s.drop_first()[k - 1].owner by {
                assert(s.drop_first()[j] == s[j + 1]);
            }
            lemma_lookup_balance_update(s.drop_first(), k - 1, e, owner);
        }
    }
}

proof fn lemma_lookup_pending_at(s: Seq<PendingRequest>, k: int, request_id: u64)
    requires
        0 <= k < s.len(),
        s[k].request_id == request_id,
        forall|j: int| 0 <= j < k ==> (#[trigger] s[j]).request_id != request_id,
    ensures
        lookup_pending(s, request_id) == Some(s[k]),
    decreases k,
{
    if k > 0 {
        assert forall|j: int| 0 <= j < k - 1 implies (#[trigger] s.drop_first()[j]).request_id
            != request_id by {
            assert(s.drop_first()[j] == s[j + 1]);
        }
        assert(s.drop_first()[k - 1] == s[k]);
        lemma_lookup_pending_at(s.drop_first(), k - 1, request_id);
    }
}

proof fn lemma_lookup_pending_none(s: Seq<PendingRequest>, request_id: u64)
    requires
        forall|j: int| 0 <= j < s.len() ==> (#[trigger] s[j]).request_id != request_id,
    ensures
        lookup_pending(s, request_id) is None,
    decreases s.len(),
{
    if s.len() > 0 {
        assert forall|j: int| 0 <= j < s.drop_first().len() implies (
        #[trigger] s.drop_first()[j]).request_id != request_id by {
            assert(s.drop_first()[j] == s[j + 1]);
        }
        lemma_lookup_pending_none(s.drop_first(), request_id);
    }
}

proof fn lemma_lookup_pending_push(s: Seq<PendingRequest>, p: PendingRequest, request_id: u64)
    ensures
        lookup_pending(s.push(p), request_id) == (if lookup_pending(s, request_id) is Some {
            lookup_pending(s, request_id)
        } else if p.request_id == request_id {
            Some(p)
        } else {
            None
        }),
    decreases s.len(),
{
    if s.len() == 0 {
        assert(s.push(p)[0] == p);
        assert(s.push(p).drop_first() =~= Seq::<PendingRequest>::empty());
    } else {
        assert(s.push(p)[0] == s[0]);
        assert(s.push(p).drop_first() =~= s.drop_first().push(p));
        lemma_lookup_pending_push(s.drop_first(), p, request_id);
    }
}

proof fn lemma_lookup_pending_remove(s: Seq<PendingRequest>, k: int, request_id: u64)
    requires
        0 <= k < s.len(),
        forall|j: int| 0 <= j < s.len() && j != k ==> (#[trigger] s[j]).request_id
            != s[k].request_id,
    ensures
        lookup_pending(s.remove(k), request_id) == (if s[k].request_id == request_id {
            None
        } else {
            lookup_pending(s, request_id)
        }),
    decreases s.len(),
{
    if k == 0 {
        assert(s.remove(0) =~= s.drop_first());
        if s[0].request_id == request_id {
            assert forall|j: int| 0 <= j < s.drop_first().len() implies (
            #[trigger] s.drop_first()[j]).request_id != request_id by {
                assert(s.drop_first()[j] == s[j + 1]);
            }
            lemma_lookup_pending_none(s.drop_first(), request_id);
        }
    } else {
        assert(s.remove(k)[0] == s[0]);
        if s[0].request_id != request_id {
            assert(s.remove(k).drop_first() =~= s.drop_first().remove(k - 1));
            assert(s.drop_first()[k - 1] == s[k]);
            assert forall|j: int|
                0 <= j < s.drop_first().len() && j != k - 1 implies (
            #[trigger] s.drop_first()[j]).request_id != s.drop_first()[k - 1].request_id by {
                assert(s.drop_first()[j] == s[j + 1]);
            }
            lemma_lookup_pending_remove(s.drop_first(), k - 1, request_id);
        }
    }
}

/// Sum of all main balances.
pub open spec fn total_balances(s: Seq<AccountEntry>) -> int
    decreases s.len(),
{
    if s.len() == 0 {
        0
    } else {
        s[0].balance + total_balances(s.drop_first())
    }
}

/// Sum of all escrow vault balances across the ledger.
pub open spec fn total_vaults(s: Seq<OfferRecord>) -> int
    decreases s.len(),
{
    if s.len() == 0 {
        0
    } else {
        s[0].seller_vault + s[0].buyer_vault + total_vaults(s.drop_first())
    }
}

proof fn lemma_total_balances_update(s: Seq<AccountEntry>, k: int, e: AccountEntry)
    requires
        0 <= k < s.len(),
    ensures
        total_balances(s.update(k, e)) == total_balances(s) - s[k].balance + e.balance,
    decreases s.len(),
{
    if k == 0 {
        assert(s.update(0, e)[0] == e);
        assert(s.update(0, e).drop_first() =~= s.drop_first());
    } else {
        assert(s.update(k, e)[0] == s[0]);
        assert(s.update(k, e).drop_first() =~= s.drop_first().update(k - 1, e));
        assert(s.drop_first()[k - 1] == s[k]);
        lemma_total_balances_update(s.drop_first(), k - 1, e);
    }
}

proof fn lemma_total_balances_push(s: Seq<AccountEntry>, e: AccountEntry)
    ensures
        total_balances(s.push(e)) == total_balances(s) + e.balance,
    decreases s.len(),
{
    if s.len() == 0 {
        assert(s.push(e)[0] == e);
        assert(s.push(e).drop_first() =~= Seq::<AccountEntry>::empty());
        assert(total_balances(Seq::<AccountEntry>::empty()) == 0);
    } else {
        assert(s.push(e)[0] == s[0]);
        assert(s.push(e).drop_first() =~= s.drop_first().push(e));
        lemma_total_balances_push(s.drop_first(), e);
    }
}

proof fn lemma_total_vaults_update(s: Seq<OfferRecord>, k: int, v: OfferRecord)
    requires
        0 <= k < s.len(),
    ensures
        total_vaults(s.update(k, v)) == total_vaults(s) - s[k].seller_vault - s[k].buyer_vault
            + v.seller_vault + v.buyer_vault,
    decreases s.len(),
{
    if k == 0 {
        assert(s.update(0, v)[0] == v);
        assert(s.update(0, v).drop_first() =~= s.drop_first());
    } else {
        assert(s.update(k, v)[0] == s[0]);
        assert(s.update(k, v).drop_first() =~= s.drop_first().update(k - 1, v));
        assert(s.drop_first()[k - 1] == s[k]);
        lemma_total_vaults_update(s.drop_first(), k - 1, v);
    }
}

proof fn lemma_total_vaults_push(s: Seq<OfferRecord>, v: OfferRecord)
    ensures
        total_vaults(s.push(v)) == total_vaults(s) + v.seller_vault + v.buyer_vault,
    decreases s.len(),
{
    if s.len() == 0 {
        assert(s.push(v)[0] == v);
        assert(s.push(v).drop_first() =~= Seq::<OfferRecord>::empty());
        assert(total_vaults(Seq::<OfferRecord>::empty()) == 0);
    } else {
        assert(s.push(v)[0] == s[0]);
        assert(s.push(v).drop_first() =~= s.drop_first().push(v));
        lemma_total_vaults_push(s.drop_first(), v);
    }
}

/// The whole serialized protocol state.
pub struct Exchange {
    /// The offer ledger, keyed by `(creator, id)`.
    pub offers: Vec<OfferRecord>,
    /// Outstanding verification requests, keyed by request id.
    pub pending: Vec<PendingRequest>,
    /// The parties' main balances, keyed by owner.
    pub balances: Vec<AccountEntry>,
    /// Every request id ever accepted; a request id is never reused.
    pub used_request_ids: Vec<u64>,
}

/// Ledger entries have pairwise distinct addresses and are each
/// well-formed.
pub open spec fn offers_wf(s: Seq<OfferRecord>) -> bool {
    &&& forall|i: int, j: int|
        0 <= i < j < s.len() ==> !offer_key_matches(
            #[trigger] s[j],
            (#[trigger] s[i]).creator,
            s[i].terms.id,
        )
    &&& forall|i: int| 0 <= i < s.len() ==> (#[trigger] s[i]).wf()
}

/// Balance entries have pairwise distinct owners.
pub open spec fn balances_wf(s: Seq<AccountEntry>) -> bool {
    forall|i: int, j: int| 0 <= i < j < s.len() ==> (#[trigger] s[i]).owner != (
    #[trigger] s[j]).owner
}

/// The correlation table is one-to-one in both directions and only points
/// at offers that are awaiting their callback, with request ids drawn from
/// the used set.
pub open spec fn pending_wf(
    pending: Seq<PendingRequest>,
    offers: Seq<OfferRecord>,
    used: Seq<u64>,
) -> bool {
    &&& forall|i: int, j: int|
        0 <= i < j < pending.len() ==> (#[trigger] pending[i]).request_id != (
        #[trigger] pending[j]).request_id
    &&& forall|i: int, j: int|
        0 <= i < j < pending.len() ==> !((#[trigger] pending[i]).creator == (
        #[trigger] pending[j]).creator && pending[i].offer_id == pending[j].offer_id)
    &&& forall|i: int| 0 <= i < pending.len() ==> used.contains((#[trigger] pending[i]).request_id)
    &&& forall|i: int|
        0 <= i < pending.len() ==> (lookup_offer(
            offers,
            (#[trigger] pending[i]).creator,
            pending[i].offer_id,
        ) matches Some(o) && o.phase is VerificationPending)
}

/// The two states are observationally equal.
pub open spec fn same_state(a: Exchange, b: Exchange) -> bool {
    &&& a.offers@ == b.offers@
    &&& a.pending@ == b.pending@
    &&& a.balances@ == b.balances@
    &&& a.used_request_ids@ == b.used_request_ids@
}

/// Exact result of `fund_vault` on the given prior state.
pub open spec fn fund_vault_outcome(
    offers: Seq<OfferRecord>,
    balances: Seq<AccountEntry>,
    creator: u64,
    offer_id: u64,
    role: VaultRole,
    party: u64,
    amount: u64,
) -> Result<(), ExchangeError> {
    match lookup_offer(offers, creator, offer_id) {
        None => Err(ExchangeError::PreconditionViolation),
        Some(o) => {
            if o.closed() {
                Err(ExchangeError::StateConflict)
            } else if (role is Seller) && party != creator {
                Err(ExchangeError::PreconditionViolation)
            } else if (role is Buyer) && party == creator {
                Err(ExchangeError::PreconditionViolation)
            } else if (role is Buyer) && (o.buyer matches Some(b) && b != party) {
                Err(ExchangeError::PreconditionViolation)
            } else if balance_of(balances, party) < amount {
                Err(ExchangeError::PreconditionViolation)
            } else if (role is Seller) && o.seller_vault + amount > u64::MAX {
                Err(ExchangeError::PreconditionViolation)
            } else if (role is Buyer) && o.buyer_vault + amount > u64::MAX {
                Err(ExchangeError::PreconditionViolation)
            } else {
                Ok(())
            }
        },
    }
}

/// Exact result of `request_verification` on the given prior state.
pub open spec fn request_verification_outcome(
    offers: Seq<OfferRecord>,
    used: Seq<u64>,
    creator: u64,
    offer_id: u64,
    request_id: u64,
    submit: SubmitOutcome,
) -> Result<(), ExchangeError> {
    match lookup_offer(offers, creator, offer_id) {
        None => Err(ExchangeError::PreconditionViolation),
        Some(o) => {
            if !(o.phase is Created) {
                Err(ExchangeError::StateConflict)
            } else if o.expired {
                Err(ExchangeError::StateConflict)
            } else if used.contains(request_id) {
                Err(ExchangeError::PreconditionViolation)
            } else {
                match submit {
                    SubmitOutcome::Accepted => Ok(()),
                    SubmitOutcome::Rejected(rej) => Err(ExchangeError::GatewayRejected(rej)),
                }
            }
        },
    }
}

/// Exact result of `verification_callback` on the given correlation table.
pub open spec fn callback_outcome(
    pending: Seq<PendingRequest>,
    request_id: u64,
    success: bool,
) -> Result<AckEvent, ExchangeError> {
    match lookup_pending(pending, request_id) {
        None => Err(ExchangeError::StateConflict),
        Some(_) => {
            if success {
                Ok(AckEvent { acknowledged: 1 })
            } else {
                Err(ExchangeError::ComputationAborted)
            }
        },
    }
}

/// Exact result of `settle` on the given prior state.
pub open spec fn settle_outcome(
    offers: Seq<OfferRecord>,
    balances: Seq<AccountEntry>,
    creator: u64,
    offer_id: u64,
    now: i64,
) -> Result<(), ExchangeError> {
    match lookup_offer(offers, creator, offer_id) {
        None => Err(ExchangeError::PreconditionViolation),
        Some(o) => {
            if !(o.phase is Verified) {
                Err(ExchangeError::StateConflict)
            } else if now > o.terms.deadline {
                Err(ExchangeError::DeadlineExceeded)
            } else if o.expired {
                Err(ExchangeError::DeadlineExceeded)
            } else {
                match o.buyer {
                    None => Err(ExchangeError::PreconditionViolation),
                    Some(buyer) => {
                        if o.seller_vault != o.terms.token_a_offered_amount || o.buyer_vault
                            != o.terms.token_b_wanted_amount {
                            Err(ExchangeError::ConsistencyFault)
                        } else if balance_of(balances, buyer) + o.terms.token_a_offered_amount
                            > u64::MAX {
                            Err(ExchangeError::ConsistencyFault)
                        } else if balance_of(balances, creator) + o.terms.token_b_wanted_amount
                            > u64::MAX {
                            Err(ExchangeError::ConsistencyFault)
                        } else {
                            Ok(())
                        }
                    },
                }
            }
        },
    }
}

/// Exact result of `expire_and_refund` on the given prior state.
pub open spec fn expire_outcome(
    offers: Seq<OfferRecord>,
    balances: Seq<AccountEntry>,
    creator: u64,
    offer_id: u64,
    now: i64,
) -> Result<(), ExchangeError> {
    match lookup_offer(offers, creator, offer_id) {
        None => Err(ExchangeError::PreconditionViolation),
        Some(o) => {
            if o.phase is Settled {
                Err(ExchangeError::StateConflict)
            } else if o.expired {
                Err(ExchangeError::StateConflict)
            } else if now <= o.terms.deadline {
                Err(ExchangeError::PreconditionViolation)
            } else if balance_of(balances, creator) + o.seller_vault > u64::MAX {
                Err(ExchangeError::ConsistencyFault)
            } else if (o.buyer matches Some(b) && balance_of(balances, b) + o.buyer_vault
                > u64::MAX) {
                Err(ExchangeError::ConsistencyFault)
            } else {
                Ok(())
            }
        },
    }
}

/// Exact result of `create_offer` on the given prior ledger.
pub open spec fn create_offer_outcome(
    offers: Seq<OfferRecord>,
    creator: u64,
    terms: OfferTerms,
    now: i64,
) -> Result<(), ExchangeError> {
    if lookup_offer(offers, creator, terms.id) is Some {
        Err(ExchangeError::PreconditionViolation)
    } else if terms.deadline <= now {
        Err(ExchangeError::PreconditionViolation)
    } else {
        Ok(())
    }
}

impl Exchange {
    /// All invariants of the protocol state.
    pub open spec fn wf(self) -> bool {
        &&& offers_wf(self.offers@)
        &&& balances_wf(self.balances@)
        &&& pending_wf(self.pending@, self.offers@, self.used_request_ids@)
    }

    /// All value the protocol knows of: main balances plus escrowed vaults.
    /// Every operation conserves it; only `credit_account` lets value in.
    pub open spec fn total_wealth(self) -> int {
        total_balances(self.balances@) + total_vaults(self.offers@)
    }

    /// An empty, well-formed protocol state.
    pub fn new() -> (r: Exchange)
        ensures
            r.wf(),
            r.offers@.len() == 0,
            r.pending@.len() == 0,
            r.balances@.len() == 0,
            r.used_request_ids@.len() == 0,
    {
        Exchange {
            offers: Vec::new(),
            pending: Vec::new(),
            balances: Vec::new(),
            used_request_ids: Vec::new(),
        }
    }

    /// Index of the ledger entry addressed by `(creator, id)`, if any.
    fn find_offer(&self, creator: u64, id: u64) -> (r: Option<usize>)
        ensures
            match r {
                Some(k) => k < self.offers@.len() && offer_key_matches(
                    self.offers@[k as int],
                    creator,
                    id,
                ) && lookup_offer(self.offers@, creator, id) == Some(self.offers@[k as int])
                    && forall|j: int|
                    0 <= j < k ==> !offer_key_matches(#[trigger] self.offers@[j], creator, id),
                None => lookup_offer(self.offers@, creator, id) is None,
            },
    {
        let n = self.offers.len();
        let mut k: usize = 0;
        while k < n
            invariant
                n == self.offers@.len(),
                k <= n,
                forall|j: int| 0 <= j < k ==> !offer_key_matches(
                    #[trigger] self.offers@[j],
                    creator,
                    id,
                ),
            decreases n - k,
        {
            let o = &self.offers[k];
            if o.creator == creator && o.terms.id == id {
                proof {
                    lemma_lookup_offer_at(self.offers@, k as int, creator, id);
                }
                return Some(k);
            }
            k = k + 1;
        }
        proof {
            lemma_lookup_offer_none(self.offers@, creator, id);
        }
        None
    }

    /// Index of the balance entry of `owner`, if any.
    fn find_account(balances: &Vec<AccountEntry>, owner: u64) -> (r: Option<usize>)
        ensures
            match r {
                Some(k) => k < balances@.len() && balances@[k as int].owner == owner
                    && lookup_balance(balances@, owner) == Some(balances@[k as int].balance)
                    && forall|j: int| 0 <= j < k ==> (#[trigger] balances@[j]).owner != owner,
                None => lookup_balance(balances@, owner) is None,
            },
    {
        let n = balances.len();
        let mut k: usize = 0;
        while k < n
            invariant
                n == balances@.len(),
                k <= n,
                forall|j: int| 0 <= j < k ==> (#[trigger] balances@[j]).owner != owner,
            decreases n - k,
        {
            if balances[k].owner == owner {
                proof {
                    lemma_lookup_balance_at(balances@, k as int, owner);
                }
                return Some(k);
            }
            k = k + 1;
        }
        proof {
            lemma_lookup_balance_none(balances@, owner);
        }
        None
    }

    /// Debits `amount` from the main balance of `owner`; answers whether
    /// the balance sufficed, changing nothing when it did not.
    fn debit(balances: &mut Vec<AccountEntry>, owner: u64, amount: u64) -> (r: bool)
        requires
            balances_wf(old(balances)@),
        ensures
            balances_wf(final(balances)@),
            r == (balance_of(old(balances)@, owner) >= amount),
            !r ==> final(balances)@ == old(balances)@,
            r ==> balance_of(final(balances)@, owner) == balance_of(old(balances)@, owner)
                - amount && (forall|w: u64|
                w != owner ==> balance_of(final(balances)@, w) == balance_of(
                    old(balances)@,
                    w,
                )),
            r ==> total_balances(final(balances)@) == total_balances(old(balances)@) - amount,
    {
        let ghost old_balances = balances@;
        match Self::find_account(balances, owner) {
            Some(k) => {
                let entry = balances[k];
                if entry.balance < amount {
                    return false;
                }
                let updated = AccountEntry { owner, balance: entry.balance - amount };
                let _ = balances.remove(k);
                balances.insert(k, updated);
                proof {
                    assert(balances@ =~= old_balances.update(k as int, updated));
                    assert forall|w: u64|
                        w != owner implies balance_of(balances@, w) == balance_of(
                        old_balances,
                        w,
                    ) by {
                        lemma_lookup_balance_update(old_balances, k as int, updated, w);
                    }
                    lemma_lookup_balance_update(old_balances, k as int, updated, owner);
                    lemma_total_balances_update(old_balances, k as int, updated);
                }
                true
            },
            None => amount == 0,
        }
    }

    /// Credits `amount` to the main balance of `owner`, creating the entry
    /// for a new party; answers whether the balance could take it without
    /// overflow, changing nothing when it could not.
    fn credit(balances: &mut Vec<AccountEntry>, owner: u64, amount: u64) -> (r: bool)
        requires
            balances_wf(old(balances)@),
        ensures
            balances_wf(final(balances)@),
            r == (balance_of(old(balances)@, owner) + amount <= u64::MAX),
            !r ==> final(balances)@ == old(balances)@,
            r ==> balance_of(final(balances)@, owner) == balance_of(old(balances)@, owner)
                + amount && (forall|w: u64|
                w != owner ==> balance_of(final(balances)@, w) == balance_of(
                    old(balances)@,
                    w,
                )),
            r ==> total_balances(final(balances)@) == total_balances(old(balances)@) + amount,
    {
        let ghost old_balances = balances@;
        match Self::find_account(balances, owner) {
            Some(k) => {
                let entry = balances[k];
                if amount > u64::MAX - entry.balance {
                    return false;
                }
                let updated = AccountEntry { owner, balance: entry.balance + amount };
                let _ = balances.remove(k);
                balances.insert(k, updated);
                proof {
                    assert(balances@ =~= old_balances.update(k as int, updated));
                    assert forall|w: u64|
                        w != owner implies balance_of(balances@, w) == balance_of(
                        old_balances,
                        w,
                    ) by {
                        lemma_lookup_balance_update(old_balances, k as int, updated, w);
                    }
                    lemma_lookup_balance_update(old_balances, k as int, updated, owner);
                    lemma_total_balances_update(old_balances, k as int, updated);
                }
                true
            },
            None => {
                let entry = AccountEntry { owner, balance: amount };
                balances.push(entry);
                proof {
                    assert forall|w: u64|
                        w != owner implies balance_of(balances@, w) == balance_of(
                        old_balances,
                        w,
                    ) by {
                        lemma_lookup_balance_push(old_balances, entry, w);
                    }
                    lemma_lookup_balance_push(old_balances, entry, owner);
                    lemma_total_balances_push(old_balances, entry);
                    assert forall|i: int, j: int|
                        0 <= i < j < balances@.len() implies (#[trigger] balances@[i]).owner != (
                    #[trigger] balances@[j]).owner by {
                        if j == old_balances.len() as int {
                            if old_balances[i].owner == owner {
                                lemma_lookup_balance_some_of_match(old_balances, i, owner);
                            }
                        }
                    }
                }
                true
            },
        }
    }

    /// Index of the correlation entry for `request_id`, if any.
    fn find_pending(&self, request_id: u64) -> (r: Option<usize>)
        ensures
            match r {
                Some(k) => k < self.pending@.len() && self.pending@[k as int].request_id
                    == request_id && lookup_pending(self.pending@, request_id) == Some(
                    self.pending@[k as int],
                ) && forall|j: int|
                    0 <= j < k ==> (#[trigger] self.pending@[j]).request_id != request_id,
                None => lookup_pending(self.pending@, request_id) is None,
            },
    {
        let n = self.pending.len();
        let mut k: usize = 0;
        while k < n
            invariant
                n == self.pending@.len(),
                k <= n,
                forall|j: int| 0 <= j < k ==> (#[trigger] self.pending@[j]).request_id
                    != request_id,
            decreases n - k,
        {
            if self.pending[k].request_id == request_id {
                proof {
                    lemma_lookup_pending_at(self.pending@, k as int, request_id);
                }
                return Some(k);
            }
            k = k + 1;
        }
        proof {
            lemma_lookup_pending_none(self.pending@, request_id);
        }
        None
    }

    /// Whether `request_id` was ever accepted before.
    fn request_id_used(&self, request_id: u64) -> (r: bool)
        ensures
            r == self.used_request_ids@.contains(request_id),
    {
        let n = self.used_request_ids.len();
        let mut k: usize = 0;
        while k < n
            invariant
                n == self.used_request_ids@.len(),
                k <= n,
                forall|j: int| 0 <= j < k ==> self.used_request_ids@[j] != request_id,
            decreases n - k,
        {
            if self.used_request_ids[k] == request_id {
                return true;
            }
            k = k + 1;
        }
        false
    }

    /// The ledger entry addressed by `(creator, id)`, if any.
    pub fn get_offer(&self, creator: u64, id: u64) -> (r: Option<OfferRecord>)
        ensures
            r == lookup_offer(self.offers@, creator, id),
    {
        match self.find_offer(creator, id) {
            Some(k) => Some(self.offers[k]),
            None => None,
        }
    }

    /// The spendable balance of `owner`; zero for an unknown party.
    pub fn balance(&self, owner: u64) -> (r: u64)
        ensures
            r == balance_of(self.balances@, owner),
    {
        match Self::find_account(&self.balances, owner) {
            Some(k) => self.balances[k].balance,
            None => 0,
        }
    }

    /// The outstanding correlation for `request_id`, if any.
    pub fn pending_request(&self, request_id: u64) -> (r: Option<PendingRequest>)
        ensures
            r == lookup_pending(self.pending@, request_id),
    {
        match self.find_pending(request_id) {
            Some(k) => Some(self.pending[k]),
            None => None,
        }
    }

    /// Credits `amount` to the main balance of `owner`, creating the entry
    /// if the party is new. Models value arriving from outside the
    /// protocol; fails only if the balance would overflow.
    pub fn credit_account(&mut self, owner: u64, amount: u64) -> (r: Result<(), ExchangeError>)
        requires
            old(self).wf(),
        ensures
            final(self).wf(),
            r is Ok <==> balance_of(old(self).balances@, owner) + amount <= u64::MAX,
            r is Ok ==> final(self).total_wealth() == old(self).total_wealth() + amount,
            r is Err ==> same_state(*final(self), *old(self)) && r == Err::<(), _>(
                ExchangeError::PreconditionViolation,
            ),
            r is Ok ==> {
                &&& balance_of(final(self).balances@, owner) == balance_of(
                    old(self).balances@,
                    owner,
                ) + amount
                &&& forall|w: u64|
                    w != owner ==> balance_of(final(self).balances@, w) == balance_of(
                        old(self).balances@,
                        w,
                    )
                &&& final(self).offers@ == old(self).offers@
                &&& final(self).pending@ == old(self).pending@
                &&& final(self).used_request_ids@ == old(self).used_request_ids@
            },
    {
        if Self::credit(&mut self.balances, owner, amount) {
            Ok(())
        } else {
            Err(ExchangeError::PreconditionViolation)
        }
    }

    /// Writes the ledger entry for a new offer. Succeeds exactly when the
    /// address `(creator, terms.id)` is unused and the deadline lies in the
    /// future; the stored terms are exactly the input terms.
    pub fn create_offer(&mut self, creator: u64, terms: OfferTerms, now: i64) -> (r: Result<
        (),
        ExchangeError,
    >)
        requires
            old(self).wf(),
        ensures
            final(self).wf(),
            r == create_offer_outcome(old(self).offers@, creator, terms, now),
            final(self).total_wealth() == old(self).total_wealth(),
            r is Err ==> same_state(*final(self), *old(self)),
            r is Ok ==> {
                &&& lookup_offer(final(self).offers@, creator, terms.id) == Some(
                    OfferRecord::created(creator, terms),
                )
                &&& forall|c: u64, i: u64|
                    !(c == creator && i == terms.id) ==> #[trigger] lookup_offer(
                        final(self).offers@,
                        c,
                        i,
                    ) == lookup_offer(old(self).offers@, c, i)
                &&& final(self).pending@ == old(self).pending@
                &&& final(self).balances@ == old(self).balances@
                &&& final(self).used_request_ids@ == old(self).used_request_ids@
            },
    {
        if self.find_offer(creator, terms.id).is_some() {
            return Err(ExchangeError::PreconditionViolation);
        }
        if terms.deadline <= now {
            return Err(ExchangeError::PreconditionViolation);
        }
        let ghost old_offers = self.offers@;
        let rec = OfferRecord {
            creator,
            terms,
            phase: OfferPhase::Created,
            expired: false,
            seller_vault: 0,
            buyer: None,
            buyer_vault: 0,
        };
        self.offers.push(rec);
        proof {
            assert(rec == OfferRecord::created(creator, terms));
            lemma_total_vaults_push(old_offers, rec);
            lemma_lookup_offer_push(old_offers, rec, creator, terms.id);
            assert forall|c: u64, i: u64|
                !(c == creator && i == terms.id) implies #[trigger] lookup_offer(
                self.offers@,
                c,
                i,
            ) == lookup_offer(old_offers, c, i) by {
                lemma_lookup_offer_push(old_offers, rec, c, i);
            }
            // The new ledger keeps pairwise-distinct addresses.
            assert forall|i: int, j: int|
                0 <= i < j < self.offers@.len() implies !offer_key_matches(
                #[trigger] self.offers@[j],
                (#[trigger] self.offers@[i]).creator,
                self.offers@[i].terms.id,
            ) by {
                if j == old_offers.len() as int {
                    if offer_key_matches(rec, old_offers[i].creator, old_offers[i].terms.id) {
                        lemma_lookup_offer_some_of_match(old_offers, i, creator, terms.id);
                    }
                }
            }
            // Correlation entries are unaffected: none can address the new
            // entry, whose address was unused.
            assert forall|i: int| 0 <= i < self.pending@.len() implies (lookup_offer(
                self.offers@,
                (#[trigger] self.pending@[i]).creator,
                self.pending@[i].offer_id,
            ) matches Some(o) && o.phase is VerificationPending) by {
                lemma_lookup_offer_push(
                    old_offers,
                    rec,
                    self.pending@[i].creator,
                    self.pending@[i].offer_id,
                );
            }
        }
        Ok(())
    }

    /// Moves `amount` from the main balance of `party` into the vault of
    /// `role` for the addressed offer. Funding adds to the vault; it never
    /// replaces. The first buyer funding records the counterparty, and no
    /// other party may fund that side afterwards.
    pub fn fund_vault(
        &mut self,
        creator: u64,
        offer_id: u64,
        role: VaultRole,
        party: u64,
        amount: u64,
    ) -> (r: Result<(), ExchangeError>)
        requires
            old(self).wf(),
        ensures
            final(self).wf(),
            r == fund_vault_outcome(
                old(self).offers@,
                old(self).balances@,
                creator,
                offer_id,
                role,
                party,
                amount,
            ),
            final(self).total_wealth() == old(self).total_wealth(),
            r is Err ==> same_state(*final(self), *old(self)),
            r is Ok ==> {
                &&& lookup_offer(old(self).offers@, creator, offer_id) matches Some(o)
                    && lookup_offer(final(self).offers@, creator, offer_id) == Some(
                    o.funded(role, party, amount),
                )
                &&& forall|c: u64, i: u64|
                    !(c == creator && i == offer_id) ==> #[trigger] lookup_offer(
                        final(self).offers@,
                        c,
                        i,
                    ) == lookup_offer(old(self).offers@, c, i)
                &&& balance_of(final(self).balances@, party) == balance_of(
                    old(self).balances@,
                    party,
                ) - amount
                &&& forall|w: u64|
                    w != party ==> balance_of(final(self).balances@, w) == balance_of(
                        old(self).balances@,
                        w,
                    )
                &&& final(self).pending@ == old(self).pending@
                &&& final(self).used_request_ids@ == old(self).used_request_ids@
            },
    {
        let k = match self.find_offer(creator, offer_id) {
            Some(k) => k,
            None => {
                return Err(ExchangeError::PreconditionViolation);
            },
        };
        let o = self.offers[k];
        if matches!(o.phase, OfferPhase::Settled) || o.expired {
            return Err(ExchangeError::StateConflict);
        }
        match role {
            VaultRole::Seller => {
                if party != creator {
                    return Err(ExchangeError::PreconditionViolation);
                }
            },
            VaultRole::Buyer => {
                if party == creator {
                    return Err(ExchangeError::PreconditionViolation);
                }
                if let Some(b) = o.buyer {
                    if b != party {
                        return Err(ExchangeError::PreconditionViolation);
                    }
                }
            },
        }
        if self.balance(party) < amount {
            return Err(ExchangeError::PreconditionViolation);
        }
        match role {
            VaultRole::Seller => {
                if amount > u64::MAX - o.seller_vault {
                    return Err(ExchangeError::PreconditionViolation);
                }
            },
            VaultRole::Buyer => {
                if amount > u64::MAX - o.buyer_vault {
                    return Err(ExchangeError::PreconditionViolation);
                }
            },
        }
        let ghost old_offers = self.offers@;
        let ghost old_pending = self.pending@;
        let paid = Self::debit(&mut self.balances, party, amount);
        proof {
            assert(paid);
        }
        let mut rec = self.offers.remove(k);
        match role {
            VaultRole::Seller => {
                rec.seller_vault = rec.seller_vault + amount;
            },
            VaultRole::Buyer => {
                rec.buyer = Some(party);
                rec.buyer_vault = rec.buyer_vault + amount;
            },
        }
        self.offers.insert(k, rec);
        proof {
            assert(self.offers@ =~= old_offers.update(k as int, rec));
            assert(rec == o.funded(role, party, amount));
            lemma_total_vaults_update(old_offers, k as int, rec);
            assert forall|j: int|
                0 <= j < old_offers.len() && j != k implies !offer_key_matches(
                #[trigger] old_offers[j],
                old_offers[k as int].creator,
                old_offers[k as int].terms.id,
            ) by {}
            lemma_lookup_offer_update(old_offers, k as int, rec, creator, offer_id);
            assert forall|c: u64, i: u64|
                !(c == creator && i == offer_id) implies #[trigger] lookup_offer(
                self.offers@,
                c,
                i,
            ) == lookup_offer(old_offers, c, i) by {
                lemma_lookup_offer_update(old_offers, k as int, rec, c, i);
            }
            // Correlation entries still point at awaiting offers: the funded
            // record keeps its phase.
            assert forall|i: int| 0 <= i < old_pending.len() implies (lookup_offer(
                self.offers@,
                (#[trigger] old_pending[i]).creator,
                old_pending[i].offer_id,
            ) matches Some(po) && po.phase is VerificationPending) by {
                lemma_lookup_offer_update(
                    old_offers,
                    k as int,
                    rec,
                    old_pending[i].creator,
                    old_pending[i].offer_id,
                );
            }
        }
        Ok(())
    }

    /// Registers the gateway's answer to a verification submission for the
    /// addressed offer. Only an offer still in `Created` may request
    /// verification, a request id can never be reused, and only an accepted
    /// submission records the one-shot correlation and moves the offer to
    /// `VerificationPending`; a rejected one changes nothing.
    pub fn request_verification(
        &mut self,
        creator: u64,
        offer_id: u64,
        request_id: u64,
        submit: SubmitOutcome,
    ) -> (r: Result<(), ExchangeError>)
        requires
            old(self).wf(),
        ensures
            final(self).wf(),
            r == request_verification_outcome(
                old(self).offers@,
                old(self).used_request_ids@,
                creator,
                offer_id,
                request_id,
                submit,
            ),
            final(self).total_wealth() == old(self).total_wealth(),
            r is Err ==> same_state(*final(self), *old(self)),
            r is Ok ==> {
                &&& lookup_offer(old(self).offers@, creator, offer_id) matches Some(o)
                    && lookup_offer(final(self).offers@, creator, offer_id) == Some(
                    o.verification_requested(),
                )
                &&& forall|c: u64, i: u64|
                    !(c == creator && i == offer_id) ==> #[trigger] lookup_offer(
                        final(self).offers@,
                        c,
                        i,
                    ) == lookup_offer(old(self).offers@, c, i)
                &&& lookup_pending(final(self).pending@, request_id) == Some(
                    (PendingRequest { request_id, creator, offer_id }),
                )
                &&& forall|rid: u64|
                    rid != request_id ==> #[trigger] lookup_pending(final(self).pending@, rid)
                        == lookup_pending(old(self).pending@, rid)
                &&& final(self).used_request_ids@ == old(self).used_request_ids@.push(request_id)
                &&& final(self).balances@ == old(self).balances@
            },
    {
        let k = match self.find_offer(creator, offer_id) {
            Some(k) => k,
            None => {
                return Err(ExchangeError::PreconditionViolation);
            },
        };
        let o = self.offers[k];
        if !matches!(o.phase, OfferPhase::Created) {
            return Err(ExchangeError::StateConflict);
        }
        if o.expired {
            return Err(ExchangeError::StateConflict);
        }
        if self.request_id_used(request_id) {
            return Err(ExchangeError::PreconditionViolation);
        }
        match submit {
            SubmitOutcome::Accepted => {},
            SubmitOutcome::Rejected(rej) => {
                return Err(ExchangeError::GatewayRejected(rej));
            },
        }
        let ghost old_offers = self.offers@;
        let ghost old_pending = self.pending@;
        let ghost old_used = self.used_request_ids@;
        let mut rec = self.offers.remove(k);
        rec.phase = OfferPhase::VerificationPending;
        self.offers.insert(k, rec);
        let entry = PendingRequest { request_id, creator, offer_id };
        self.pending.push(entry);
        self.used_request_ids.push(request_id);
        proof {
            assert(self.offers@ =~= old_offers.update(k as int, rec));
            assert(rec == o.verification_requested());
            lemma_total_vaults_update(old_offers, k as int, rec);
            lemma_lookup_offer_update(old_offers, k as int, rec, creator, offer_id);
            assert forall|c: u64, i: u64|
                !(c == creator && i == offer_id) implies #[trigger] lookup_offer(
                self.offers@,
                c,
                i,
            ) == lookup_offer(old_offers, c, i) by {
                lemma_lookup_offer_update(old_offers, k as int, rec, c, i);
            }
            lemma_lookup_pending_push(old_pending, entry, request_id);
            assert forall|rid: u64|
                rid != request_id implies #[trigger] lookup_pending(self.pending@, rid)
                == lookup_pending(old_pending, rid) by {
                lemma_lookup_pending_push(old_pending, entry, rid);
            }
            // The fresh request id is new to the correlation table, whose
            // ids are all drawn from the used set.
            assert(lookup_pending(old_pending, request_id) is None) by {
                assert forall|j: int|
                    0 <= j < old_pending.len() implies (#[trigger] old_pending[j]).request_id
                    != request_id by {
                    assert(old_used.contains(old_pending[j].request_id));
                }
                lemma_lookup_pending_none(old_pending, request_id);
            }
            // No earlier correlation addresses this offer: its phase was
            // still `Created`.
            assert forall|j: int|
                0 <= j < old_pending.len() implies !((#[trigger] old_pending[j]).creator == creator
                && old_pending[j].offer_id == offer_id) by {
                if old_pending[j].creator == creator && old_pending[j].offer_id == offer_id {
                    assert(lookup_offer(old_offers, creator, offer_id) == Some(o));
                }
            }
            // Every correlation entry still satisfies the table invariant.
            assert forall|i: int| 0 <= i < self.pending@.len() implies (lookup_offer(
                self.offers@,
                (#[trigger] self.pending@[i]).creator,
                self.pending@[i].offer_id,
            ) matches Some(po) && po.phase is VerificationPending) by {
                if i < old_pending.len() {
                    assert(self.pending@[i] == old_pending[i]);
                    lemma_lookup_offer_update(
                        old_offers,
                        k as int,
                        rec,
                        old_pending[i].creator,
                        old_pending[i].offer_id,
                    );
                } else {
                    assert(self.pending@[i] == entry);
                }
            }
            assert forall|i: int|
                0 <= i < self.pending@.len() implies self.used_request_ids@.contains(
                (#[trigger] self.pending@[i]).request_id,
            ) by {
                if i < old_pending.len() {
                    assert(old_used.contains(old_pending[i].request_id));
                    let w = choose|w: int|
                        0 <= w < old_used.len() && old_used[w] == old_pending[i].request_id;
                    assert(self.used_request_ids@[w] == old_pending[i].request_id);
                } else {
                    assert(self.used_request_ids@[old_used.len() as int] == request_id);
                }
            }
        }
        Ok(())
    }

    /// Books the asynchronous verification result carried by a callback.
    /// A matched callback consumes its correlation entry exactly once and
    /// resolves the offer to `Verified` (acknowledged publicly) or
    /// `Aborted` (surfaced as `ComputationAborted`); a duplicate or
    /// unmatched callback is rejected and changes nothing. A late callback
    /// for an already expired offer is still booked this way.
    pub fn verification_callback(&mut self, request_id: u64, outcome: &ComputationOutcome) -> (r:
        Result<AckEvent, ExchangeError>)
        requires
            old(self).wf(),
        ensures
            final(self).wf(),
            r == callback_outcome(old(self).pending@, request_id, outcome.is_success()),
            final(self).total_wealth() == old(self).total_wealth(),
            lookup_pending(old(self).pending@, request_id) is None ==> same_state(
                *final(self),
                *old(self),
            ),
            lookup_pending(old(self).pending@, request_id) matches Some(p) ==> {
                &&& lookup_offer(old(self).offers@, p.creator, p.offer_id) matches Some(o)
                    && lookup_offer(final(self).offers@, p.creator, p.offer_id) == Some(
                    o.verification_resolved(outcome.is_success()),
                )
                &&& forall|c: u64, i: u64|
                    !(c == p.creator && i == p.offer_id) ==> #[trigger] lookup_offer(
                        final(self).offers@,
                        c,
                        i,
                    ) == lookup_offer(old(self).offers@, c, i)
                &&& lookup_pending(final(self).pending@, request_id) is None
                &&& forall|rid: u64|
                    rid != request_id ==> #[trigger] lookup_pending(final(self).pending@, rid)
                        == lookup_pending(old(self).pending@, rid)
                &&& final(self).balances@ == old(self).balances@
                &&& final(self).used_request_ids@ == old(self).used_request_ids@
            },
    {
        let k = match self.find_pending(request_id) {
            Some(k) => k,
            None => {
                return Err(ExchangeError::StateConflict);
            },
        };
        let p = self.pending[k];
        let success = matches!(outcome, ComputationOutcome::Success { .. });
        let ghost old_offers = self.offers@;
        let ghost old_pending = self.pending@;
        let _ = self.pending.remove(k);
        let ko = match self.find_offer(p.creator, p.offer_id) {
            Some(ko) => ko,
            None => {
                // Unreachable: the table invariant guarantees the offer.
                proof {
                    assert(false);
                }
                return Err(ExchangeError::ConsistencyFault);
            },
        };
        let o = self.offers[ko];
        let mut rec = self.offers.remove(ko);
        rec.phase = if success {
            OfferPhase::Verified
        } else {
            OfferPhase::Aborted
        };
        self.offers.insert(ko, rec);
        proof {
            assert(self.offers@ =~= old_offers.update(ko as int, rec));
            assert(rec == o.verification_resolved(success));
            lemma_total_vaults_update(old_offers, ko as int, rec);
            assert(lookup_offer(old_offers, p.creator, p.offer_id) == Some(o));
            lemma_lookup_offer_update(old_offers, ko as int, rec, p.creator, p.offer_id);
            assert forall|c: u64, i: u64|
                !(c == p.creator && i == p.offer_id) implies #[trigger] lookup_offer(
                self.offers@,
                c,
                i,
            ) == lookup_offer(old_offers, c, i) by {
                lemma_lookup_offer_update(old_offers, ko as int, rec, c, i);
            }
            lemma_lookup_pending_remove(old_pending, k as int, request_id);
            assert forall|rid: u64|
                rid != request_id implies #[trigger] lookup_pending(self.pending@, rid)
                == lookup_pending(old_pending, rid) by {
                lemma_lookup_pending_remove(old_pending, k as int, rid);
            }
            // The shrunk correlation table keeps its pairwise invariants.
            assert forall|i: int, j: int|
                0 <= i < j < self.pending@.len() implies (#[trigger] self.pending@[i]).request_id
                != (#[trigger] self.pending@[j]).request_id && !(self.pending@[i].creator
                == self.pending@[j].creator && self.pending@[i].offer_id
                == self.pending@[j].offer_id) by {
                let i0: int = if i < k { i } else { i + 1 };
                let j0: int = if j < k { j } else { j + 1 };
                assert(self.pending@[i] == old_pending[i0]);
                assert(self.pending@[j] == old_pending[j0]);
            }
            // Remaining entries belong to other offers, which kept their
            // phase; the resolved offer has no remaining correlation.
            assert forall|i: int| 0 <= i < self.pending@.len() implies (lookup_offer(
                self.offers@,
                (#[trigger] self.pending@[i]).creator,
                self.pending@[i].offer_id,
            ) matches Some(po) && po.phase is VerificationPending)
                && self.used_request_ids@.contains(self.pending@[i].request_id) by {
                let i0: int = if i < k { i } else { i + 1 };
                assert(self.pending@[i] == old_pending[i0]);
                assert(!(old_pending[i0].creator == p.creator && old_pending[i0].offer_id
                    == p.offer_id));
                lemma_lookup_offer_update(
                    old_offers,
                    ko as int,
                    rec,
                    old_pending[i0].creator,
                    old_pending[i0].offer_id,
                );
            }
        }
        if success {
            Ok(AckEvent { acknowledged: 1 })
        } else {
            Err(ExchangeError::ComputationAborted)
        }
    }

    /// Atomically settles a verified offer before its deadline: the seller
    /// vault pays the buyer the offered amount and the buyer vault pays the
    /// creator the wanted amount, as one unit. Either both legs apply, or
    /// the operation is rejected and nothing changes. The vaults must hold
    /// exactly the committed amounts; anything else is a consistency fault.
    pub fn settle(&mut self, creator: u64, offer_id: u64, now: i64) -> (r: Result<
        (),
        ExchangeError,
    >)
        requires
            old(self).wf(),
        ensures
            final(self).wf(),
            r == settle_outcome(old(self).offers@, old(self).balances@, creator, offer_id, now),
            final(self).total_wealth() == old(self).total_wealth(),
            r is Err ==> same_state(*final(self), *old(self)),
            r is Ok ==> {
                &&& lookup_offer(old(self).offers@, creator, offer_id) matches Some(o)
                    && o.buyer matches Some(buyer) && {
                    &&& lookup_offer(final(self).offers@, creator, offer_id) == Some(o.settled())
                    &&& balance_of(final(self).balances@, buyer) == balance_of(
                        old(self).balances@,
                        buyer,
                    ) + o.terms.token_a_offered_amount
                    &&& balance_of(final(self).balances@, creator) == balance_of(
                        old(self).balances@,
                        creator,
                    ) + o.terms.token_b_wanted_amount
                    &&& forall|w: u64|
                        w != creator && w != buyer ==> balance_of(final(self).balances@, w)
                            == balance_of(old(self).balances@, w)
                }
                &&& forall|c: u64, i: u64|
                    !(c == creator && i == offer_id) ==> #[trigger] lookup_offer(
                        final(self).offers@,
                        c,
                        i,
                    ) == lookup_offer(old(self).offers@, c, i)
                &&& final(self).pending@ == old(self).pending@
                &&& final(self).used_request_ids@ == old(self).used_request_ids@
            },
    {
        let k = match self.find_offer(creator, offer_id) {
            Some(k) => k,
            None => {
                return Err(ExchangeError::PreconditionViolation);
            },
        };
        let o = self.offers[k];
        if !matches!(o.phase, OfferPhase::Verified) {
            return Err(ExchangeError::StateConflict);
        }
        if now > o.terms.deadline {
            return Err(ExchangeError::DeadlineExceeded);
        }
        if o.expired {
            return Err(ExchangeError::DeadlineExceeded);
        }
        let buyer = match o.buyer {
            Some(b) => b,
            None => {
                return Err(ExchangeError::PreconditionViolation);
            },
        };
        if o.seller_vault != o.terms.token_a_offered_amount || o.buyer_vault
            != o.terms.token_b_wanted_amount {
            return Err(ExchangeError::ConsistencyFault);
        }
        if o.terms.token_a_offered_amount > u64::MAX - self.balance(buyer) {
            return Err(ExchangeError::ConsistencyFault);
        }
        if o.terms.token_b_wanted_amount > u64::MAX - self.balance(creator) {
            return Err(ExchangeError::ConsistencyFault);
        }
        let ghost old_offers = self.offers@;
        let ghost old_pending = self.pending@;
        let ghost old_balances = self.balances@;
        let mut rec = self.offers.remove(k);
        rec.phase = OfferPhase::Settled;
        rec.seller_vault = 0;
        rec.buyer_vault = 0;
        self.offers.insert(k, rec);
        let leg_a = Self::credit(&mut self.balances, buyer, o.terms.token_a_offered_amount);
        let leg_b = Self::credit(&mut self.balances, creator, o.terms.token_b_wanted_amount);
        proof {
            assert(leg_a && leg_b);
            assert(self.offers@ =~= old_offers.update(k as int, rec));
            assert(rec == o.settled());
            lemma_total_vaults_update(old_offers, k as int, rec);
            lemma_lookup_offer_update(old_offers, k as int, rec, creator, offer_id);
            assert forall|c: u64, i: u64|
                !(c == creator && i == offer_id) implies #[trigger] lookup_offer(
                self.offers@,
                c,
                i,
            ) == lookup_offer(old_offers, c, i) by {
                lemma_lookup_offer_update(old_offers, k as int, rec, c, i);
            }
            // No correlation entry can address a `Verified` offer, so the
            // table invariant survives the phase change.
            assert forall|i: int| 0 <= i < old_pending.len() implies (lookup_offer(
                self.offers@,
                (#[trigger] old_pending[i]).creator,
                old_pending[i].offer_id,
            ) matches Some(po) && po.phase is VerificationPending) by {
                if old_pending[i].creator == creator && old_pending[i].offer_id == offer_id {
                    assert(lookup_offer(old_offers, creator, offer_id) == Some(o));
                }
                lemma_lookup_offer_update(
                    old_offers,
                    k as int,
                    rec,
                    old_pending[i].creator,
                    old_pending[i].offer_id,
                );
            }
        }
        Ok(())
    }

    /// Expires an unsettled offer whose deadline has passed, returning each
    /// vault's balance to its depositor. Succeeds exactly once per offer;
    /// the offer stays bookable for a late callback but can never settle.
    pub fn expire_and_refund(&mut self, creator: u64, offer_id: u64, now: i64) -> (r: Result<
        (),
        ExchangeError,
    >)
        requires
            old(self).wf(),
        ensures
            final(self).wf(),
            r == expire_outcome(old(self).offers@, old(self).balances@, creator, offer_id, now),
            final(self).total_wealth() == old(self).total_wealth(),
            r is Err ==> same_state(*final(self), *old(self)),
            r is Ok ==> {
                &&& lookup_offer(old(self).offers@, creator, offer_id) matches Some(o) && {
                    &&& lookup_offer(final(self).offers@, creator, offer_id) == Some(o.refunded())
                    &&& balance_of(final(self).balances@, creator) == balance_of(
                        old(self).balances@,
                        creator,
                    ) + o.seller_vault
                    &&& (o.buyer matches Some(b) ==> balance_of(final(self).balances@, b)
                        == balance_of(old(self).balances@, b) + o.buyer_vault)
                    &&& forall|w: u64|
                        w != creator && o.buyer != Some(w) ==> balance_of(
                            final(self).balances@,
                            w,
                        ) == balance_of(old(self).balances@, w)
                }
                &&& forall|c: u64, i: u64|
                    !(c == creator && i == offer_id) ==> #[trigger] lookup_offer(
                        final(self).offers@,
                        c,
                        i,
                    ) == lookup_offer(old(self).offers@, c, i)
                &&& final(self).pending@ == old(self).pending@
                &&& final(self).used_request_ids@ == old(self).used_request_ids@
            },
    {
        let k = match self.find_offer(creator, offer_id) {
            Some(k) => k,
            None => {
                return Err(ExchangeError::PreconditionViolation);
            },
        };
        let o = self.offers[k];
        if matches!(o.phase, OfferPhase::Settled) {
            return Err(ExchangeError::StateConflict);
        }
        if o.expired {
            return Err(ExchangeError::StateConflict);
        }
        if now <= o.terms.deadline {
            return Err(ExchangeError::PreconditionViolation);
        }
        if o.seller_vault > u64::MAX - self.balance(creator) {
            return Err(ExchangeError::ConsistencyFault);
        }
        if let Some(b) = o.buyer {
            if o.buyer_vault > u64::MAX - self.balance(b) {
                return Err(ExchangeError::ConsistencyFault);
            }
        }
        let ghost old_offers = self.offers@;
        let ghost old_pending = self.pending@;
        let mut rec = self.offers.remove(k);
        rec.expired = true;
        rec.seller_vault = 0;
        rec.buyer_vault = 0;
        self.offers.insert(k, rec);
        let refunded_seller = Self::credit(&mut self.balances, creator, o.seller_vault);
        proof {
            assert(refunded_seller);
        }
        if let Some(b) = o.buyer {
            let refunded_buyer = Self::credit(&mut self.balances, b, o.buyer_vault);
            proof {
                assert(refunded_buyer);
            }
        }
        proof {
            assert(self.offers@ =~= old_offers.update(k as int, rec));
            assert(rec == o.refunded());
            lemma_total_vaults_update(old_offers, k as int, rec);
            lemma_lookup_offer_update(old_offers, k as int, rec, creator, offer_id);
            assert forall|c: u64, i: u64|
                !(c == creator && i == offer_id) implies #[trigger] lookup_offer(
                self.offers@,
                c,
                i,
            ) == lookup_offer(old_offers, c, i) by {
                lemma_lookup_offer_update(old_offers, k as int, rec, c, i);
            }
            // An expired offer keeps its phase, so every correlation entry
            // still points at an awaiting offer.
            assert forall|i: int| 0 <= i < old_pending.len() implies (lookup_offer(
                self.offers@,
                (#[trigger] old_pending[i]).creator,
                old_pending[i].offer_id,
            ) matches Some(po) && po.phase is VerificationPending) by {
                lemma_lookup_offer_update(
                    old_offers,
                    k as int,
                    rec,
                    old_pending[i].creator,
                    old_pending[i].offer_id,
                );
            }
        }
        Ok(())
    }
}

} // verus!
