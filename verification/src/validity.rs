//! What holds of the contract's storage in every state that it can reach.
use vstd::prelude::*;

use crate::amounts::{lemma_share_bounds, BPS_DENOMINATOR};
use crate::ledger::LedgerView;
use crate::requests::Request;
use crate::storage::{lemma_without_push, without, StorageView};
use crate::types::{Address, BytesN, CallEscrow, MarketplaceConfig, OracleProvider};

verus! {

/// A provider's record under its key: fees are a part of the whole, the floor is
/// positive, and an active provider's bond never lies below it. A cooldown is
/// set once the provider is inactive, and only then.
pub open spec fn valid_oracle(pubkey: BytesN<32>, oracle: OracleProvider) -> bool {
    &&& oracle.pubkey == pubkey
    &&& oracle.fee_bps <= BPS_DENOMINATOR
    &&& 0 < oracle.min_stake
    &&& 0 <= oracle.staked_amount
    &&& 0 <= oracle.total_slashed
    &&& oracle.is_active ==> oracle.min_stake <= oracle.staked_amount
    &&& oracle.is_active <==> oracle.deregister_after is None
}

/// An escrow under its call id. An escrow is settled as it is resolved.
pub open spec fn valid_escrow(call_id: u64, escrow: CallEscrow) -> bool {
    &&& escrow.call_id == call_id
    &&& 0 < escrow.amount
    &&& escrow.resolved == escrow.settled
}

pub open spec fn valid_config(config: MarketplaceConfig) -> bool {
    &&& config.default_fee_bps <= BPS_DENOMINATOR
    &&& config.slash_penalty_bps <= BPS_DENOMINATOR
}

impl StorageView {
    /// Every record is valid and refers to records that exist, no provider
    /// registers before the settings are recorded, and the list of providers on
    /// offer names each active provider once and no other key.
    pub open spec fn valid(self) -> bool {
        &&& self.oracles.dom().finite()
        &&& self.escrows.dom().finite()
        &&& self.config matches Some(config) ==> valid_config(config)
        &&& forall|key: BytesN<32>| #[trigger]
            self.oracles.contains_key(key) ==> self.config is Some && valid_oracle(
                key,
                self.oracles[key],
            )
        &&& self.listing_exact()
        &&& forall|call_id: u64| #[trigger]
            self.call_oracles.contains_key(call_id) ==> self.oracles.contains_key(
                self.call_oracles[call_id],
            )
        &&& forall|call_id: u64| #[trigger]
            self.escrows.contains_key(call_id) ==> {
                &&& valid_escrow(call_id, self.escrows[call_id])
                &&& self.oracles.contains_key(self.escrows[call_id].oracle)
                &&& self.call_oracles.contains_key(call_id)
            }
        &&& forall|key: BytesN<32>| #[trigger]
            self.earnings.contains_key(key) ==> self.oracles.contains_key(key)
                && 0 <= self.earnings[key]
        &&& forall|rating: (BytesN<32>, Address)| #[trigger]
            self.ratings.contains_key(rating) ==> self.oracles.contains_key(rating.0)
    }

    /// The list of providers on offer names each active provider once and no
    /// other key.
    pub open spec fn listing_exact(self) -> bool {
        &&& self.oracle_list.no_duplicates()
        &&& forall|key: BytesN<32>| #[trigger]
            self.oracle_list.contains(key) <==> self.oracles.contains_key(key)
                && self.oracles[key].is_active
    }
}

proof fn lemma_without_contains(list: Seq<BytesN<32>>, key: BytesN<32>)
    ensures
        forall|other: BytesN<32>| #[trigger]
            without(list, key).contains(other) <==> list.contains(other) && other != key,
        list.no_duplicates() ==> without(list, key).no_duplicates(),
    decreases list.len(),
{
    reveal(Seq::filter);
    if list.len() > 0 {
        let front = list.drop_last();
        let last = list.last();
        lemma_without_contains(front, key);
        assert(list =~= front.push(last));
        lemma_without_push(front, last, key);
        assert forall|other: BytesN<32>| #[trigger]
            without(list, key).contains(other) <==> list.contains(other) && other != key by {
            if list.contains(other) && other != key {
                if other != last {
                    let i = choose|i: int| 0 <= i < list.len() && list[i] == other;
                    assert(front[i] == other);
                    assert(front.contains(other));
                    assert(without(front, key).contains(other));
                    let j = choose|j: int|
                        0 <= j < without(front, key).len() && without(front, key)[j] == other;
                    assert(without(list, key)[j] == other);
                } else {
                    assert(without(list, key)[without(front, key).len() as int] == other);
                }
            }
            if without(list, key).contains(other) {
                let j = choose|j: int|
                    0 <= j < without(list, key).len() && without(list, key)[j] == other;
                if j < without(front, key).len() {
                    assert(without(front, key)[j] == other);
                    assert(without(front, key).contains(other));
                    let i = choose|i: int| 0 <= i < front.len() && front[i] == other;
                    assert(list[i] == other);
                } else {
                    assert(list[list.len() - 1] == other);
                }
            }
        }
        if list.no_duplicates() {
            assert(!front.contains(last));
            assert(!without(front, key).contains(last));
        }
    }
}

proof fn lemma_list_push(list: Seq<BytesN<32>>, key: BytesN<32>)
    ensures
        forall|other: BytesN<32>| #[trigger]
            list.push(key).contains(other) <==> list.contains(other) || other == key,
        list.no_duplicates() && !list.contains(key) ==> list.push(key).no_duplicates(),
{
    assert forall|other: BytesN<32>| #[trigger]
        list.push(key).contains(other) <==> list.contains(other) || other == key by {
        if list.contains(other) {
            let i = choose|i: int| 0 <= i < list.len() && list[i] == other;
            assert(list.push(key)[i] == other);
        }
        assert(list.push(key)[list.len() as int] == key);
    }
}

/// A contract that nothing was written to is valid.
pub proof fn blank_storage_is_valid()
    ensures
        StorageView::empty().valid(),
{
}

/// Every request keeps storage valid.
pub proof fn request_preserves_validity(ledger: LedgerView, request: Request)
    requires
        ledger.storage.valid(),
        ledger.feasible(request),
    ensures
        ledger.submit(request).storage.valid(),
{
    if ledger.error(request) is None {
        match request {
            Request::RegisterOracle { pubkey, .. } => {
                lemma_list_push(ledger.storage.oracle_list, pubkey);
            },
            Request::DeregisterOracle { pubkey, .. } => {
                lemma_without_contains(ledger.storage.oracle_list, pubkey);
            },
            Request::ResolveCall { call_id, .. } => {
                let escrow = ledger.storage.escrows[call_id];
                let oracle = ledger.bound_oracle(call_id);
                lemma_share_bounds(escrow.amount, oracle.fee_bps);
                lemma_share_bounds(
                    oracle.staked_amount,
                    ledger.storage.config->0.slash_penalty_bps,
                );
            },
            _ => {},
        }
    }
}

/// Whatever is requested of it, in whatever order, the contract keeps its
/// storage valid.
pub proof fn history_preserves_validity(ledger: LedgerView, history: Seq<Request>)
    requires
        ledger.storage.valid(),
        ledger.all_feasible(history),
    ensures
        ledger.run(history).storage.valid(),
    decreases history.len(),
{
    if history.len() > 0 {
        history_preserves_validity(ledger, history.drop_last());
        request_preserves_validity(ledger.run(history.drop_last()), history.last());
    }
}

} // verus!
