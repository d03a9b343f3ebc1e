//! What the marketplace promises across requests.
use vstd::prelude::*;

use crate::amounts::lemma_share_bounds;
use crate::errors::OracleMarketplaceError;
use crate::host::{payment, transfer_of, HostCall};
use crate::ledger::LedgerView;
use crate::model::{
    active_among, bounty_split, caller_share_bps, counted, disputed, lemma_active_among_empty,
    lemma_active_among_push, remaining_stake, settled, slash_amount, slash_split,
};
use crate::requests::Request;
use crate::storage::StorageView;
use crate::types::{Address, BytesN, CallEscrow, MarketplaceConfig, OracleProvider, Resolution};
use crate::validity::history_preserves_validity;

verus! {

/// A refused request changes nothing: storage and time stay as they were, and
/// all that was asked of the host is the requester's authorization.
pub proof fn refused_request_changes_nothing(ledger: LedgerView, request: Request)
    requires
        ledger.error(request) is Some,
    ensures
        ledger.submit(request).storage == ledger.storage,
        ledger.submit(request).timestamp == ledger.timestamp,
        ledger.submit(request).contract == ledger.contract,
        ledger.submit(request).host == ledger.host,
        ledger.submit(request).calls == ledger.calls || exists|requester: Address|
            request.requester() == Some(requester) && ledger.submit(request).calls
                == #[trigger] ledger.calls.push(HostCall::RequireAuth(requester)),
{
    match request.requester() {
        Some(requester) => {
            assert(ledger.authorized_by(requester).calls == ledger.calls.push(
                HostCall::RequireAuth(requester),
            ));
        },
        None => {},
    }
}

/// A granted request first asks for the authorization of its requester, where
/// it has one.
pub proof fn granted_request_is_authorized_first(
    ledger: LedgerView,
    request: Request,
    requester: Address,
)
    requires
        ledger.error(request) is None,
        request.requester() == Some(requester),
    ensures
        ledger.submit(request).calls_since(ledger).len() > 0,
        ledger.submit(request).calls_since(ledger)[0] == HostCall::RequireAuth(requester),
{
}

proof fn lemma_replay_append(storage: StorageView, calls: Seq<HostCall>, more: Seq<HostCall>)
    ensures
        storage.replay(calls + more) == storage.replay(calls).replay(more),
    decreases more.len(),
{
    if more.len() == 0 {
        assert(calls + more =~= calls);
    } else {
        assert((calls + more).drop_last() =~= calls + more.drop_last());
        lemma_replay_append(storage, calls, more.drop_last());
    }
}

/// Replaying up to five calls, one by one.
proof fn lemma_replay_unfold(storage: StorageView, calls: Seq<HostCall>)
    requires
        calls.len() <= 5,
    ensures
        calls.len() == 0 ==> storage.replay(calls) == storage,
        calls.len() == 1 ==> storage.replay(calls) == storage.apply(calls[0]),
        calls.len() == 2 ==> storage.replay(calls) == storage.apply(calls[0]).apply(calls[1]),
        calls.len() == 3 ==> storage.replay(calls) == storage.apply(calls[0]).apply(
            calls[1],
        ).apply(calls[2]),
        calls.len() == 4 ==> storage.replay(calls) == storage.apply(calls[0]).apply(
            calls[1],
        ).apply(calls[2]).apply(calls[3]),
        calls.len() == 5 ==> storage.replay(calls) == storage.apply(calls[0]).apply(
            calls[1],
        ).apply(calls[2]).apply(calls[3]).apply(calls[4]),
    decreases calls.len(),
{
    if calls.len() > 0 {
        lemma_replay_unfold(storage, calls.drop_last());
    }
}

proof fn lemma_accurate_replay(ledger: LedgerView, call_id: u64, provider: Address)
    ensures
        ({
            let after = ledger.resolved_accurate(call_id, provider);
            after.storage == ledger.storage.replay(after.calls_since(ledger))
        }),
{
    let after = ledger.resolved_accurate(call_id, provider);
    let more = after.calls_since(ledger);
    let config = ledger.storage.config->0;
    let escrow = ledger.storage.escrows[call_id];
    let oracle = ledger.bound_oracle(call_id);
    let opening = seq![
        HostCall::RequireAuth(provider),
        HostCall::SetCallEscrow(settled(escrow)),
    ];
    let (provider_cut, admin_cut) = bounty_split(escrow, oracle);
    let first = payment(escrow.token, ledger.contract, oracle.address, provider_cut);
    let second = payment(escrow.token, ledger.contract, config.admin, admin_cut);
    let closing = more.skip((opening + first + second).len() as int);
    assert(more =~= opening + first + second + closing);
    let opened = ledger.storage.replay(opening);
    lemma_replay_append(ledger.storage, opening, first);
    lemma_replay_append(ledger.storage, opening + first, second);
    lemma_replay_append(ledger.storage, opening + first + second, closing);
    lemma_replay_unfold(ledger.storage, opening);
    lemma_replay_unfold(opened, first);
    lemma_replay_unfold(opened, second);
    lemma_replay_unfold(opened, closing);
    assert(after.storage =~= ledger.storage.replay(more));
}

proof fn lemma_inaccurate_replay(ledger: LedgerView, call_id: u64, provider: Address)
    ensures
        ({
            let after = ledger.resolved_inaccurate(call_id, provider);
            after.storage == ledger.storage.replay(after.calls_since(ledger))
        }),
{
    let after = ledger.resolved_inaccurate(call_id, provider);
    let more = after.calls_since(ledger);
    let escrow = ledger.storage.escrows[call_id];
    let opening = seq![
        HostCall::RequireAuth(provider),
        HostCall::SetCallEscrow(settled(escrow)),
    ];
    let refund = payment(escrow.token, ledger.contract, escrow.caller, escrow.amount);
    let closing = ledger.slash_calls(call_id);
    assert(more =~= opening + refund + closing);
    let opened = ledger.storage.replay(opening);
    lemma_replay_append(ledger.storage, opening, refund);
    lemma_replay_append(ledger.storage, opening + refund, closing);
    lemma_replay_unfold(ledger.storage, opening);
    lemma_replay_unfold(opened, refund);
    lemma_replay_unfold(opened, closing);
    assert(after.storage =~= ledger.storage.replay(more));
}

/// The host calls say all: they only grow, and replaying those of a request on
/// the storage before it gives the storage after it.
pub proof fn storage_is_replay_of_calls(ledger: LedgerView, request: Request)
    ensures
        ledger.submit(request).calls == ledger.calls + ledger.submit(request).calls_since(ledger),
        ledger.submit(request).storage == ledger.storage.replay(
            ledger.submit(request).calls_since(ledger),
        ),
{
    let after = ledger.submit(request);
    let more = after.calls_since(ledger);
    assert(after.calls =~= ledger.calls + more);
    if ledger.error(request) is None && request is ResolveCall {
        let call_id = request->ResolveCall_call_id;
        let provider = request->ResolveCall_provider;
        match request->ResolveCall_resolution {
            Resolution::Accurate => lemma_accurate_replay(ledger, call_id, provider),
            Resolution::Inaccurate => lemma_inaccurate_replay(ledger, call_id, provider),
        }
    } else {
        lemma_replay_unfold(ledger.storage, more);
        assert(after.storage =~= ledger.storage.replay(more));
    }
}

/// The settings are recorded once: from then on no request changes them, and
/// recording them again is refused.
pub proof fn config_is_recorded_once(
    ledger: LedgerView,
    request: Request,
    config: MarketplaceConfig,
)
    requires
        ledger.storage.config is Some,
    ensures
        ledger.submit(request).storage.config == ledger.storage.config,
        ledger.error(Request::Initialize { config }) == Some(
            OracleMarketplaceError::AlreadyInitialized,
        ),
{
}

/// A registration is for good: the provider's record keeps its identity and its
/// terms under every request, and the key cannot be registered again.
pub proof fn registration_is_permanent(ledger: LedgerView, request: Request, pubkey: BytesN<32>)
    requires
        ledger.storage.valid(),
        ledger.storage.oracles.contains_key(pubkey),
    ensures
        ledger.submit(request).storage.oracles.contains_key(pubkey),
        ({
            let before = ledger.storage.oracles[pubkey];
            let after = ledger.submit(request).storage.oracles[pubkey];
            &&& after.pubkey == before.pubkey
            &&& after.address == before.address
            &&& after.fee_bps == before.fee_bps
            &&& after.min_stake == before.min_stake
            &&& after.bond_token == before.bond_token
            &&& after.registered_at == before.registered_at
            &&& after.is_active ==> before.is_active
        }),
        request matches Request::RegisterOracle { pubkey: key, .. } && key == pubkey
            ==> ledger.error(request) == Some(OracleMarketplaceError::OracleAlreadyRegistered),
{
}

/// The provider whose record a request may change.
pub open spec fn concerned(ledger: LedgerView, request: Request) -> Option<BytesN<32>> {
    match request {
        Request::RegisterOracle { pubkey, .. } => Some(pubkey),
        Request::DeregisterOracle { pubkey, .. } => Some(pubkey),
        Request::IncreaseBond { pubkey, .. } => Some(pubkey),
        Request::WithdrawBond { pubkey, .. } => Some(pubkey),
        Request::ResolveCall { call_id, .. } => ledger.storage.call_oracles.get(call_id),
        _ => None,
    }
}

/// A request leaves the records and earnings of every provider but the one that
/// it concerns untouched.
pub proof fn other_providers_are_untouched(
    ledger: LedgerView,
    request: Request,
    pubkey: BytesN<32>,
)
    requires
        ledger.storage.valid(),
        concerned(ledger, request) != Some(pubkey),
    ensures
        ledger.submit(request).storage.oracles.get(pubkey) == ledger.storage.oracles.get(pubkey),
        ledger.submit(request).storage.earnings_of(pubkey) == ledger.storage.earnings_of(pubkey),
{
}

/// A resolution is final: a resolved escrow is not changed by any request, and
/// resolving its call again is refused, whoever asks and whatever the outcome.
pub proof fn resolution_is_final(
    ledger: LedgerView,
    request: Request,
    call_id: u64,
    provider: Address,
    resolution: Resolution,
)
    requires
        ledger.storage.valid(),
        ledger.storage.escrows.contains_key(call_id),
        ledger.storage.escrows[call_id].resolved,
    ensures
        ledger.submit(request).storage.escrows.contains_key(call_id),
        ledger.submit(request).storage.escrows[call_id] == ledger.storage.escrows[call_id],
        ledger.resolve_call_error(call_id, provider, resolution) == Some(
            OracleMarketplaceError::EscrowAlreadyResolved,
        ),
{
}

/// A granted resolution marks the escrow resolved and settled, and nothing else
/// about it.
pub proof fn resolution_settles_escrow(
    ledger: LedgerView,
    call_id: u64,
    provider: Address,
    resolution: Resolution,
)
    requires
        ledger.storage.valid(),
        ledger.resolve_call_error(call_id, provider, resolution) is None,
    ensures
        ({
            let after = ledger.resolved(call_id, provider, resolution).storage;
            &&& after.escrows.contains_key(call_id)
            &&& after.escrows[call_id] == settled(ledger.storage.escrows[call_id])
        }),
{
}

/// Call ids are unique: once a call has an escrow, opening another one for it is
/// refused, and no request but its resolution changes it.
pub proof fn escrow_ids_are_unique(ledger: LedgerView, request: Request, call_id: u64)
    requires
        ledger.storage.valid(),
        ledger.storage.escrows.contains_key(call_id),
    ensures
        request matches Request::CreateCallEscrow { call_id: id, amount, .. } && id == call_id
            && amount > 0 ==> ledger.error(request) == Some(
            OracleMarketplaceError::EscrowAlreadyExists,
        ),
        ledger.submit(request).storage.escrows.contains_key(call_id),
        !(request matches Request::ResolveCall { call_id: id, .. } && id == call_id)
            ==> ledger.submit(request).storage.escrows[call_id]
            == ledger.storage.escrows[call_id],
{
}

/// An accurate resolution divides the bounty without remainder: the provider
/// earns `fee_bps` of it, rounded down, and the admin gets the rest.
pub proof fn bounty_is_divided_in_full(escrow: CallEscrow, oracle: OracleProvider)
    requires
        0 <= escrow.amount,
        oracle.fee_bps <= 10_000,
    ensures
        ({
            let (provider_cut, admin_cut) = bounty_split(escrow, oracle);
            &&& 0 <= provider_cut
            &&& 0 <= admin_cut
            &&& provider_cut + admin_cut == escrow.amount
            &&& provider_cut == escrow.amount * oracle.fee_bps / 10_000
        }),
{
    lemma_share_bounds(escrow.amount, oracle.fee_bps);
}

/// A slash takes `slash_penalty_bps` of the bond, rounded down, and is divided
/// without remainder: `slash_penalty_bps` of it are the admin's, the other basis
/// points, rounded down, the caller's. At one half the two get the same, up to an
/// odd unit, which is the admin's.
pub proof fn slash_is_divided_in_full(config: MarketplaceConfig, oracle: OracleProvider)
    requires
        0 <= oracle.staked_amount,
        config.slash_penalty_bps <= 10_000,
    ensures
        ({
            let slashed = slash_amount(config, oracle);
            let (caller_share, admin_share) = slash_split(config, slashed);
            &&& 0 <= slashed <= oracle.staked_amount
            &&& remaining_stake(config, oracle) == oracle.staked_amount - slashed
            &&& 0 <= caller_share
            &&& 0 <= admin_share
            &&& caller_share + admin_share == slashed
            &&& slashed == oracle.staked_amount * config.slash_penalty_bps / 10_000
            &&& caller_share == slashed * (10_000 - config.slash_penalty_bps) / 10_000
            &&& config.slash_penalty_bps == 5_000 ==> caller_share == slashed / 2
            &&& slashed * config.slash_penalty_bps / 10_000 <= admin_share <= slashed
                * config.slash_penalty_bps / 10_000 + 1
        }),
{
    let slashed = slash_amount(config, oracle);
    lemma_share_bounds(oracle.staked_amount, config.slash_penalty_bps);
    lemma_share_bounds(slashed, caller_share_bps(config));
    assert(slashed * (10_000 - config.slash_penalty_bps) + slashed * config.slash_penalty_bps
        == slashed * 10_000) by (nonlinear_arith);
}

/// A caller who was served an inaccurate answer gets the bounty back in full.
pub proof fn inaccurate_answer_is_refunded(ledger: LedgerView, call_id: u64, provider: Address)
    requires
        ledger.storage.valid(),
        ledger.resolve_call_error(call_id, provider, Resolution::Inaccurate) is None,
    ensures
        ({
            let escrow = ledger.storage.escrows[call_id];
            ledger.resolved_inaccurate(call_id, provider).calls_since(ledger).contains(
                transfer_of(escrow.token, ledger.contract, escrow.caller, escrow.amount),
            )
        }),
{
    let escrow = ledger.storage.escrows[call_id];
    let calls = ledger.resolved_inaccurate(call_id, provider).calls_since(ledger);
    assert(calls[2] == transfer_of(escrow.token, ledger.contract, escrow.caller, escrow.amount));
}

/// A slash that is granted leaves the bond at the provider's floor or above it.
pub proof fn slash_keeps_the_floor(ledger: LedgerView, call_id: u64, provider: Address)
    requires
        ledger.storage.valid(),
        ledger.resolve_call_error(call_id, provider, Resolution::Inaccurate) is None,
    ensures
        ({
            let key = ledger.storage.call_oracles[call_id];
            let after = ledger.resolved_inaccurate(call_id, provider).storage.oracles[key];
            &&& after.min_stake <= after.staked_amount
            &&& after.staked_amount == ledger.bound_oracle(call_id).staked_amount - slash_amount(
                ledger.storage.config->0,
                ledger.bound_oracle(call_id),
            )
        }),
{
    slash_is_divided_in_full(ledger.storage.config->0, ledger.bound_oracle(call_id));
}

/// Every resolution counts, on one side only: an accurate one among the resolved
/// calls, an inaccurate one among the disputes, also where nothing was slashed.
pub proof fn resolution_is_counted(
    ledger: LedgerView,
    call_id: u64,
    provider: Address,
    resolution: Resolution,
)
    requires
        ledger.storage.valid(),
        ledger.resolve_call_error(call_id, provider, resolution) is None,
    ensures
        ({
            let key = ledger.storage.call_oracles[call_id];
            let before = ledger.storage.oracles[key];
            let after = ledger.resolved(call_id, provider, resolution).storage.oracles[key];
            match resolution {
                Resolution::Accurate => {
                    &&& after.total_resolved == counted(before.total_resolved)
                    &&& before.total_resolved < u64::MAX ==> after.total_resolved
                        == before.total_resolved + 1
                    &&& after.total_disputes == before.total_disputes
                    &&& after.staked_amount == before.staked_amount
                },
                Resolution::Inaccurate => {
                    &&& after.total_disputes == counted(before.total_disputes)
                    &&& before.total_disputes < u64::MAX ==> after.total_disputes
                        == before.total_disputes + 1
                    &&& after.total_resolved == before.total_resolved
                },
            }
        }),
{
}

/// Earnings add up: an accurate resolution adds the provider's part of the
/// bounty to what they have earned, as far as it can be recorded; an inaccurate
/// one adds nothing.
pub proof fn earnings_accumulate(
    ledger: LedgerView,
    call_id: u64,
    provider: Address,
    resolution: Resolution,
)
    requires
        ledger.storage.valid(),
        ledger.resolve_call_error(call_id, provider, resolution) is None,
    ensures
        ({
            let escrow = ledger.storage.escrows[call_id];
            let key = ledger.storage.call_oracles[call_id];
            let before = ledger.storage.earnings_of(key);
            let after = ledger.resolved(call_id, provider, resolution).storage.earnings_of(key);
            let earned = match resolution {
                Resolution::Accurate => escrow.amount * ledger.storage.oracles[key].fee_bps
                    / 10_000,
                Resolution::Inaccurate => 0,
            };
            &&& before <= after
            &&& before + earned <= i128::MAX ==> after == before + earned
            &&& before + earned > i128::MAX ==> after == i128::MAX
        }),
{
    let escrow = ledger.storage.escrows[call_id];
    let oracle = ledger.bound_oracle(call_id);
    lemma_share_bounds(escrow.amount, oracle.fee_bps);
}

/// A top-up adds to the stake, as far as it can be recorded, and changes nothing
/// else about the provider. Whoever pays for it makes no difference.
pub proof fn top_up_adds_to_the_stake(
    ledger: LedgerView,
    pubkey: BytesN<32>,
    amount: i128,
    funder: Address,
)
    requires
        ledger.storage.valid(),
        ledger.increase_bond_error(pubkey, amount) is None,
    ensures
        ({
            let before = ledger.storage.oracles[pubkey];
            let after = ledger.bond_increased(pubkey, amount, funder).storage.oracles[pubkey];
            &&& after == OracleProvider { staked_amount: after.staked_amount, ..before }
            &&& before.staked_amount <= after.staked_amount
            &&& before.staked_amount + amount <= i128::MAX ==> after.staked_amount
                == before.staked_amount + amount
        }),
{
}

/// A deregistration does not release the bond: the stake stays, and no tokens
/// are moved.
pub proof fn deregistration_keeps_the_bond(
    ledger: LedgerView,
    provider: Address,
    pubkey: BytesN<32>,
    i: int,
)
    requires
        ledger.deregister_oracle_error(provider, pubkey) is None,
        0 <= i < ledger.deregistered(provider, pubkey).calls_since(ledger).len(),
    ensures
        ledger.deregistered(provider, pubkey).storage.oracles[pubkey].staked_amount
            == ledger.storage.oracles[pubkey].staked_amount,
        !(ledger.deregistered(provider, pubkey).calls_since(ledger)[i] is Transfer),
{
}

/// The cooldown runs from the deregistration: before it has ended the provider
/// cannot withdraw their bond, from then on they can.
pub proof fn bond_waits_for_the_cooldown(
    ledger: LedgerView,
    provider: Address,
    pubkey: BytesN<32>,
    later: u64,
)
    requires
        ledger.storage.valid(),
        ledger.deregister_oracle_error(provider, pubkey) is None,
        ledger.cooldown_end() <= u64::MAX,
    ensures
        ({
            let waiting = LedgerView { timestamp: later, ..ledger.deregistered(provider, pubkey) };
            let end = ledger.timestamp + ledger.storage.config->0.cooldown_secs;
            &&& end == ledger.cooldown_end()
            &&& waiting.withdraw_bond_error(provider, pubkey) == if later < end {
                Some(OracleMarketplaceError::CooldownActive)
            } else {
                None
            }
        }),
{
}

/// Deregistering again trips the cooldown as long as it runs; after that the
/// provider is just not active.
pub proof fn deregistering_again_trips_the_cooldown(
    ledger: LedgerView,
    provider: Address,
    pubkey: BytesN<32>,
    again: Address,
    later: u64,
)
    requires
        ledger.deregister_oracle_error(provider, pubkey) is None,
        ledger.cooldown_end() <= u64::MAX,
    ensures
        ({
            let waiting = LedgerView { timestamp: later, ..ledger.deregistered(provider, pubkey) };
            let end = ledger.timestamp + ledger.storage.config->0.cooldown_secs;
            &&& end == ledger.cooldown_end()
            &&& waiting.deregister_oracle_error(again, pubkey) == Some(
                if later < end {
                    OracleMarketplaceError::CooldownActive
                } else {
                    OracleMarketplaceError::OracleNotActive
                },
            )
        }),
{
}

/// A cooldown that has started is not cut short or restarted by any request.
pub proof fn cooldown_is_fixed(ledger: LedgerView, request: Request, pubkey: BytesN<32>)
    requires
        ledger.storage.valid(),
        ledger.storage.oracles.contains_key(pubkey),
        !ledger.storage.oracles[pubkey].is_active,
    ensures
        !ledger.submit(request).storage.oracles[pubkey].is_active,
        ledger.submit(request).storage.oracles[pubkey].deregister_after
            == ledger.storage.oracles[pubkey].deregister_after,
{
}

/// A cooldown that has started holds through every history: as long as it runs,
/// the provider stays inactive and their bond cannot be withdrawn.
pub proof fn cooldown_outlasts_history(
    ledger: LedgerView,
    history: Seq<Request>,
    pubkey: BytesN<32>,
    end: u64,
)
    requires
        ledger.storage.valid(),
        ledger.all_feasible(history),
        ledger.storage.oracles.contains_key(pubkey),
        ledger.storage.oracles[pubkey].deregister_after == Some(end),
    ensures
        ({
            let after = ledger.run(history);
            let oracle = after.storage.oracles[pubkey];
            &&& after.storage.oracles.contains_key(pubkey)
            &&& !oracle.is_active
            &&& oracle.deregister_after == Some(end)
            &&& after.timestamp < end ==> after.withdraw_bond_error(oracle.address, pubkey) == Some(
                OracleMarketplaceError::CooldownActive,
            )
        }),
    decreases history.len(),
{
    if history.len() > 0 {
        let front = history.drop_last();
        cooldown_outlasts_history(ledger, front, pubkey, end);
        history_preserves_validity(ledger, front);
        registration_is_permanent(ledger.run(front), history.last(), pubkey);
        cooldown_is_fixed(ledger.run(front), history.last(), pubkey);
    }
}

/// A bond is withdrawn once: after a withdrawal nothing is left to withdraw.
pub proof fn bond_is_withdrawn_once(
    ledger: LedgerView,
    provider: Address,
    pubkey: BytesN<32>,
    later: u64,
)
    requires
        ledger.withdraw_bond_error(provider, pubkey) is None,
        ledger.timestamp <= later,
    ensures
        ({
            let after = LedgerView { timestamp: later, ..ledger.bond_withdrawn(provider, pubkey) };
            &&& after.storage.oracles[pubkey].staked_amount == 0
            &&& after.withdraw_bond_error(provider, pubkey) == Some(
                OracleMarketplaceError::InsufficientStake,
            )
        }),
{
}

/// The bond of an active provider cannot be withdrawn, by anybody.
pub proof fn active_bond_is_locked(ledger: LedgerView, provider: Address, pubkey: BytesN<32>)
    requires
        ledger.storage.oracles.contains_key(pubkey),
        ledger.storage.oracles[pubkey].is_active,
    ensures
        ledger.withdraw_bond_error(provider, pubkey) is Some,
{
}

/// A provider that is not active serves no calls: none can be bound to it, none
/// escrowed for it, and none resolved by it.
pub proof fn inactive_provider_serves_no_calls(
    ledger: LedgerView,
    call_id: u64,
    pubkey: BytesN<32>,
    amount: i128,
    provider: Address,
    resolution: Resolution,
)
    requires
        ledger.storage.oracles.contains_key(pubkey),
        !ledger.storage.oracles[pubkey].is_active,
    ensures
        ledger.select_oracle_error(pubkey) == Some(OracleMarketplaceError::OracleNotActive),
        ledger.create_call_escrow_error(call_id, pubkey, amount) is Some,
        ledger.storage.call_oracles.get(call_id) == Some(pubkey) ==> ledger.resolve_call_error(
            call_id,
            provider,
            resolution,
        ) is Some,
{
}

/// Only the provider that a call is bound to can resolve it: as long as the
/// call is open, everybody else is told that they are not the selected oracle.
pub proof fn only_the_bound_provider_resolves(
    ledger: LedgerView,
    call_id: u64,
    provider: Address,
    resolution: Resolution,
)
    requires
        ledger.storage.valid(),
        ledger.storage.escrows.contains_key(call_id),
        !ledger.storage.escrows[call_id].resolved,
    ensures
        ledger.bound_oracle(call_id).address != provider <==> ledger.resolve_call_error(
            call_id,
            provider,
            resolution,
        ) == Some(OracleMarketplaceError::NotSelectedOracle),
{
}

/// The last selection decides who resolves an open call, whatever the call was
/// bound to before.
pub proof fn selection_decides_who_resolves(
    ledger: LedgerView,
    call_id: u64,
    pubkey: BytesN<32>,
    provider: Address,
    resolution: Resolution,
)
    requires
        ledger.storage.valid(),
        ledger.select_oracle_error(pubkey) is None,
        ledger.storage.escrows.contains_key(call_id),
        !ledger.storage.escrows[call_id].resolved,
    ensures
        ({
            let after = ledger.oracle_selected(call_id, pubkey);
            &&& after.bound_oracle(call_id) == ledger.storage.oracles[pubkey]
            &&& ledger.storage.oracles[pubkey].address != provider ==> after.resolve_call_error(
                call_id,
                provider,
                resolution,
            ) == Some(OracleMarketplaceError::NotSelectedOracle)
            &&& ledger.storage.oracles[pubkey].address == provider ==> after.resolve_call_error(
                call_id,
                provider,
                Resolution::Accurate,
            ) is None
        }),
{
}

/// A user rates a provider once: the rating stays under every request, and a
/// second one is refused.
pub proof fn rating_is_left_once(
    ledger: LedgerView,
    request: Request,
    user: Address,
    pubkey: BytesN<32>,
)
    requires
        ledger.storage.valid(),
        ledger.storage.ratings.contains_key((pubkey, user)),
    ensures
        ledger.submit(request).storage.ratings.contains_key((pubkey, user)),
        ledger.submit(request).storage.ratings[(pubkey, user)] == ledger.storage.ratings[(
            pubkey,
            user,
        )],
        ledger.rate_oracle_error(user, pubkey) == Some(OracleMarketplaceError::AlreadyRated),
{
}

/// What is final stays on record through every history: the settings, who
/// registered under a key and on what terms, who escrowed what for a call,
/// resolved escrows, and ratings. So a call id is never used again.
pub proof fn records_outlast_history(
    ledger: LedgerView,
    history: Seq<Request>,
    pubkey: BytesN<32>,
    call_id: u64,
    user: Address,
)
    requires
        ledger.storage.valid(),
        ledger.all_feasible(history),
    ensures
        ({
            let before = ledger.storage;
            let after = ledger.run(history).storage;
            &&& before.config is Some ==> after.config == before.config
            &&& before.oracles.contains_key(pubkey) ==> {
                &&& after.oracles.contains_key(pubkey)
                &&& after.oracles[pubkey].address == before.oracles[pubkey].address
                &&& after.oracles[pubkey].fee_bps == before.oracles[pubkey].fee_bps
                &&& after.oracles[pubkey].min_stake == before.oracles[pubkey].min_stake
                &&& after.oracles[pubkey].bond_token == before.oracles[pubkey].bond_token
                &&& after.oracles[pubkey].registered_at == before.oracles[pubkey].registered_at
            }
            &&& before.escrows.contains_key(call_id) ==> {
                &&& after.escrows.contains_key(call_id)
                &&& after.escrows[call_id] == CallEscrow {
                    resolved: after.escrows[call_id].resolved,
                    settled: after.escrows[call_id].settled,
                    ..before.escrows[call_id]
                }
            }
            &&& before.escrows.contains_key(call_id) && before.escrows[call_id].resolved ==> {
                &&& after.escrows.contains_key(call_id)
                &&& after.escrows[call_id] == before.escrows[call_id]
            }
            &&& before.ratings.contains_key((pubkey, user)) ==> {
                &&& after.ratings.contains_key((pubkey, user))
                &&& after.ratings[(pubkey, user)] == before.ratings[(pubkey, user)]
            }
        }),
    decreases history.len(),
{
    if history.len() > 0 {
        let front = history.drop_last();
        let now = ledger.run(front);
        records_outlast_history(ledger, front, pubkey, call_id, user);
        history_preserves_validity(ledger, front);
        if now.storage.oracles.contains_key(pubkey) {
            registration_is_permanent(now, history.last(), pubkey);
        }
        if now.storage.escrows.contains_key(call_id) {
            escrow_ids_are_unique(now, history.last(), call_id);
        }
        if now.storage.escrows.contains_key(call_id) && now.storage.escrows[call_id].resolved {
            let asked = Resolution::Accurate;
            resolution_is_final(now, history.last(), call_id, user, asked);
        }
        if now.storage.ratings.contains_key((pubkey, user)) {
            rating_is_left_once(now, history.last(), user, pubkey);
        }
    }
}

/// A call is bound to the provider that was selected for it last, by a selection
/// or by an escrow.
pub proof fn selection_binds_call(
    ledger: LedgerView,
    call_id: u64,
    pubkey: BytesN<32>,
    caller: Address,
    amount: i128,
    token: Address,
)
    ensures
        ledger.oracle_selected(call_id, pubkey).storage.call_oracles.get(call_id) == Some(pubkey),
        ledger.escrow_created(
            ledger.new_escrow(call_id, caller, pubkey, amount, token),
        ).storage.call_oracles.get(call_id) == Some(pubkey),
{
}

/// A list of active providers is on offer as it stands.
pub proof fn lemma_active_among_all(
    list: Seq<BytesN<32>>,
    oracles: Map<BytesN<32>, OracleProvider>,
)
    requires
        forall|i: int| 0 <= i < list.len() ==> oracles.contains_key(#[trigger] list[i]) && oracles[
            list[i]
        ].is_active,
    ensures
        active_among(list, oracles) == list.map_values(|key: BytesN<32>| oracles[key]),
    decreases list.len(),
{
    let record = |key: BytesN<32>| oracles[key];
    if list.len() == 0 {
        lemma_active_among_empty(oracles);
        assert(list =~= Seq::empty());
        assert(active_among(list, oracles) =~= list.map_values(record));
    } else {
        let front = list.drop_last();
        assert forall|i: int| 0 <= i < front.len() implies oracles.contains_key(#[trigger] front[i])
            && oracles[front[i]].is_active by {
            assert(front[i] == list[i]);
        }
        lemma_active_among_all(front, oracles);
        assert(list =~= front.push(list.last()));
        assert(list.last() == list[list.len() - 1]);
        lemma_active_among_push(front, list.last(), oracles);
        assert(active_among(list, oracles) =~= list.map_values(record));
    }
}

/// The providers on offer are exactly the active ones, each of them once.
pub proof fn offer_is_the_active_providers(ledger: LedgerView)
    requires
        ledger.storage.valid(),
    ensures
        forall|i: int|
            0 <= i < ledger.available_oracles().len() ==> {
                let oracle = #[trigger] ledger.available_oracles()[i];
                &&& oracle.is_active
                &&& ledger.storage.oracles.contains_key(oracle.pubkey)
                &&& ledger.storage.oracles[oracle.pubkey] == oracle
            },
        forall|key: BytesN<32>| #[trigger]
            ledger.storage.oracles.contains_key(key) && ledger.storage.oracles[key].is_active
                ==> ledger.available_oracles().contains(ledger.storage.oracles[key]),
        forall|i: int, j: int|
            0 <= i < j < ledger.available_oracles().len() ==> (
            #[trigger] ledger.available_oracles()[i]).pubkey != (
            #[trigger] ledger.available_oracles()[j]).pubkey,
{
    let list = ledger.storage.oracle_list;
    let oracles = ledger.storage.oracles;
    assert forall|i: int| 0 <= i < list.len() implies oracles.contains_key(#[trigger] list[i])
        && oracles[list[i]].is_active by {
        assert(list.contains(list[i]));
    }
    lemma_active_among_all(list, oracles);
    let offer = ledger.available_oracles();
    assert forall|key: BytesN<32>| #[trigger]
        oracles.contains_key(key) && oracles[key].is_active implies offer.contains(
        oracles[key],
    ) by {
        assert(list.contains(key));
        let i = choose|i: int| 0 <= i < list.len() && list[i] == key;
        assert(offer[i] == oracles[key]);
    }
}

/// Whether a call moves tokens out of the contract.
pub open spec fn is_payout(call: HostCall, contract: Address) -> bool {
    call matches HostCall::Transfer(transfer) && transfer.from == contract
}

/// A payout comes after the record that forbids it to be made again: a bounty is
/// paid out of an escrow that has been settled, and a bond is paid out after it
/// has been taken off the provider's stake.
pub proof fn payouts_follow_their_records(ledger: LedgerView, request: Request, i: int)
    requires
        ledger.storage.valid(),
        ledger.error(request) is None,
        request.payer() != Some(ledger.contract),
        0 <= i < ledger.submit(request).calls_since(ledger).len(),
        is_payout(ledger.submit(request).calls_since(ledger)[i], ledger.contract),
    ensures
        ({
            let recorded = ledger.storage.replay(
                ledger.submit(request).calls_since(ledger).take(i),
            );
            match request {
                Request::WithdrawBond { pubkey, .. } => recorded.oracles[pubkey].staked_amount == 0,
                Request::ResolveCall { call_id, .. } => recorded.escrows[call_id].resolved
                    && recorded.escrows[call_id].settled,
                _ => false,
            }
        }),
{
    let after = ledger.submit(request);
    let calls = after.calls_since(ledger);
    match request {
        Request::WithdrawBond { pubkey, .. } => {
            assert(i == 2);
            lemma_replay_unfold(ledger.storage, calls.take(2));
        },
        Request::ResolveCall { call_id, provider, resolution } => {
            let escrow = ledger.storage.escrows[call_id];
            assert(calls[0] == HostCall::RequireAuth(provider));
            assert(calls[1] == HostCall::SetCallEscrow(settled(escrow)));
            assert(i >= 2);
            lemma_replay_unfold(ledger.storage, calls.take(2));
            let opened = ledger.storage.replay(calls.take(2));
            assert forall|j: int| 2 <= j < calls.len() implies !(
            #[trigger] calls[j] is SetCallEscrow) by {}
            lemma_replay_keeps_escrows(opened, calls.subrange(2, i));
            assert(calls.take(i) =~= calls.take(2) + calls.subrange(2, i));
            lemma_replay_append(ledger.storage, calls.take(2), calls.subrange(2, i));
        },
        _ => {},
    }
}

proof fn lemma_replay_keeps_escrows(storage: StorageView, calls: Seq<HostCall>)
    requires
        forall|j: int| 0 <= j < calls.len() ==> !(#[trigger] calls[j] is SetCallEscrow),
    ensures
        storage.replay(calls).escrows == storage.escrows,
    decreases calls.len(),
{
    if calls.len() > 0 {
        assert(calls.last() == calls[calls.len() - 1]);
        assert forall|j: int| 0 <= j < calls.drop_last().len() implies !(
        #[trigger] calls.drop_last()[j] is SetCallEscrow) by {
            assert(calls.drop_last()[j] == calls[j]);
        }
        lemma_replay_keeps_escrows(storage, calls.drop_last());
    }
}

/// The smaller stake is recorded before any of the slashed bond is paid out.
pub proof fn slash_is_recorded_before_payout(ledger: LedgerView, call_id: u64, provider: Address)
    requires
        ledger.storage.valid(),
        ledger.resolve_call_error(call_id, provider, Resolution::Inaccurate) is None,
        slash_amount(ledger.storage.config->0, ledger.bound_oracle(call_id)) > 0,
    ensures
        ({
            let oracle = ledger.bound_oracle(call_id);
            let calls = ledger.resolved_inaccurate(call_id, provider).calls_since(ledger);
            // Authorization, escrow, refund; then the record, then the payouts.
            &&& calls.len() == 7
            &&& is_payout(calls[2], ledger.contract)
            &&& calls[2]->Transfer_0.token == ledger.storage.escrows[call_id].token
            &&& calls[3] == HostCall::SetOracle {
                pubkey: oracle.pubkey,
                oracle: disputed(ledger.storage.config->0, oracle),
            }
            &&& is_payout(calls[4], ledger.contract)
            &&& is_payout(calls[5], ledger.contract)
            &&& calls[6] is Publish
        }),
{
}

/// A bond is in the contract's custody before the provider is recorded or
/// listed.
pub proof fn bond_precedes_listing(ledger: LedgerView, oracle: OracleProvider, i: int)
    requires
        0 <= i < ledger.registered(oracle).calls_since(ledger).len(),
        ({
            let call = ledger.registered(oracle).calls_since(ledger)[i];
            call is SetOracle || call is AddToOracleList
        }),
    ensures
        i > 1,
        ledger.registered(oracle).calls_since(ledger)[1] == transfer_of(
            oracle.bond_token,
            oracle.address,
            ledger.contract,
            oracle.staked_amount,
        ),
{
}

} // verus!
