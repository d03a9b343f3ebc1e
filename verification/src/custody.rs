//! What the contract holds of each token, against what it owes.
use vstd::prelude::*;

use crate::amounts::lemma_share_bounds;
use crate::host::{payment, HostCall};
use crate::ledger::LedgerView;
use crate::model::{bounty_split, caller_share_bps, disputed, settled, slash_amount};
use crate::requests::Request;
use crate::storage::StorageView;
use crate::types::{Address, BytesN, CallEscrow, OracleProvider, Resolution};
use crate::validity::{blank_storage_is_valid, history_preserves_validity};

verus! {

/// The sum of the amounts in a finite map.
pub open spec fn total<K>(amounts: Map<K, int>) -> int
    decreases amounts.dom().len(),
{
    if amounts.dom().finite() && amounts.dom().len() > 0 {
        let key = amounts.dom().choose();
        amounts[key] + total(amounts.remove(key))
    } else {
        0
    }
}

/// Any key's amount can be taken off the sum.
proof fn lemma_total_remove<K>(amounts: Map<K, int>, key: K)
    requires
        amounts.dom().finite(),
        amounts.contains_key(key),
    ensures
        total(amounts) == amounts[key] + total(amounts.remove(key)),
    decreases amounts.dom().len(),
{
    let first = amounts.dom().choose();
    if first != key {
        lemma_total_remove(amounts.remove(first), key);
        lemma_total_remove(amounts.remove(key), first);
        assert(amounts.remove(first).remove(key) =~= amounts.remove(key).remove(first));
    }
}

/// Setting one key's amount moves the sum by the difference.
proof fn lemma_total_insert<K>(amounts: Map<K, int>, key: K, amount: int)
    requires
        amounts.dom().finite(),
    ensures
        total(amounts.insert(key, amount)) == total(amounts) + amount - if amounts.contains_key(
            key,
        ) {
            amounts[key]
        } else {
            0
        },
{
    let after = amounts.insert(key, amount);
    lemma_total_remove(after, key);
    if amounts.contains_key(key) {
        lemma_total_remove(amounts, key);
        assert(after.remove(key) =~= amounts.remove(key));
    } else {
        assert(after.remove(key) =~= amounts);
    }
}

/// What a provider's bond locks of a token.
pub open spec fn bonded(oracle: OracleProvider, token: Address) -> int {
    if oracle.bond_token == token {
        oracle.staked_amount as int
    } else {
        0
    }
}

/// What an open escrow locks of a token.
pub open spec fn escrowed(escrow: CallEscrow, token: Address) -> int {
    if escrow.token == token && !escrow.resolved {
        escrow.amount as int
    } else {
        0
    }
}

pub open spec fn total_bonded(oracles: Map<BytesN<32>, OracleProvider>, token: Address) -> int {
    total(oracles.map_values(|oracle: OracleProvider| bonded(oracle, token)))
}

pub open spec fn total_escrowed(escrows: Map<u64, CallEscrow>, token: Address) -> int {
    total(escrows.map_values(|escrow: CallEscrow| escrowed(escrow, token)))
}

/// What the contract owes of a token: every bond, and the bounty of every call
/// that is not resolved.
pub open spec fn owed(storage: StorageView, token: Address) -> int {
    total_bonded(storage.oracles, token) + total_escrowed(storage.escrows, token)
}

/// What a host call brings to the contract of a token, less what it takes away.
pub open spec fn inflow(call: HostCall, contract: Address, token: Address) -> int {
    match call {
        HostCall::Transfer(transfer) => if transfer.token != token || transfer.from == transfer.to {
            0
        } else if transfer.to == contract {
            transfer.amount as int
        } else if transfer.from == contract {
            -transfer.amount
        } else {
            0
        },
        _ => 0,
    }
}

pub open spec fn net_inflow(calls: Seq<HostCall>, contract: Address, token: Address) -> int
    decreases calls.len(),
{
    if calls.len() == 0 {
        0
    } else {
        net_inflow(calls.drop_last(), contract, token) + inflow(calls.last(), contract, token)
    }
}

impl LedgerView {
    /// What the contract holds of a token out of the transfers made so far.
    pub open spec fn custody(self, token: Address) -> int {
        net_inflow(self.calls, self.contract, token)
    }

    /// What the contract holds of a token beyond what it owes.
    pub open spec fn surplus(self, token: Address) -> int {
        self.custody(token) - owed(self.storage, token)
    }
}

proof fn lemma_inflow_append(
    calls: Seq<HostCall>,
    more: Seq<HostCall>,
    contract: Address,
    token: Address,
)
    ensures
        net_inflow(calls + more, contract, token) == net_inflow(calls, contract, token)
            + net_inflow(more, contract, token),
    decreases more.len(),
{
    if more.len() == 0 {
        assert(calls + more =~= calls);
    } else {
        assert((calls + more).drop_last() =~= calls + more.drop_last());
        lemma_inflow_append(calls, more.drop_last(), contract, token);
    }
}

/// The inflow of up to five calls, one by one.
proof fn lemma_inflow_unfold(calls: Seq<HostCall>, contract: Address, token: Address)
    requires
        calls.len() <= 5,
    ensures
        net_inflow(calls, contract, token) == (if calls.len() > 0 {
            inflow(calls[0], contract, token)
        } else {
            0
        }) + (if calls.len() > 1 {
            inflow(calls[1], contract, token)
        } else {
            0
        }) + (if calls.len() > 2 {
            inflow(calls[2], contract, token)
        } else {
            0
        }) + (if calls.len() > 3 {
            inflow(calls[3], contract, token)
        } else {
            0
        }) + (if calls.len() > 4 {
            inflow(calls[4], contract, token)
        } else {
            0
        }),
    decreases calls.len(),
{
    if calls.len() > 0 {
        lemma_inflow_unfold(calls.drop_last(), contract, token);
    }
}

proof fn lemma_bonded_insert(
    oracles: Map<BytesN<32>, OracleProvider>,
    key: BytesN<32>,
    oracle: OracleProvider,
    token: Address,
)
    requires
        oracles.dom().finite(),
    ensures
        total_bonded(oracles.insert(key, oracle), token) == total_bonded(oracles, token) + bonded(
            oracle,
            token,
        ) - if oracles.contains_key(key) {
            bonded(oracles[key], token)
        } else {
            0
        },
{
    let amount = |oracle: OracleProvider| bonded(oracle, token);
    assert(oracles.map_values(amount).dom() =~= oracles.dom());
    lemma_total_insert(oracles.map_values(amount), key, bonded(oracle, token));
    assert(oracles.insert(key, oracle).map_values(amount) =~= oracles.map_values(amount).insert(
        key,
        bonded(oracle, token),
    ));
}

proof fn lemma_escrowed_insert(
    escrows: Map<u64, CallEscrow>,
    call_id: u64,
    escrow: CallEscrow,
    token: Address,
)
    requires
        escrows.dom().finite(),
    ensures
        total_escrowed(escrows.insert(call_id, escrow), token) == total_escrowed(escrows, token)
            + escrowed(escrow, token) - if escrows.contains_key(call_id) {
            escrowed(escrows[call_id], token)
        } else {
            0
        },
{
    let amount = |escrow: CallEscrow| escrowed(escrow, token);
    assert(escrows.map_values(amount).dom() =~= escrows.dom());
    lemma_total_insert(escrows.map_values(amount), call_id, escrowed(escrow, token));
    assert(escrows.insert(call_id, escrow).map_values(amount) =~= escrows.map_values(amount).insert(
        call_id,
        escrowed(escrow, token),
    ));
}

/// Whether what a granted request takes in comes from another party.
pub open spec fn paid_by_outsider(ledger: LedgerView, request: Request) -> bool {
    ledger.error(request) is None ==> request.payer() != Some(ledger.contract)
}

/// Whether a granted request is only between the contract and other parties: the
/// contract is neither the one that pays in nor one that is paid out.
pub open spec fn with_outsiders(ledger: LedgerView, request: Request) -> bool {
    ledger.error(request) is None ==> {
        &&& request.payer() != Some(ledger.contract)
        &&& match request {
            Request::WithdrawBond { provider, .. } => provider != ledger.contract,
            Request::ResolveCall { call_id, provider, resolution } => {
                &&& ledger.storage.config->0.admin != ledger.contract
                &&& match resolution {
                    Resolution::Accurate => provider != ledger.contract,
                    Resolution::Inaccurate => ledger.storage.escrows[call_id].caller
                        != ledger.contract,
                }
            },
            _ => true,
        }
    }
}

/// Whether a granted top-up is recorded in full: the stake does not pass the
/// largest amount that can be recorded.
pub open spec fn recorded_in_full(ledger: LedgerView, request: Request) -> bool {
    ledger.error(request) is None ==> (request matches Request::IncreaseBond {
        pubkey,
        amount,
        ..
    } ==> ledger.storage.oracles[pubkey].staked_amount + amount <= i128::MAX)
}

proof fn lemma_accurate_surplus(
    ledger: LedgerView,
    call_id: u64,
    provider: Address,
    token: Address,
)
    requires
        ledger.storage.valid(),
        ledger.resolve_call_error(call_id, provider, Resolution::Accurate) is None,
    ensures
        ledger.resolved_accurate(call_id, provider).surplus(token) >= ledger.surplus(token),
        with_outsiders(
            ledger,
            Request::ResolveCall { call_id, provider, resolution: Resolution::Accurate },
        ) ==> ledger.resolved_accurate(call_id, provider).surplus(token) == ledger.surplus(token),
{
    let config = ledger.storage.config->0;
    let escrow = ledger.storage.escrows[call_id];
    let oracle = ledger.bound_oracle(call_id);
    let after = ledger.resolved_accurate(call_id, provider);
    let (provider_cut, admin_cut) = bounty_split(escrow, oracle);
    lemma_share_bounds(escrow.amount, oracle.fee_bps);
    let opening = seq![
        HostCall::RequireAuth(provider),
        HostCall::SetCallEscrow(settled(escrow)),
    ];
    let to_provider = payment(escrow.token, ledger.contract, oracle.address, provider_cut);
    let to_admin = payment(escrow.token, ledger.contract, config.admin, admin_cut);
    let closing = after.calls.skip(
        (ledger.calls + opening + to_provider + to_admin).len() as int,
    );
    assert(after.calls =~= ledger.calls + opening + to_provider + to_admin + closing);
    let c = ledger.contract;
    lemma_inflow_append(ledger.calls, opening, c, token);
    lemma_inflow_append(ledger.calls + opening, to_provider, c, token);
    lemma_inflow_append(ledger.calls + opening + to_provider, to_admin, c, token);
    lemma_inflow_append(ledger.calls + opening + to_provider + to_admin, closing, c, token);
    lemma_inflow_unfold(opening, c, token);
    lemma_inflow_unfold(to_provider, c, token);
    lemma_inflow_unfold(to_admin, c, token);
    lemma_inflow_unfold(closing, c, token);
    lemma_bonded_insert(
        ledger.storage.oracles,
        oracle.pubkey,
        after.storage.oracles[oracle.pubkey],
        token,
    );
    lemma_escrowed_insert(ledger.storage.escrows, call_id, settled(escrow), token);
}

proof fn lemma_inaccurate_surplus(
    ledger: LedgerView,
    call_id: u64,
    provider: Address,
    token: Address,
)
    requires
        ledger.storage.valid(),
        ledger.resolve_call_error(call_id, provider, Resolution::Inaccurate) is None,
    ensures
        ledger.resolved_inaccurate(call_id, provider).surplus(token) >= ledger.surplus(token),
        with_outsiders(
            ledger,
            Request::ResolveCall { call_id, provider, resolution: Resolution::Inaccurate },
        ) ==> ledger.resolved_inaccurate(call_id, provider).surplus(token) == ledger.surplus(
            token,
        ),
{
    let config = ledger.storage.config->0;
    let escrow = ledger.storage.escrows[call_id];
    let oracle = ledger.bound_oracle(call_id);
    let after = ledger.resolved_inaccurate(call_id, provider);
    let slashed = slash_amount(config, oracle);
    lemma_share_bounds(oracle.staked_amount, config.slash_penalty_bps);
    lemma_share_bounds(slashed, caller_share_bps(config));
    let opening = seq![
        HostCall::RequireAuth(provider),
        HostCall::SetCallEscrow(settled(escrow)),
    ];
    let refund = payment(escrow.token, ledger.contract, escrow.caller, escrow.amount);
    let closing = ledger.slash_calls(call_id);
    let c = ledger.contract;
    lemma_inflow_append(ledger.calls, opening, c, token);
    lemma_inflow_append(ledger.calls + opening, refund, c, token);
    lemma_inflow_append(ledger.calls + opening + refund, closing, c, token);
    lemma_inflow_unfold(opening, c, token);
    lemma_inflow_unfold(refund, c, token);
    lemma_inflow_unfold(closing, c, token);
    lemma_bonded_insert(
        ledger.storage.oracles,
        oracle.pubkey,
        disputed(config, oracle),
        token,
    );
    lemma_escrowed_insert(ledger.storage.escrows, call_id, settled(escrow), token);
}

/// No request makes the contract owe more than it takes in: as long as tokens
/// come from another party, what the contract holds of a token beyond what it
/// owes never shrinks. Between the contract and other parties it stays the same,
/// so the contract keeps nothing for itself.
pub proof fn custody_covers_obligations(ledger: LedgerView, request: Request, token: Address)
    requires
        ledger.storage.valid(),
        ledger.feasible(request),
        paid_by_outsider(ledger, request),
    ensures
        ledger.submit(request).surplus(token) >= ledger.surplus(token),
        with_outsiders(ledger, request) && recorded_in_full(ledger, request) ==> ledger.submit(
            request,
        ).surplus(token) == ledger.surplus(token),
{
    let after = ledger.submit(request);
    let c = ledger.contract;
    if ledger.error(request) is Some {
        assert(after.calls =~= ledger.calls || after.calls.drop_last() =~= ledger.calls);
    } else {
        match request {
            Request::ResolveCall { call_id, provider, resolution } => {
                match resolution {
                    Resolution::Accurate => {
                        lemma_accurate_surplus(ledger, call_id, provider, token);
                    },
                    Resolution::Inaccurate => {
                        lemma_inaccurate_surplus(ledger, call_id, provider, token);
                    },
                }
            },
            _ => {
                let more = after.calls_since(ledger);
                assert(after.calls =~= ledger.calls + more);
                lemma_inflow_append(ledger.calls, more, c, token);
                lemma_inflow_unfold(more, c, token);
                match request {
                    Request::RegisterOracle { pubkey, .. }
                    | Request::DeregisterOracle { pubkey, .. }
                    | Request::IncreaseBond { pubkey, .. }
                    | Request::WithdrawBond { pubkey, .. } => {
                        lemma_bonded_insert(
                            ledger.storage.oracles,
                            pubkey,
                            after.storage.oracles[pubkey],
                            token,
                        );
                    },
                    Request::CreateCallEscrow { call_id, .. } => {
                        lemma_escrowed_insert(
                            ledger.storage.escrows,
                            call_id,
                            after.storage.escrows[call_id],
                            token,
                        );
                    },
                    _ => {},
                }
            },
        }
    }
}

/// Whether what a history takes in comes from other parties throughout.
pub open spec fn all_paid_by_outsiders(ledger: LedgerView, history: Seq<Request>) -> bool
    decreases history.len(),
{
    history.len() == 0 || {
        &&& all_paid_by_outsiders(ledger, history.drop_last())
        &&& paid_by_outsider(ledger.run(history.drop_last()), history.last())
    }
}

/// Whether a history is only between the contract and other parties, and records
/// every top-up in full.
pub open spec fn all_balanced(ledger: LedgerView, history: Seq<Request>) -> bool
    decreases history.len(),
{
    history.len() == 0 || {
        &&& all_balanced(ledger, history.drop_last())
        &&& with_outsiders(ledger.run(history.drop_last()), history.last())
        &&& recorded_in_full(ledger.run(history.drop_last()), history.last())
    }
}

/// Whatever is requested of it, in whatever order, the contract holds at least
/// what it owes of every token, counting from a point at which it did.
pub proof fn history_keeps_custody(ledger: LedgerView, history: Seq<Request>, token: Address)
    requires
        ledger.storage.valid(),
        ledger.all_feasible(history),
        all_paid_by_outsiders(ledger, history),
        ledger.custody(token) >= owed(ledger.storage, token),
    ensures
        ledger.run(history).custody(token) >= owed(ledger.run(history).storage, token),
    decreases history.len(),
{
    if history.len() > 0 {
        let front = history.drop_last();
        history_keeps_custody(ledger, front, token);
        history_preserves_validity(ledger, front);
        custody_covers_obligations(ledger.run(front), history.last(), token);
    }
}

/// Between the contract and other parties, what the contract holds of a token
/// beyond what it owes is the same after every history as before it.
pub proof fn history_balances_custody(ledger: LedgerView, history: Seq<Request>, token: Address)
    requires
        ledger.storage.valid(),
        ledger.all_feasible(history),
        all_balanced(ledger, history),
    ensures
        ledger.run(history).surplus(token) == ledger.surplus(token),
    decreases history.len(),
{
    if history.len() > 0 {
        let front = history.drop_last();
        history_balances_custody(ledger, front, token);
        history_preserves_validity(ledger, front);
        custody_covers_obligations(ledger.run(front), history.last(), token);
    }
}

/// A contract that nothing was written to owes nothing.
pub proof fn blank_storage_owes_nothing(token: Address)
    ensures
        owed(StorageView::empty(), token) == 0,
{
    let storage = StorageView::empty();
    assert(storage.oracles.map_values(|oracle: OracleProvider| bonded(oracle, token)).dom()
        =~= Set::empty());
    assert(storage.escrows.map_values(|escrow: CallEscrow| escrowed(escrow, token)).dom()
        =~= Set::empty());
}

/// A contract that started blank holds at least what it owes of every token,
/// whatever has been requested of it by other parties.
pub proof fn fresh_contract_stays_solvent(
    ledger: LedgerView,
    history: Seq<Request>,
    token: Address,
)
    requires
        ledger.storage == StorageView::empty(),
        ledger.calls.len() == 0,
        ledger.all_feasible(history),
        all_paid_by_outsiders(ledger, history),
    ensures
        ledger.run(history).custody(token) >= owed(ledger.run(history).storage, token),
{
    blank_storage_owes_nothing(token);
    blank_storage_is_valid();
    history_keeps_custody(ledger, history, token);
}

/// A contract that started blank holds exactly what it owes of every token, as
/// long as it deals with other parties and records every top-up in full.
pub proof fn fresh_contract_stays_balanced(
    ledger: LedgerView,
    history: Seq<Request>,
    token: Address,
)
    requires
        ledger.storage == StorageView::empty(),
        ledger.calls.len() == 0,
        ledger.all_feasible(history),
        all_balanced(ledger, history),
    ensures
        ledger.run(history).custody(token) == owed(ledger.run(history).storage, token),
{
    blank_storage_owes_nothing(token);
    blank_storage_is_valid();
    history_balances_custody(ledger, history, token);
}

/// What a request puts into a provider's bond.
pub open spec fn put_in(ledger: LedgerView, request: Request, pubkey: BytesN<32>) -> int {
    if ledger.error(request) is Some {
        0
    } else {
        match request {
            Request::RegisterOracle { pubkey: key, initial_bond, .. } => if key == pubkey {
                initial_bond as int
            } else {
                0
            },
            Request::IncreaseBond { pubkey: key, amount, .. } => if key == pubkey {
                amount as int
            } else {
                0
            },
            _ => 0,
        }
    }
}

/// What a request pays a provider back of their bond.
pub open spec fn taken_out(ledger: LedgerView, request: Request, pubkey: BytesN<32>) -> int {
    if ledger.error(request) is Some {
        0
    } else {
        match request {
            Request::WithdrawBond { pubkey: key, .. } => if key == pubkey {
                ledger.storage.oracles[pubkey].staked_amount as int
            } else {
                0
            },
            _ => 0,
        }
    }
}

pub open spec fn total_put_in(
    ledger: LedgerView,
    history: Seq<Request>,
    pubkey: BytesN<32>,
) -> int
    decreases history.len(),
{
    if history.len() == 0 {
        0
    } else {
        total_put_in(ledger, history.drop_last(), pubkey) + put_in(
            ledger.run(history.drop_last()),
            history.last(),
            pubkey,
        )
    }
}

pub open spec fn total_taken_out(
    ledger: LedgerView,
    history: Seq<Request>,
    pubkey: BytesN<32>,
) -> int
    decreases history.len(),
{
    if history.len() == 0 {
        0
    } else {
        total_taken_out(ledger, history.drop_last(), pubkey) + taken_out(
            ledger.run(history.drop_last()),
            history.last(),
            pubkey,
        )
    }
}

/// What a provider has at stake or has been slashed of.
pub open spec fn staked_or_slashed(storage: StorageView, pubkey: BytesN<32>) -> int {
    if storage.oracles.contains_key(pubkey) {
        storage.oracles[pubkey].staked_amount + storage.oracles[pubkey].total_slashed
    } else {
        0
    }
}

/// Whether a granted top-up or slash of a provider's bond is recorded in full:
/// neither the stake nor the total slashed passes the largest amount.
pub open spec fn bond_recorded_in_full(
    ledger: LedgerView,
    request: Request,
    pubkey: BytesN<32>,
) -> bool {
    let oracle = ledger.storage.oracles[pubkey];
    ledger.error(request) is None ==> match request {
        Request::IncreaseBond { pubkey: key, amount, .. } => key == pubkey
            ==> oracle.staked_amount + amount <= i128::MAX,
        Request::ResolveCall { call_id, resolution, .. } => resolution == Resolution::Inaccurate
            && ledger.storage.call_oracles[call_id] == pubkey ==> oracle.total_slashed
            + slash_amount(ledger.storage.config->0, oracle) <= i128::MAX,
        _ => true,
    }
}

pub open spec fn bond_always_recorded_in_full(
    ledger: LedgerView,
    history: Seq<Request>,
    pubkey: BytesN<32>,
) -> bool
    decreases history.len(),
{
    history.len() == 0 || {
        &&& bond_always_recorded_in_full(ledger, history.drop_last(), pubkey)
        &&& bond_recorded_in_full(ledger.run(history.drop_last()), history.last(), pubkey)
    }
}

/// A request moves what a provider has at stake or has been slashed of by what it
/// puts in, less what it pays back.
pub proof fn bond_is_accounted_for(ledger: LedgerView, request: Request, pubkey: BytesN<32>)
    requires
        ledger.storage.valid(),
        bond_recorded_in_full(ledger, request, pubkey),
    ensures
        staked_or_slashed(ledger.submit(request).storage, pubkey) == staked_or_slashed(
            ledger.storage,
            pubkey,
        ) + put_in(ledger, request, pubkey) - taken_out(ledger, request, pubkey),
{
    if ledger.error(request) is None {
        if let Request::ResolveCall { call_id, .. } = request {
            lemma_share_bounds(
                ledger.bound_oracle(call_id).staked_amount,
                ledger.storage.config->0.slash_penalty_bps,
            );
        }
    }
}

/// A bond is accounted for through every history of a contract that started
/// blank: what a provider has at stake and what they have been slashed of is all
/// that was put in, less what was paid back to them.
pub proof fn history_accounts_for_bond(
    ledger: LedgerView,
    history: Seq<Request>,
    pubkey: BytesN<32>,
)
    requires
        ledger.storage == StorageView::empty(),
        ledger.all_feasible(history),
        bond_always_recorded_in_full(ledger, history, pubkey),
    ensures
        staked_or_slashed(ledger.run(history).storage, pubkey) == total_put_in(
            ledger,
            history,
            pubkey,
        ) - total_taken_out(ledger, history, pubkey),
    decreases history.len(),
{
    if history.len() > 0 {
        let front = history.drop_last();
        history_accounts_for_bond(ledger, front, pubkey);
        blank_storage_is_valid();
        history_preserves_validity(ledger, front);
        bond_is_accounted_for(ledger.run(front), history.last(), pubkey);
    }
}

/// Whether a history asks for a provider's bond to be paid back.
pub open spec fn asks_for_withdrawal(history: Seq<Request>, pubkey: BytesN<32>) -> bool {
    exists|i: int|
        0 <= i < history.len() && (#[trigger] history[i] matches Request::WithdrawBond {
            pubkey: key,
            ..
        } && key == pubkey)
}

/// Before a withdrawal, what a provider has at stake and what they have been
/// slashed of is all that was put in.
pub proof fn bond_before_withdrawal(
    ledger: LedgerView,
    history: Seq<Request>,
    pubkey: BytesN<32>,
)
    requires
        ledger.storage == StorageView::empty(),
        ledger.all_feasible(history),
        bond_always_recorded_in_full(ledger, history, pubkey),
        !asks_for_withdrawal(history, pubkey),
    ensures
        staked_or_slashed(ledger.run(history).storage, pubkey) == total_put_in(
            ledger,
            history,
            pubkey,
        ),
{
    history_accounts_for_bond(ledger, history, pubkey);
    lemma_nothing_taken_out(ledger, history, pubkey);
}

proof fn lemma_nothing_taken_out(ledger: LedgerView, history: Seq<Request>, pubkey: BytesN<32>)
    requires
        !asks_for_withdrawal(history, pubkey),
    ensures
        total_taken_out(ledger, history, pubkey) == 0,
    decreases history.len(),
{
    if history.len() > 0 {
        let front = history.drop_last();
        assert(history.last() == history[history.len() - 1]);
        assert forall|i: int| 0 <= i < front.len() implies !(
        #[trigger] front[i] matches Request::WithdrawBond { pubkey: key, .. } && key == pubkey) by {
            assert(front[i] == history[i]);
        }
        lemma_nothing_taken_out(ledger, front, pubkey);
    }
}

} // verus!
