//! What each request comes to, said of the records, the tokens and the parties
//! themselves: when it is granted, what it writes down, who is asked, and who
//! pays whom.
use vstd::prelude::*;

use crate::amounts::{lemma_share_bounds, share};
use crate::errors::OracleMarketplaceError;
use crate::events::Event;
use crate::host::{payment, transfer_of, HostCall, TokenInterface};
use crate::laws::lemma_active_among_all;
use crate::ledger::LedgerView;
use crate::model::caller_share_bps;
use crate::requests::Request;
use crate::storage::{lemma_without_push, without, StorageView};
use crate::types::{
    Address, BytesN, CallEscrow, MarketplaceConfig, OracleProvider, Resolution,
};
use crate::validity::{blank_storage_is_valid, history_preserves_validity};

verus! {

/// Whether a host call moves `amount` of `token` from one party to another. The
/// token whose address is the contract with an all-zero hash goes through the
/// Stellar Asset Contract, every other one through the token interface.
pub open spec fn sends(
    call: HostCall,
    token: Address,
    from: Address,
    to: Address,
    amount: int,
) -> bool {
    &&& call matches HostCall::Transfer(transfer)
    &&& transfer.token == token
    &&& transfer.from == from
    &&& transfer.to == to
    &&& transfer.amount == amount
    &&& match transfer.interface {
        TokenInterface::StellarAsset => token matches Address::Contract(hash) && forall|i: int|
            0 <= i < 32 ==> #[trigger] hash.array[i] == 0,
        TokenInterface::Token => token matches Address::Contract(hash) ==> exists|i: int|
            0 <= i < 32 && #[trigger] hash.array[i] != 0,
    }
}

/// Whether the ledger has only gone on from an earlier one: the host, the
/// contract and the time are the same, and every earlier host call is kept.
pub open spec fn goes_on(before: LedgerView, after: LedgerView) -> bool {
    &&& after.host == before.host
    &&& after.contract == before.contract
    &&& after.timestamp == before.timestamp
    &&& before.calls.len() <= after.calls.len()
    &&& after.calls.take(before.calls.len() as int) == before.calls
}

/// A share is the part of an amount rounded towards zero: it falls short of the
/// part by less than one unit, on either side of zero. Up to the whole it always
/// fits in an amount; beyond, it stops at the outermost one.
pub proof fn share_is_rounded_towards_zero(amount: i128, bps: u32)
    ensures
        ({
            let part = share(amount, bps);
            let fits = i128::MIN * 10_000 <= amount * bps <= i128::MAX * 10_000;
            &&& bps <= 10_000 ==> fits
            &&& fits && amount >= 0 ==> part * 10_000 <= amount * bps < part * 10_000 + 10_000
            &&& fits && amount <= 0 ==> part * 10_000 - 10_000 < amount * bps <= part * 10_000
            &&& amount * bps > i128::MAX * 10_000 ==> part == i128::MAX
            &&& amount * bps < i128::MIN * 10_000 ==> part == i128::MIN
        }),
{
    assert(amount >= 0 ==> amount * bps >= 0) by (nonlinear_arith);
    assert(amount <= 0 ==> amount * bps <= 0) by (nonlinear_arith);
    assert(bps <= 10_000 && amount >= 0 ==> amount * bps <= amount * 10_000) by (nonlinear_arith);
    assert(bps <= 10_000 && amount <= 0 ==> amount * bps >= amount * 10_000) by (nonlinear_arith);
}

/// A transfer moves what it is asked to move, through the interface of its token,
/// and a payment is one such transfer where there is anything to pay.
pub proof fn transfer_moves_the_amount(token: Address, from: Address, to: Address, amount: i128)
    ensures
        sends(transfer_of(token, from, to, amount), token, from, to, amount as int),
        amount > 0 ==> payment(token, from, to, amount).len() == 1 && sends(
            payment(token, from, to, amount)[0],
            token,
            from,
            to,
            amount as int,
        ),
        amount <= 0 ==> payment(token, from, to, amount).len() == 0,
{
}

/// Setup is granted once, for shares of at most the whole.
pub proof fn setup_is_granted_when(ledger: LedgerView, config: MarketplaceConfig)
    ensures
        ({
            let error = ledger.error(Request::Initialize { config });
            let fresh = ledger.storage.config is None;
            let shares = config.default_fee_bps <= 10_000 && config.slash_penalty_bps <= 10_000;
            &&& error == Some(OracleMarketplaceError::AlreadyInitialized) <==> !fresh
            &&& error == Some(OracleMarketplaceError::InvalidFee) <==> fresh && !shares
            &&& error is None <==> fresh && shares
        }),
{
}

/// Setup asks the admin and records the settings, and nothing else.
pub proof fn setup_records_the_settings(ledger: LedgerView, config: MarketplaceConfig)
    requires
        ledger.error(Request::Initialize { config }) is None,
    ensures
        ({
            let after = ledger.submit(Request::Initialize { config });
            let calls = after.calls.skip(ledger.calls.len() as int);
            &&& goes_on(ledger, after)
            &&& after.storage.config == Some(config)
            &&& after.storage == StorageView { config: after.storage.config, ..ledger.storage }
            &&& calls.len() == 2
            &&& calls[0] == HostCall::RequireAuth(config.admin)
            &&& calls[1] == HostCall::SetConfig(config)
        }),
{
    let after = ledger.submit(Request::Initialize { config });
    assert(after.calls.take(ledger.calls.len() as int) =~= ledger.calls);
}

/// A registration is granted for a new key, a fee of at most the whole, a
/// positive floor and a bond that reaches it.
pub proof fn registration_is_granted_when(
    ledger: LedgerView,
    provider: Address,
    pubkey: BytesN<32>,
    fee_bps: u32,
    min_stake: i128,
    initial_bond: i128,
    bond_token: Address,
)
    ensures
        ({
            let error = ledger.error(
                Request::RegisterOracle {
                    provider,
                    pubkey,
                    fee_bps,
                    min_stake,
                    initial_bond,
                    bond_token,
                },
            );
            let ready = ledger.storage.config is Some;
            let new = ready && !ledger.storage.oracles.contains_key(pubkey);
            &&& error == Some(OracleMarketplaceError::NotInitialized) <==> !ready
            &&& error == Some(OracleMarketplaceError::OracleAlreadyRegistered) <==> ready && !new
            &&& error == Some(OracleMarketplaceError::InvalidFee) <==> new && fee_bps > 10_000
            &&& error == Some(OracleMarketplaceError::InvalidBond) <==> new && fee_bps <= 10_000
                && min_stake <= 0
            &&& error == Some(OracleMarketplaceError::InsufficientStake) <==> new && fee_bps
                <= 10_000 && 0 < min_stake && initial_bond < min_stake
            &&& error is None <==> new && fee_bps <= 10_000 && 0 < min_stake <= initial_bond
        }),
{
}

/// A registration takes the whole bond from the provider, records them as active
/// with a blank track record, and puts them at the end of the offer.
pub proof fn registration_locks_the_bond(
    ledger: LedgerView,
    provider: Address,
    pubkey: BytesN<32>,
    fee_bps: u32,
    min_stake: i128,
    initial_bond: i128,
    bond_token: Address,
)
    requires
        ledger.error(
            Request::RegisterOracle {
                provider,
                pubkey,
                fee_bps,
                min_stake,
                initial_bond,
                bond_token,
            },
        ) is None,
    ensures
        ({
            let after = ledger.submit(
                Request::RegisterOracle {
                    provider,
                    pubkey,
                    fee_bps,
                    min_stake,
                    initial_bond,
                    bond_token,
                },
            );
            let calls = after.calls.skip(ledger.calls.len() as int);
            let oracle = after.storage.oracles[pubkey];
            &&& goes_on(ledger, after)
            &&& oracle.pubkey == pubkey
            &&& oracle.address == provider
            &&& oracle.fee_bps == fee_bps
            &&& oracle.min_stake == min_stake
            &&& oracle.staked_amount == initial_bond
            &&& oracle.bond_token == bond_token
            &&& oracle.total_resolved == 0 && oracle.total_disputes == 0 && oracle.total_slashed
                == 0
            &&& oracle.is_active
            &&& oracle.registered_at == ledger.timestamp
            &&& oracle.deregister_after is None
            &&& after.storage.oracles == ledger.storage.oracles.insert(pubkey, oracle)
            &&& after.storage.oracle_list == ledger.storage.oracle_list + seq![pubkey]
            &&& after.storage == StorageView {
                oracles: after.storage.oracles,
                oracle_list: after.storage.oracle_list,
                ..ledger.storage
            }
            &&& calls.len() == 5
            &&& calls[0] == HostCall::RequireAuth(provider)
            &&& sends(calls[1], bond_token, provider, ledger.contract, initial_bond as int)
            &&& calls[2] == HostCall::SetOracle { pubkey, oracle }
            &&& calls[3] == HostCall::AddToOracleList(pubkey)
            &&& calls[4] == HostCall::Publish(
                Event::OracleRegistered { provider, pubkey, fee_bps },
            )
        }),
{
    let after = ledger.submit(
        Request::RegisterOracle {
            provider,
            pubkey,
            fee_bps,
            min_stake,
            initial_bond,
            bond_token,
        },
    );
    assert(after.calls.take(ledger.calls.len() as int) =~= ledger.calls);
    assert(after.storage.oracle_list =~= ledger.storage.oracle_list + seq![pubkey]);
}

/// A deregistration is granted to the provider while they are active. While a
/// cooldown runs it is refused for that reason.
pub proof fn deregistration_is_granted_when(
    ledger: LedgerView,
    provider: Address,
    pubkey: BytesN<32>,
)
    ensures
        ({
            let error = ledger.error(Request::DeregisterOracle { provider, pubkey });
            let oracle = ledger.storage.oracles[pubkey];
            let ready = ledger.storage.config is Some;
            let known = ready && ledger.storage.oracles.contains_key(pubkey);
            let waiting = oracle.deregister_after matches Some(end) && ledger.timestamp < end;
            let own = oracle.address == provider;
            &&& error == Some(OracleMarketplaceError::NotInitialized) <==> !ready
            &&& error == Some(OracleMarketplaceError::OracleNotFound) <==> ready && !known
            &&& error == Some(OracleMarketplaceError::CooldownActive) <==> known && waiting && (
            oracle.is_active ==> own)
            &&& error == Some(OracleMarketplaceError::OracleNotActive) <==> known && !waiting
                && !oracle.is_active
            &&& error == Some(OracleMarketplaceError::Unauthorized) <==> known && oracle.is_active
                && !own
            &&& error is None <==> known && oracle.is_active && own && !waiting
        }),
{
}

proof fn lemma_without_once(list: Seq<BytesN<32>>, i: int)
    requires
        list.no_duplicates(),
        0 <= i < list.len(),
    ensures
        without(list, list[i]) == list.take(i) + list.skip(i + 1),
    decreases list.len(),
{
    let front = list.drop_last();
    assert(list =~= front.push(list.last()));
    lemma_without_push(front, list.last(), list[i]);
    if i == list.len() - 1 {
        lemma_without_absent(front, list[i]);
        assert(list.take(i) + list.skip(i + 1) =~= front);
    } else {
        assert(front[i] == list[i]);
        lemma_without_once(front, i);
        assert(list.take(i) + list.skip(i + 1) =~= (front.take(i) + front.skip(i + 1)).push(
            list.last(),
        ));
    }
}

proof fn lemma_without_absent(list: Seq<BytesN<32>>, key: BytesN<32>)
    requires
        forall|i: int| 0 <= i < list.len() ==> list[i] != key,
    ensures
        without(list, key) == list,
    decreases list.len(),
{
    reveal(Seq::filter);
    if list.len() > 0 {
        let front = list.drop_last();
        assert(list =~= front.push(list.last()));
        lemma_without_push(front, list.last(), key);
        assert forall|i: int| 0 <= i < front.len() implies front[i] != key by {
            assert(front[i] == list[i]);
        }
        lemma_without_absent(front, key);
    }
    assert(without(list, key) =~= list);
}

/// A deregistration takes the provider off the offer and ends the cooldown
/// `cooldown_secs` after the time of the request. No tokens move, and the bond
/// stays.
pub proof fn deregistration_starts_the_cooldown(
    ledger: LedgerView,
    provider: Address,
    pubkey: BytesN<32>,
    place: int,
)
    requires
        ledger.storage.valid(),
        ledger.error(Request::DeregisterOracle { provider, pubkey }) is None,
        ledger.timestamp + ledger.storage.config->0.cooldown_secs <= u64::MAX,
        0 <= place < ledger.storage.oracle_list.len(),
        ledger.storage.oracle_list[place] == pubkey,
    ensures
        ({
            let after = ledger.submit(Request::DeregisterOracle { provider, pubkey });
            let calls = after.calls.skip(ledger.calls.len() as int);
            let before = ledger.storage.oracles[pubkey];
            let oracle = after.storage.oracles[pubkey];
            let list = ledger.storage.oracle_list;
            &&& goes_on(ledger, after)
            &&& !oracle.is_active
            &&& oracle.deregister_after matches Some(end) && end == ledger.timestamp
                + ledger.storage.config->0.cooldown_secs
            &&& oracle == OracleProvider {
                is_active: oracle.is_active,
                deregister_after: oracle.deregister_after,
                ..before
            }
            &&& after.storage.oracles == ledger.storage.oracles.insert(pubkey, oracle)
            &&& after.storage.oracle_list == list.take(place) + list.skip(place + 1)
            &&& after.storage == StorageView {
                oracles: after.storage.oracles,
                oracle_list: after.storage.oracle_list,
                ..ledger.storage
            }
            &&& calls.len() == 4
            &&& calls[0] == HostCall::RequireAuth(provider)
            &&& calls[1] == HostCall::SetOracle { pubkey, oracle }
            &&& calls[2] == HostCall::RemoveFromOracleList(pubkey)
            &&& calls[3] == HostCall::Publish(Event::OracleDeregistered { provider, pubkey })
        }),
{
    let after = ledger.submit(Request::DeregisterOracle { provider, pubkey });
    lemma_without_once(ledger.storage.oracle_list, place);
    assert(after.calls.take(ledger.calls.len() as int) =~= ledger.calls);
}

/// A top-up is granted to anybody, for a positive amount and a known provider.
pub proof fn top_up_is_granted_when(
    ledger: LedgerView,
    pubkey: BytesN<32>,
    amount: i128,
    funder: Address,
)
    ensures
        ({
            let error = ledger.error(Request::IncreaseBond { pubkey, amount, funder });
            let known = ledger.storage.oracles.contains_key(pubkey);
            &&& error == Some(OracleMarketplaceError::InvalidBond) <==> amount <= 0
            &&& error == Some(OracleMarketplaceError::OracleNotFound) <==> amount > 0 && !known
            &&& error is None <==> amount > 0 && known
        }),
{
}

/// A top-up is paid by the funder, who is the only one asked, and adds what they
/// pay to the stake.
pub proof fn top_up_is_paid_by_the_funder(
    ledger: LedgerView,
    pubkey: BytesN<32>,
    amount: i128,
    funder: Address,
)
    requires
        ledger.error(Request::IncreaseBond { pubkey, amount, funder }) is None,
    ensures
        ({
            let after = ledger.submit(Request::IncreaseBond { pubkey, amount, funder });
            let calls = after.calls.skip(ledger.calls.len() as int);
            let before = ledger.storage.oracles[pubkey];
            let oracle = after.storage.oracles[pubkey];
            &&& goes_on(ledger, after)
            &&& before.staked_amount + amount <= i128::MAX ==> oracle.staked_amount
                == before.staked_amount + amount
            &&& before.staked_amount + amount > i128::MAX ==> oracle.staked_amount == i128::MAX
            &&& oracle == OracleProvider { staked_amount: oracle.staked_amount, ..before }
            &&& after.storage.oracles == ledger.storage.oracles.insert(pubkey, oracle)
            &&& after.storage == StorageView { oracles: after.storage.oracles, ..ledger.storage }
            &&& calls.len() == 4
            &&& calls[0] == HostCall::RequireAuth(funder)
            &&& sends(calls[1], before.bond_token, funder, ledger.contract, amount as int)
            &&& calls[2] == HostCall::SetOracle { pubkey, oracle }
            &&& calls[3] == HostCall::Publish(
                Event::BondIncreased { pubkey, amount, total_stake: oracle.staked_amount },
            )
        }),
{
    let after = ledger.submit(Request::IncreaseBond { pubkey, amount, funder });
    assert(after.calls.take(ledger.calls.len() as int) =~= ledger.calls);
}

/// A withdrawal is granted to the provider once they are inactive, the cooldown
/// has ended, and there is something to withdraw.
pub proof fn withdrawal_is_granted_when(
    ledger: LedgerView,
    provider: Address,
    pubkey: BytesN<32>,
)
    ensures
        ({
            let error = ledger.error(Request::WithdrawBond { provider, pubkey });
            let oracle = ledger.storage.oracles[pubkey];
            let known = ledger.storage.oracles.contains_key(pubkey);
            let own = known && oracle.address == provider;
            let waiting = oracle.deregister_after matches Some(end) && ledger.timestamp < end;
            let free = own && !oracle.is_active && !waiting;
            &&& error == Some(OracleMarketplaceError::OracleNotFound) <==> !known
            &&& error == Some(OracleMarketplaceError::Unauthorized) <==> known && !own
            &&& error == Some(OracleMarketplaceError::OracleNotActive) <==> own && oracle.is_active
            &&& error == Some(OracleMarketplaceError::CooldownActive) <==> own && !oracle.is_active
                && waiting
            &&& error == Some(OracleMarketplaceError::InsufficientStake) <==> free
                && oracle.staked_amount <= 0
            &&& error is None <==> free && oracle.staked_amount > 0
        }),
{
}

/// A withdrawal pays the whole stake back to the provider in the token of the
/// bond, and leaves none.
pub proof fn withdrawal_pays_the_stake_back(
    ledger: LedgerView,
    provider: Address,
    pubkey: BytesN<32>,
)
    requires
        ledger.error(Request::WithdrawBond { provider, pubkey }) is None,
    ensures
        ({
            let after = ledger.submit(Request::WithdrawBond { provider, pubkey });
            let calls = after.calls.skip(ledger.calls.len() as int);
            let before = ledger.storage.oracles[pubkey];
            let oracle = after.storage.oracles[pubkey];
            &&& goes_on(ledger, after)
            &&& oracle.staked_amount == 0
            &&& oracle == OracleProvider { staked_amount: oracle.staked_amount, ..before }
            &&& after.storage.oracles == ledger.storage.oracles.insert(pubkey, oracle)
            &&& after.storage == StorageView { oracles: after.storage.oracles, ..ledger.storage }
            &&& calls.len() == 4
            &&& calls[0] == HostCall::RequireAuth(provider)
            &&& calls[1] == HostCall::SetOracle { pubkey, oracle }
            &&& sends(
                calls[2],
                before.bond_token,
                ledger.contract,
                provider,
                before.staked_amount as int,
            )
            &&& calls[3] == HostCall::Publish(
                Event::BondWithdrawn { pubkey, provider, amount: before.staked_amount },
            )
        }),
{
    let after = ledger.submit(Request::WithdrawBond { provider, pubkey });
    assert(after.calls.take(ledger.calls.len() as int) =~= ledger.calls);
}

/// A provider can be selected for any call while they are active, and a bounty
/// can be escrowed for a call and an active provider as long as the call has no
/// escrow, whatever it is bound to.
pub proof fn call_is_taken_when(
    ledger: LedgerView,
    call_id: u64,
    caller: Address,
    pubkey: BytesN<32>,
    amount: i128,
    token: Address,
)
    ensures
        ({
            let known = ledger.storage.oracles.contains_key(pubkey);
            let active = known && ledger.storage.oracles[pubkey].is_active;
            let error = ledger.error(Request::SelectOracle { call_id, pubkey });
            &&& error == Some(OracleMarketplaceError::OracleNotFound) <==> !known
            &&& error == Some(OracleMarketplaceError::OracleNotActive) <==> known && !active
            &&& error is None <==> active
        }),
        ({
            let known = ledger.storage.oracles.contains_key(pubkey);
            let active = known && ledger.storage.oracles[pubkey].is_active;
            let error = ledger.error(
                Request::CreateCallEscrow { call_id, caller, pubkey, amount, token },
            );
            let open = amount > 0 && !ledger.storage.escrows.contains_key(call_id);
            &&& error == Some(OracleMarketplaceError::InvalidEscrowAmount) <==> amount <= 0
            &&& error == Some(OracleMarketplaceError::EscrowAlreadyExists) <==> amount > 0 && !open
            &&& error == Some(OracleMarketplaceError::OracleNotFound) <==> open && !known
            &&& error == Some(OracleMarketplaceError::OracleNotActive) <==> open && known && !active
            &&& error is None <==> open && active
        }),
{
}

/// A selection binds the call to the provider and asks nobody.
pub proof fn selection_only_binds_the_call(ledger: LedgerView, call_id: u64, pubkey: BytesN<32>)
    requires
        ledger.error(Request::SelectOracle { call_id, pubkey }) is None,
    ensures
        ({
            let after = ledger.submit(Request::SelectOracle { call_id, pubkey });
            let calls = after.calls.skip(ledger.calls.len() as int);
            &&& goes_on(ledger, after)
            &&& after.storage.call_oracles == ledger.storage.call_oracles.insert(call_id, pubkey)
            &&& after.storage == StorageView {
                call_oracles: after.storage.call_oracles,
                ..ledger.storage
            }
            &&& calls.len() == 2
            &&& calls[0] == HostCall::SetCallOracle { call_id, pubkey }
            &&& calls[1] == HostCall::Publish(Event::OracleSelectedForCall { call_id, pubkey })
        }),
{
    let after = ledger.submit(Request::SelectOracle { call_id, pubkey });
    assert(after.calls.take(ledger.calls.len() as int) =~= ledger.calls);
}

/// A call can be escrowed after an oracle has been selected for it.
pub proof fn selected_call_can_be_escrowed(
    ledger: LedgerView,
    call_id: u64,
    caller: Address,
    pubkey: BytesN<32>,
    amount: i128,
    token: Address,
)
    requires
        ledger.error(Request::SelectOracle { call_id, pubkey }) is None,
        !ledger.storage.escrows.contains_key(call_id),
        amount > 0,
    ensures
        ledger.submit(Request::SelectOracle { call_id, pubkey }).error(
            Request::CreateCallEscrow { call_id, caller, pubkey, amount, token },
        ) is None,
{
}

/// An escrow takes the whole bounty from the caller, who is the only one asked,
/// records it as open, and binds the call to the provider.
pub proof fn escrow_locks_the_bounty(
    ledger: LedgerView,
    call_id: u64,
    caller: Address,
    pubkey: BytesN<32>,
    amount: i128,
    token: Address,
)
    requires
        ledger.error(
            Request::CreateCallEscrow { call_id, caller, pubkey, amount, token },
        ) is None,
    ensures
        ({
            let after = ledger.submit(
                Request::CreateCallEscrow { call_id, caller, pubkey, amount, token },
            );
            let calls = after.calls.skip(ledger.calls.len() as int);
            let escrow = after.storage.escrows[call_id];
            &&& goes_on(ledger, after)
            &&& escrow.call_id == call_id
            &&& escrow.caller == caller
            &&& escrow.oracle == pubkey
            &&& escrow.token == token
            &&& escrow.amount == amount
            &&& escrow.created_at == ledger.timestamp
            &&& !escrow.resolved && !escrow.settled
            &&& after.storage.escrows == ledger.storage.escrows.insert(call_id, escrow)
            &&& after.storage.call_oracles == ledger.storage.call_oracles.insert(call_id, pubkey)
            &&& after.storage == StorageView {
                escrows: after.storage.escrows,
                call_oracles: after.storage.call_oracles,
                ..ledger.storage
            }
            &&& calls.len() == 5
            &&& calls[0] == HostCall::RequireAuth(caller)
            &&& calls[1] == HostCall::SetCallOracle { call_id, pubkey }
            &&& sends(calls[2], token, caller, ledger.contract, amount as int)
            &&& calls[3] == HostCall::SetCallEscrow(escrow)
            &&& calls[4] == HostCall::Publish(
                Event::EscrowCreated { call_id, caller, pubkey, amount },
            )
        }),
{
    let after = ledger.submit(
        Request::CreateCallEscrow { call_id, caller, pubkey, amount, token },
    );
    assert(after.calls.take(ledger.calls.len() as int) =~= ledger.calls);
}

/// A resolution is granted to the active provider that an open call is bound to.
/// An inaccurate one also needs a bond above the floor, of which the slash leaves
/// at least the floor.
pub proof fn resolution_is_granted_when(
    ledger: LedgerView,
    call_id: u64,
    provider: Address,
    resolution: Resolution,
)
    requires
        ledger.storage.valid(),
    ensures
        ({
            let error = ledger.error(Request::ResolveCall { call_id, provider, resolution });
            let config = ledger.storage.config->0;
            let ready = ledger.storage.config is Some;
            let known = ready && ledger.storage.escrows.contains_key(call_id);
            let open = known && !ledger.storage.escrows[call_id].resolved;
            let oracle = ledger.storage.oracles[ledger.storage.call_oracles[call_id]];
            let own = open && oracle.address == provider;
            let serving = own && oracle.is_active;
            let slashed = oracle.staked_amount * config.slash_penalty_bps / 10_000;
            let slashable = oracle.min_stake < oracle.staked_amount && oracle.min_stake
                <= oracle.staked_amount - slashed;
            &&& error == Some(OracleMarketplaceError::NotInitialized) <==> !ready
            &&& error == Some(OracleMarketplaceError::CallNotFound) <==> ready && !known
            &&& error == Some(OracleMarketplaceError::EscrowAlreadyResolved) <==> known && !open
            &&& error == Some(OracleMarketplaceError::NotSelectedOracle) <==> open && !own
            &&& error == Some(OracleMarketplaceError::OracleNotActive) <==> own && !serving
            &&& error == Some(OracleMarketplaceError::SlashBelowMinStake) <==> serving
                && resolution == Resolution::Inaccurate && !slashable
            &&& error is None <==> serving && (resolution == Resolution::Accurate || slashable)
        }),
{
    let oracle = ledger.bound_oracle(call_id);
    if ledger.storage.config is Some && ledger.storage.escrows.contains_key(call_id) {
        lemma_share_bounds(oracle.staked_amount, ledger.storage.config->0.slash_penalty_bps);
    }
}

/// An accurate resolution pays the provider `fee_bps` of the bounty of this very
/// call and the admin the remainder, each where there is anything to pay, and
/// nobody else. The provider's earnings rise by what they are paid, and they have
/// resolved one call more.
pub proof fn accurate_answer_is_paid(ledger: LedgerView, call_id: u64, provider: Address)
    requires
        ledger.storage.valid(),
        ledger.error(
            Request::ResolveCall { call_id, provider, resolution: Resolution::Accurate },
        ) is None,
    ensures
        ({
            let after = ledger.submit(
                Request::ResolveCall { call_id, provider, resolution: Resolution::Accurate },
            );
            let calls = after.calls.skip(ledger.calls.len() as int);
            let key = ledger.storage.call_oracles[call_id];
            let opened = ledger.storage.escrows[call_id];
            let escrow = after.storage.escrows[call_id];
            let before = ledger.storage.oracles[key];
            let oracle = after.storage.oracles[key];
            let fee = opened.amount * before.fee_bps / 10_000;
            let rest = opened.amount - fee;
            let earned_before: int = match ledger.storage.earnings.get(key) {
                Some(earnings) => earnings as int,
                None => 0,
            };
            let earned = after.storage.earnings[key];
            let paid: int = if fee > 0 {
                1
            } else {
                0
            };
            let passed_on: int = if rest > 0 {
                1
            } else {
                0
            };
            let last = 2 + paid + passed_on;
            &&& goes_on(ledger, after)
            &&& 0 <= fee <= opened.amount
            // What is recorded.
            &&& escrow.resolved && escrow.settled
            &&& escrow == CallEscrow { resolved: true, settled: true, ..opened }
            &&& before.total_resolved < u64::MAX ==> oracle.total_resolved == before.total_resolved
                + 1
            &&& before.total_resolved == u64::MAX ==> oracle.total_resolved == u64::MAX
            &&& oracle == OracleProvider { total_resolved: oracle.total_resolved, ..before }
            &&& earned_before + fee <= i128::MAX ==> earned == earned_before + fee
            &&& earned_before + fee > i128::MAX ==> earned == i128::MAX
            &&& after.storage.escrows == ledger.storage.escrows.insert(call_id, escrow)
            &&& after.storage.oracles == ledger.storage.oracles.insert(key, oracle)
            &&& after.storage.earnings == ledger.storage.earnings.insert(key, earned)
            &&& after.storage == StorageView {
                escrows: after.storage.escrows,
                oracles: after.storage.oracles,
                earnings: after.storage.earnings,
                ..ledger.storage
            }
            // What is asked of the host.
            &&& calls.len() == last + 3
            &&& calls[0] == HostCall::RequireAuth(provider)
            &&& calls[1] == HostCall::SetCallEscrow(escrow)
            &&& fee > 0 ==> sends(calls[2], opened.token, ledger.contract, before.address, fee)
            &&& rest > 0 ==> sends(
                calls[2 + paid],
                opened.token,
                ledger.contract,
                ledger.storage.config->0.admin,
                rest,
            )
            &&& calls[last] == HostCall::SetOracleEarnings { pubkey: key, earnings: earned }
            &&& calls[last + 1] == HostCall::SetOracle { pubkey: key, oracle }
            &&& calls[last + 2] matches HostCall::Publish(
                Event::EscrowSettled { call_id: id, pubkey, provider_amount, fee_amount },
            ) && id == call_id && pubkey == key && provider_amount == fee && fee_amount == rest
        }),
{
    let opened = ledger.storage.escrows[call_id];
    let oracle = ledger.bound_oracle(call_id);
    lemma_share_bounds(opened.amount, oracle.fee_bps);
    let after = ledger.submit(
        Request::ResolveCall { call_id, provider, resolution: Resolution::Accurate },
    );
    assert(after.calls.take(ledger.calls.len() as int) =~= ledger.calls);
}

/// An inaccurate resolution gives the caller the bounty of this very call back in
/// full and takes `slash_penalty_bps` of the bond: `10_000 - slash_penalty_bps` of
/// that go to the caller, the remainder to the admin, and nothing to anybody else.
/// The provider has one dispute more, also where nothing is slashed.
pub proof fn inaccurate_answer_is_slashed(ledger: LedgerView, call_id: u64, provider: Address)
    requires
        ledger.storage.valid(),
        ledger.error(
            Request::ResolveCall { call_id, provider, resolution: Resolution::Inaccurate },
        ) is None,
    ensures
        ({
            let after = ledger.submit(
                Request::ResolveCall { call_id, provider, resolution: Resolution::Inaccurate },
            );
            let calls = after.calls.skip(ledger.calls.len() as int);
            let config = ledger.storage.config->0;
            let key = ledger.storage.call_oracles[call_id];
            let opened = ledger.storage.escrows[call_id];
            let escrow = after.storage.escrows[call_id];
            let before = ledger.storage.oracles[key];
            let oracle = after.storage.oracles[key];
            let slashed = before.staked_amount * config.slash_penalty_bps / 10_000;
            let to_caller = slashed * (10_000 - config.slash_penalty_bps) / 10_000;
            &&& goes_on(ledger, after)
            &&& 0 <= to_caller <= slashed
            // What is recorded.
            &&& escrow.resolved && escrow.settled
            &&& escrow == CallEscrow { resolved: true, settled: true, ..opened }
            &&& before.total_disputes < u64::MAX ==> oracle.total_disputes == before.total_disputes
                + 1
            &&& before.total_disputes == u64::MAX ==> oracle.total_disputes == u64::MAX
            &&& oracle.staked_amount == before.staked_amount - slashed
            &&& before.min_stake <= oracle.staked_amount
            &&& before.total_slashed + slashed <= i128::MAX ==> oracle.total_slashed
                == before.total_slashed + slashed
            &&& before.total_slashed + slashed > i128::MAX ==> oracle.total_slashed == i128::MAX
            &&& oracle == OracleProvider {
                total_disputes: oracle.total_disputes,
                staked_amount: oracle.staked_amount,
                total_slashed: oracle.total_slashed,
                ..before
            }
            &&& after.storage.escrows == ledger.storage.escrows.insert(call_id, escrow)
            &&& after.storage.oracles == ledger.storage.oracles.insert(key, oracle)
            &&& after.storage == StorageView {
                escrows: after.storage.escrows,
                oracles: after.storage.oracles,
                ..ledger.storage
            }
            // What is asked of the host.
            &&& calls.len() == if slashed > 0 {
                7int
            } else {
                4int
            }
            &&& calls[0] == HostCall::RequireAuth(provider)
            &&& calls[1] == HostCall::SetCallEscrow(escrow)
            &&& sends(
                calls[2],
                opened.token,
                ledger.contract,
                opened.caller,
                opened.amount as int,
            )
            &&& calls[3] == HostCall::SetOracle { pubkey: key, oracle }
            &&& slashed > 0 ==> {
                &&& sends(calls[4], before.bond_token, ledger.contract, opened.caller, to_caller)
                &&& sends(
                    calls[5],
                    before.bond_token,
                    ledger.contract,
                    config.admin,
                    slashed - to_caller,
                )
                &&& calls[6] matches HostCall::Publish(
                    Event::BondSlashed { pubkey, caller, slashed: amount, remaining_stake },
                ) && pubkey == key && caller == opened.caller && amount == slashed
                    && remaining_stake == oracle.staked_amount
            }
        }),
{
    let config = ledger.storage.config->0;
    let oracle = ledger.bound_oracle(call_id);
    lemma_share_bounds(oracle.staked_amount, config.slash_penalty_bps);
    lemma_share_bounds(
        share(oracle.staked_amount, config.slash_penalty_bps),
        caller_share_bps(config),
    );
    let after = ledger.submit(
        Request::ResolveCall { call_id, provider, resolution: Resolution::Inaccurate },
    );
    assert(after.calls.take(ledger.calls.len() as int) =~= ledger.calls);
}

/// A rating is granted for a known provider that the user has not rated yet.
pub proof fn rating_is_granted_when(
    ledger: LedgerView,
    user: Address,
    pubkey: BytesN<32>,
    satisfied: bool,
)
    ensures
        ({
            let error = ledger.error(Request::RateOracle { user, pubkey, satisfied });
            let known = ledger.storage.oracles.contains_key(pubkey);
            let rated = ledger.storage.ratings.contains_key((pubkey, user));
            &&& error == Some(OracleMarketplaceError::OracleNotFound) <==> !known
            &&& error == Some(OracleMarketplaceError::AlreadyRated) <==> known && rated
            &&& error is None <==> known && !rated
        }),
{
}

/// A rating asks the user and records what they said of the provider, and nothing
/// else.
pub proof fn rating_is_recorded(
    ledger: LedgerView,
    user: Address,
    pubkey: BytesN<32>,
    satisfied: bool,
)
    requires
        ledger.error(Request::RateOracle { user, pubkey, satisfied }) is None,
    ensures
        ({
            let after = ledger.submit(Request::RateOracle { user, pubkey, satisfied });
            let calls = after.calls.skip(ledger.calls.len() as int);
            &&& goes_on(ledger, after)
            &&& after.storage.ratings == ledger.storage.ratings.insert((pubkey, user), satisfied)
            &&& after.storage == StorageView { ratings: after.storage.ratings, ..ledger.storage }
            &&& calls.len() == 3
            &&& calls[0] == HostCall::RequireAuth(user)
            &&& calls[1] == HostCall::SetOracleRating { pubkey, user, satisfied }
            &&& calls[2] == HostCall::Publish(Event::OracleRated { pubkey, user, satisfied })
        }),
{
    let after = ledger.submit(Request::RateOracle { user, pubkey, satisfied });
    assert(after.calls.take(ledger.calls.len() as int) =~= ledger.calls);
}

/// A refused request leaves the ledger as it was, but for having asked the party
/// that makes it. A second setup and a selection ask nobody. The passing of time
/// is never refused and changes nothing but the time.
pub proof fn refusal_leaves_the_ledger(ledger: LedgerView, request: Request)
    ensures
        ledger.error(request) is Some ==> {
            let asked = match request {
                Request::Initialize { config } => if ledger.storage.config is Some {
                    None
                } else {
                    Some(config.admin)
                },
                Request::RegisterOracle { provider, .. } => Some(provider),
                Request::DeregisterOracle { provider, .. } => Some(provider),
                Request::IncreaseBond { funder, .. } => Some(funder),
                Request::WithdrawBond { provider, .. } => Some(provider),
                Request::SelectOracle { .. } => None,
                Request::CreateCallEscrow { caller, .. } => Some(caller),
                Request::ResolveCall { provider, .. } => Some(provider),
                Request::RateOracle { user, .. } => Some(user),
                Request::SetTime { .. } => None,
            };
            match asked {
                Some(party) => ledger.submit(request) == LedgerView {
                    calls: ledger.calls.push(HostCall::RequireAuth(party)),
                    ..ledger
                },
                None => ledger.submit(request) == ledger,
            }
        },
        request matches Request::SetTime { timestamp } ==> ledger.submit(request) == (LedgerView {
            timestamp,
            ..ledger
        }),
{
}

/// Nobody pays who was not asked: every transfer that a request makes comes from
/// the contract or from the party that the request asks first.
pub proof fn payers_are_asked(ledger: LedgerView, request: Request, i: int)
    requires
        ledger.storage.valid(),
        ledger.calls.len() <= i < ledger.submit(request).calls.len(),
        ledger.submit(request).calls[i] is Transfer,
    ensures
        ({
            let after = ledger.submit(request);
            let from = after.calls[i]->Transfer_0.from;
            from == ledger.contract || after.calls[ledger.calls.len() as int]
                == HostCall::RequireAuth(from)
        }),
{
    if ledger.error(request) is Some {
        refusal_leaves_the_ledger(ledger, request);
    }
}

/// The offer follows the list: it names the provider of each key in its place.
pub proof fn offer_follows_the_list(ledger: LedgerView)
    requires
        ledger.storage.valid(),
    ensures
        ledger.available_oracles().len() == ledger.storage.oracle_list.len(),
        forall|i: int|
            0 <= i < ledger.storage.oracle_list.len() ==> #[trigger] ledger.available_oracles()[i]
                == ledger.storage.oracles[ledger.storage.oracle_list[i]],
{
    let list = ledger.storage.oracle_list;
    let oracles = ledger.storage.oracles;
    assert forall|i: int| 0 <= i < list.len() implies oracles.contains_key(#[trigger] list[i])
        && oracles[list[i]].is_active by {
        assert(list.contains(list[i]));
    }
    lemma_active_among_all(list, oracles);
}

/// Whether a request is granted as the resolution of a call that is bound to a
/// provider.
pub open spec fn answers(
    ledger: LedgerView,
    request: Request,
    pubkey: BytesN<32>,
    resolution: Resolution,
) -> bool {
    &&& ledger.error(request) is None
    &&& request matches Request::ResolveCall { call_id, resolution: outcome, .. }
    &&& outcome == resolution
    &&& ledger.storage.call_oracles[call_id] == pubkey
}

/// How many calls a history resolves for a provider with an outcome.
pub open spec fn answers_given(
    ledger: LedgerView,
    history: Seq<Request>,
    pubkey: BytesN<32>,
    resolution: Resolution,
) -> int
    decreases history.len(),
{
    if history.len() == 0 {
        0
    } else {
        answers_given(ledger, history.drop_last(), pubkey, resolution) + if answers(
            ledger.run(history.drop_last()),
            history.last(),
            pubkey,
            resolution,
        ) {
            1int
        } else {
            0int
        }
    }
}

/// What the fees come to of the calls that a history resolves accurately for a
/// provider.
pub open spec fn fees_earned(
    ledger: LedgerView,
    history: Seq<Request>,
    pubkey: BytesN<32>,
) -> int
    decreases history.len(),
{
    if history.len() == 0 {
        0
    } else {
        let now = ledger.run(history.drop_last());
        fees_earned(ledger, history.drop_last(), pubkey) + if answers(
            now,
            history.last(),
            pubkey,
            Resolution::Accurate,
        ) {
            now.storage.escrows[history.last()->ResolveCall_call_id].amount
                * now.storage.oracles[pubkey].fee_bps / 10_000
        } else {
            0
        }
    }
}

/// The track record is true: from a blank contract on, a provider's counters are
/// the numbers of calls that were resolved accurately and inaccurately for them,
/// as far as they can be recorded.
pub proof fn history_counts_answers(
    ledger: LedgerView,
    history: Seq<Request>,
    pubkey: BytesN<32>,
)
    requires
        ledger.storage == StorageView::empty(),
        ledger.all_feasible(history),
    ensures
        ({
            let storage = ledger.run(history).storage;
            let resolved = answers_given(ledger, history, pubkey, Resolution::Accurate);
            let disputed = answers_given(ledger, history, pubkey, Resolution::Inaccurate);
            let oracle = storage.oracles[pubkey];
            &&& 0 <= resolved
            &&& 0 <= disputed
            &&& !storage.oracles.contains_key(pubkey) ==> resolved == 0 && disputed == 0
            &&& storage.oracles.contains_key(pubkey) ==> {
                &&& resolved <= u64::MAX ==> oracle.total_resolved == resolved
                &&& resolved > u64::MAX ==> oracle.total_resolved == u64::MAX
                &&& disputed <= u64::MAX ==> oracle.total_disputes == disputed
                &&& disputed > u64::MAX ==> oracle.total_disputes == u64::MAX
            }
        }),
    decreases history.len(),
{
    if history.len() > 0 {
        let front = history.drop_last();
        let now = ledger.run(front);
        history_counts_answers(ledger, front, pubkey);
        blank_storage_is_valid();
        history_preserves_validity(ledger, front);
        match history.last() {
            Request::ResolveCall { call_id, provider, resolution } => {
                if now.error(history.last()) is None {
                    match resolution {
                        Resolution::Accurate => accurate_answer_is_paid(now, call_id, provider),
                        Resolution::Inaccurate => inaccurate_answer_is_slashed(
                            now,
                            call_id,
                            provider,
                        ),
                    }
                }
            },
            _ => {},
        }
    }
}

/// The earnings are true: from a blank contract on, what a provider is said to
/// have earned is the sum of the fees of the calls that were resolved accurately
/// for them, as far as it can be recorded.
pub proof fn history_adds_up_earnings(
    ledger: LedgerView,
    history: Seq<Request>,
    pubkey: BytesN<32>,
)
    requires
        ledger.storage == StorageView::empty(),
        ledger.all_feasible(history),
    ensures
        ({
            let earned: int = match ledger.run(history).storage.earnings.get(pubkey) {
                Some(earnings) => earnings as int,
                None => 0,
            };
            let fees = fees_earned(ledger, history, pubkey);
            &&& 0 <= fees
            &&& fees <= i128::MAX ==> earned == fees
            &&& fees > i128::MAX ==> earned == i128::MAX
        }),
    decreases history.len(),
{
    if history.len() > 0 {
        let front = history.drop_last();
        let now = ledger.run(front);
        history_adds_up_earnings(ledger, front, pubkey);
        blank_storage_is_valid();
        history_preserves_validity(ledger, front);
        match history.last() {
            Request::ResolveCall { call_id, provider, resolution } => {
                if now.error(history.last()) is None {
                    match resolution {
                        Resolution::Accurate => accurate_answer_is_paid(now, call_id, provider),
                        Resolution::Inaccurate => inaccurate_answer_is_slashed(
                            now,
                            call_id,
                            provider,
                        ),
                    }
                }
            },
            _ => {},
        }
    }
}

} // verus!
