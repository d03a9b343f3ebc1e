//! The marketplace contract.
use vstd::prelude::*;

use crate::amounts::{bps_of, lemma_share_sign, saturating_add, saturating_sub, BPS_DENOMINATOR};
use crate::errors::OracleMarketplaceError;
use crate::events::{
    emit_bond_increased, emit_bond_slashed, emit_bond_withdrawn, emit_escrow_created,
    emit_escrow_settled, emit_oracle_deregistered, emit_oracle_rated, emit_oracle_registered,
    emit_oracle_selected,
};
use crate::host::{pay, transfer_token};
use crate::ledger::Ledger;
use crate::model::{
    active_among, caller_share_bps, cooling_down, lemma_active_among_empty,
    lemma_active_among_push,
};
use crate::requests::Request;
use crate::storage;
use crate::storage::{
    add_to_oracle_list, get_call_escrow, get_config, get_oracle, get_oracle_list,
    get_oracle_rating, remove_from_oracle_list, set_call_escrow, set_call_oracle, set_config,
    set_oracle, set_oracle_earnings, set_oracle_rating,
};
use crate::types::{
    Address, BytesN, CallEscrow, MarketplaceConfig, OracleProvider, Resolution,
};

verus! {

/// The oracle marketplace contract.
pub struct OracleMarketplace;

impl OracleMarketplace {
    /// One-time setup. Records the admin, the deregistration cooldown, the
    /// default per-query fee, and the share of a slashed bond that goes to
    /// the admin rather than the caller who was served a bad answer.
    pub fn initialize(
        ledger: &mut Ledger,
        admin: Address,
        cooldown_secs: u64,
        default_fee_bps: u32,
        slash_penalty_bps: u32,
    ) -> (result: Result<(), OracleMarketplaceError>)
        requires
            old(ledger).wf(),
        ensures
            final(ledger).wf(),
            final(ledger)@ == old(ledger)@.submit(
                (Request::Initialize {
                    config: (MarketplaceConfig {
                        admin,
                        cooldown_secs,
                        default_fee_bps,
                        slash_penalty_bps,
                    }),
                }),
            ),
            match result {
                Ok(_) => {
                    &&& old(ledger)@.initialize_error(default_fee_bps, slash_penalty_bps) is None
                    &&& final(ledger)@ == old(ledger)@.initialized(
                        MarketplaceConfig {
                            admin,
                            cooldown_secs,
                            default_fee_bps,
                            slash_penalty_bps,
                        },
                    )
                },
                Err(error) => {
                    &&& old(ledger)@.initialize_error(default_fee_bps, slash_penalty_bps) == Some(
                        error,
                    )
                    &&& final(ledger)@ == if error == OracleMarketplaceError::AlreadyInitialized {
                        old(ledger)@
                    } else {
                        old(ledger)@.authorized_by(admin)
                    }
                },
            },
    {
        if get_config(ledger).is_some() {
            return Err(OracleMarketplaceError::AlreadyInitialized);
        }
        ledger.require_auth(&admin);
        if default_fee_bps > BPS_DENOMINATOR || slash_penalty_bps > BPS_DENOMINATOR {
            return Err(OracleMarketplaceError::InvalidFee);
        }
        let config = MarketplaceConfig {
            admin,
            cooldown_secs,
            default_fee_bps,
            slash_penalty_bps,
        };
        set_config(ledger, &config);
        assert(ledger@ =~= old(ledger)@.initialized(config));
        Ok(())
    }

    /// Register an oracle provider for a data feed, locking `initial_bond` of
    /// `bond_token` in escrow.
    ///
    /// The bond is the provider's collateral: it is slashed if they report an
    /// inaccurate resolution. Registration therefore requires a real token
    /// transfer, not just a recorded number: the contract cannot slash a
    /// balance it does not hold.
    pub fn register_oracle(
        ledger: &mut Ledger,
        provider: Address,
        pubkey: BytesN<32>,
        fee_bps: u32,
        min_stake: i128,
        initial_bond: i128,
        bond_token: Address,
    ) -> (result: Result<(), OracleMarketplaceError>)
        requires
            old(ledger).wf(),
        ensures
            final(ledger).wf(),
            final(ledger)@ == old(ledger)@.submit(
                (Request::RegisterOracle {
                    provider,
                    pubkey,
                    fee_bps,
                    min_stake,
                    initial_bond,
                    bond_token,
                }),
            ),
            match result {
                Ok(_) => {
                    &&& old(ledger)@.register_oracle_error(
                        pubkey,
                        fee_bps,
                        min_stake,
                        initial_bond,
                    ) is None
                    &&& final(ledger)@ == old(ledger)@.registered(
                        old(ledger)@.new_provider(
                            provider,
                            pubkey,
                            fee_bps,
                            min_stake,
                            initial_bond,
                            bond_token,
                        ),
                    )
                },
                Err(error) => {
                    &&& old(ledger)@.register_oracle_error(
                        pubkey,
                        fee_bps,
                        min_stake,
                        initial_bond,
                    ) == Some(error)
                    &&& final(ledger)@ == old(ledger)@.authorized_by(provider)
                },
            },
    {
        ledger.require_auth(&provider);
        if get_config(ledger).is_none() {
            return Err(OracleMarketplaceError::NotInitialized);
        }
        if get_oracle(ledger, &pubkey).is_some() {
            return Err(OracleMarketplaceError::OracleAlreadyRegistered);
        }
        if fee_bps > BPS_DENOMINATOR {
            return Err(OracleMarketplaceError::InvalidFee);
        }
        if min_stake <= 0 {
            return Err(OracleMarketplaceError::InvalidBond);
        }
        // The bond a provider posts has to reach their own floor at
        // registration time; otherwise they are already below it on day one
        // and can never be slashed.
        if initial_bond < min_stake {
            return Err(OracleMarketplaceError::InsufficientStake);
        }
        // The bond is in the contract's custody before the provider is listed
        // as available.
        let contract = ledger.current_contract_address();
        transfer_token(ledger, &bond_token, &provider, &contract, initial_bond);
        let oracle = OracleProvider {
            pubkey,
            address: provider,
            fee_bps,
            min_stake,
            staked_amount: initial_bond,
            bond_token,
            total_resolved: 0,
            total_disputes: 0,
            total_slashed: 0,
            is_active: true,
            registered_at: ledger.timestamp(),
            deregister_after: None,
        };
        set_oracle(ledger, &pubkey, &oracle);
        add_to_oracle_list(ledger, &pubkey);
        emit_oracle_registered(ledger, &provider, &pubkey, fee_bps);
        assert(ledger@ =~= old(ledger)@.registered(oracle));
        Ok(())
    }

    /// Whether a provider's withdrawal cooldown is still running.
    fn is_cooling_down(oracle: &OracleProvider, timestamp: u64) -> (waiting: bool)
        ensures
            waiting == cooling_down(*oracle, timestamp),
    {
        match oracle.deregister_after {
            Some(deregister_after) => timestamp < deregister_after,
            None => false,
        }
    }

    /// What a deregistration goes by: the configuration and the provider's
    /// record, or the reason why it is refused.
    pub fn check_deregistration(ledger: &Ledger, provider: &Address, pubkey: &BytesN<32>) -> (result:
        Result<(MarketplaceConfig, OracleProvider), OracleMarketplaceError>)
        requires
            ledger.wf(),
        ensures
            match result {
                Ok((config, oracle)) => {
                    &&& ledger@.deregister_oracle_error(*provider, *pubkey) is None
                    &&& ledger@.storage.config == Some(config)
                    &&& ledger@.storage.oracles[*pubkey] == oracle
                },
                Err(error) => ledger@.deregister_oracle_error(*provider, *pubkey) == Some(error),
            },
    {
        let config = match get_config(ledger) {
            Some(config) => config,
            None => {
                return Err(OracleMarketplaceError::NotInitialized);
            },
        };
        let oracle = match get_oracle(ledger, pubkey) {
            Some(oracle) => oracle,
            None => {
                return Err(OracleMarketplaceError::OracleNotFound);
            },
        };
        let waiting = Self::is_cooling_down(&oracle, ledger.timestamp());
        if !oracle.is_active {
            // Deregistering again trips the cooldown as long as it runs.
            if waiting {
                return Err(OracleMarketplaceError::CooldownActive);
            }
            return Err(OracleMarketplaceError::OracleNotActive);
        }
        if oracle.address != *provider {
            return Err(OracleMarketplaceError::Unauthorized);
        }
        if waiting {
            return Err(OracleMarketplaceError::CooldownActive);
        }
        Ok((config, oracle))
    }

    /// Mark an oracle inactive and start the withdrawal cooldown. The bond
    /// is *not* released here: see `withdraw_bond`.
    ///
    /// The end of the cooldown has to be a time that the ledger can reach.
    pub fn deregister_oracle(ledger: &mut Ledger, provider: Address, pubkey: BytesN<32>) -> (result:
        Result<(), OracleMarketplaceError>)
        requires
            old(ledger).wf(),
            old(ledger)@.deregister_oracle_error(provider, pubkey) is None ==> old(
                ledger,
            )@.cooldown_end() <= u64::MAX,
        ensures
            final(ledger).wf(),
            final(ledger)@ == old(ledger)@.submit(
                (Request::DeregisterOracle { provider, pubkey }),
            ),
            match result {
                Ok(_) => {
                    &&& old(ledger)@.deregister_oracle_error(provider, pubkey) is None
                    &&& final(ledger)@ == old(ledger)@.deregistered(provider, pubkey)
                },
                Err(error) => {
                    &&& old(ledger)@.deregister_oracle_error(provider, pubkey) == Some(error)
                    &&& final(ledger)@ == old(ledger)@.authorized_by(provider)
                },
            },
    {
        ledger.require_auth(&provider);
        let (config, oracle) = match Self::check_deregistration(ledger, &provider, &pubkey) {
            Ok(found) => found,
            Err(error) => {
                return Err(error);
            },
        };
        let mut updated = oracle;
        updated.is_active = false;
        updated.deregister_after = Some(ledger.timestamp() + config.cooldown_secs);
        set_oracle(ledger, &pubkey, &updated);
        remove_from_oracle_list(ledger, &pubkey);
        emit_oracle_deregistered(ledger, &provider, &pubkey);
        assert(ledger@ =~= old(ledger)@.deregistered(provider, pubkey));
        Ok(())
    }

    /// Top up a provider's bond without re-registering.
    ///
    /// Available to anyone (not just the provider) because topping up a
    /// provider's collateral is strictly beneficial to that provider's
    /// counterparties; the provider's `staked_amount` grows and no authority
    /// is exercised on their behalf.
    pub fn increase_bond(
        ledger: &mut Ledger,
        pubkey: BytesN<32>,
        amount: i128,
        funder: Address,
    ) -> (result: Result<(), OracleMarketplaceError>)
        requires
            old(ledger).wf(),
        ensures
            final(ledger).wf(),
            final(ledger)@ == old(ledger)@.submit(
                (Request::IncreaseBond { pubkey, amount, funder }),
            ),
            match result {
                Ok(_) => {
                    &&& old(ledger)@.increase_bond_error(pubkey, amount) is None
                    &&& final(ledger)@ == old(ledger)@.bond_increased(pubkey, amount, funder)
                },
                Err(error) => {
                    &&& old(ledger)@.increase_bond_error(pubkey, amount) == Some(error)
                    &&& final(ledger)@ == old(ledger)@.authorized_by(funder)
                },
            },
    {
        ledger.require_auth(&funder);
        if amount <= 0 {
            return Err(OracleMarketplaceError::InvalidBond);
        }
        let mut oracle = match get_oracle(ledger, &pubkey) {
            Some(oracle) => oracle,
            None => {
                return Err(OracleMarketplaceError::OracleNotFound);
            },
        };
        let contract = ledger.current_contract_address();
        transfer_token(ledger, &oracle.bond_token, &funder, &contract, amount);
        oracle.staked_amount = saturating_add(oracle.staked_amount, amount);
        set_oracle(ledger, &pubkey, &oracle);
        emit_bond_increased(ledger, &pubkey, amount, oracle.staked_amount);
        assert(ledger@ =~= old(ledger)@.bond_increased(pubkey, amount, funder));
        Ok(())
    }

    /// Release a deregistered provider's bond back to them.
    ///
    /// Requires the cooldown set by `deregister_oracle` to have elapsed, and
    /// requires the provider to be inactive, so a bond cannot be withdrawn
    /// while still serving calls.
    pub fn withdraw_bond(ledger: &mut Ledger, provider: Address, pubkey: BytesN<32>) -> (result:
        Result<(), OracleMarketplaceError>)
        requires
            old(ledger).wf(),
        ensures
            final(ledger).wf(),
            final(ledger)@ == old(ledger)@.submit(
                (Request::WithdrawBond { provider, pubkey }),
            ),
            match result {
                Ok(_) => {
                    &&& old(ledger)@.withdraw_bond_error(provider, pubkey) is None
                    &&& final(ledger)@ == old(ledger)@.bond_withdrawn(provider, pubkey)
                },
                Err(error) => {
                    &&& old(ledger)@.withdraw_bond_error(provider, pubkey) == Some(error)
                    &&& final(ledger)@ == old(ledger)@.authorized_by(provider)
                },
            },
    {
        ledger.require_auth(&provider);
        let oracle = match get_oracle(ledger, &pubkey) {
            Some(oracle) => oracle,
            None => {
                return Err(OracleMarketplaceError::OracleNotFound);
            },
        };
        if oracle.address != provider {
            return Err(OracleMarketplaceError::Unauthorized);
        }
        if oracle.is_active {
            return Err(OracleMarketplaceError::OracleNotActive);
        }
        if Self::is_cooling_down(&oracle, ledger.timestamp()) {
            return Err(OracleMarketplaceError::CooldownActive);
        }
        let amount = oracle.staked_amount;
        if amount <= 0 {
            return Err(OracleMarketplaceError::InsufficientStake);
        }
        // The stake is zeroed before the transfer: external calls must never be
        // able to re-enter and withdraw the same bond twice.
        let mut updated = oracle;
        updated.staked_amount = 0;
        set_oracle(ledger, &pubkey, &updated);
        let contract = ledger.current_contract_address();
        transfer_token(ledger, &oracle.bond_token, &contract, &provider, amount);
        emit_bond_withdrawn(ledger, &pubkey, &provider, amount);
        assert(ledger@ =~= old(ledger)@.bond_withdrawn(provider, pubkey));
        Ok(())
    }

    /// The providers that are active, in the order of registration.
    pub fn get_available_oracles(ledger: &Ledger) -> (available: Vec<OracleProvider>)
        requires
            ledger.wf(),
        ensures
            available@ == ledger@.available_oracles(),
    {
        let list = get_oracle_list(ledger);
        let mut available: Vec<OracleProvider> = Vec::new();
        let mut i: usize = 0;
        proof {
            lemma_active_among_empty(ledger@.storage.oracles);
            assert(list@.take(0) =~= Seq::empty());
        }
        while i < list.len()
            invariant
                ledger.wf(),
                list@ == ledger@.storage.oracle_list,
                i <= list.len(),
                available@ == active_among(list@.take(i as int), ledger@.storage.oracles),
            decreases list.len() - i,
        {
            proof {
                lemma_active_among_push(
                    list@.take(i as int),
                    list@[i as int],
                    ledger@.storage.oracles,
                );
                assert(list@.take(i + 1) =~= list@.take(i as int).push(list@[i as int]));
            }
            if let Some(oracle) = get_oracle(ledger, &list[i]) {
                if oracle.is_active {
                    available.push(oracle);
                }
            }
            i += 1;
        }
        assert(list@.take(list@.len() as int) =~= list@);
        available
    }

    /// Bind a call to a specific oracle provider.
    pub fn select_oracle_for_call(
        ledger: &mut Ledger,
        call_id: u64,
        oracle_pubkey: BytesN<32>,
    ) -> (result: Result<(), OracleMarketplaceError>)
        requires
            old(ledger).wf(),
        ensures
            final(ledger).wf(),
            final(ledger)@ == old(ledger)@.submit(
                (Request::SelectOracle { call_id, pubkey: oracle_pubkey }),
            ),
            match result {
                Ok(_) => {
                    &&& old(ledger)@.select_oracle_error(oracle_pubkey) is None
                    &&& final(ledger)@ == old(ledger)@.oracle_selected(call_id, oracle_pubkey)
                },
                Err(error) => {
                    &&& old(ledger)@.select_oracle_error(oracle_pubkey) == Some(error)
                    &&& final(ledger)@ == old(ledger)@
                },
            },
    {
        let oracle = match get_oracle(ledger, &oracle_pubkey) {
            Some(oracle) => oracle,
            None => {
                return Err(OracleMarketplaceError::OracleNotFound);
            },
        };
        if !oracle.is_active {
            return Err(OracleMarketplaceError::OracleNotActive);
        }
        set_call_oracle(ledger, call_id, &oracle_pubkey);
        emit_oracle_selected(ledger, call_id, &oracle_pubkey);
        assert(ledger@ =~= old(ledger)@.oracle_selected(call_id, oracle_pubkey));
        Ok(())
    }

    /// The provider that a call is bound to.
    pub fn get_call_oracle(ledger: &Ledger, call_id: u64) -> (oracle: Option<BytesN<32>>)
        requires
            ledger.wf(),
        ensures
            oracle == ledger@.storage.call_oracles.get(call_id),
    {
        storage::get_call_oracle(ledger, call_id)
    }

    /// Escrow a bounty for a call, to be paid to the oracle that resolves it.
    ///
    /// The escrow names its oracle, and that oracle has to be active: paying a
    /// bounty that no provider can ever claim would strand the funds in the
    /// contract. The call is bound to the oracle that the escrow names, until
    /// another one is selected for it.
    ///
    /// The fee the provider is owed is `oracle.fee_bps` of `amount`; the
    /// remainder is transferred to the admin as the marketplace's cut, so the
    /// caller escrows the full price of the query up front.
    pub fn create_call_escrow(
        ledger: &mut Ledger,
        call_id: u64,
        caller: Address,
        oracle_pubkey: BytesN<32>,
        amount: i128,
        token: Address,
    ) -> (result: Result<(), OracleMarketplaceError>)
        requires
            old(ledger).wf(),
        ensures
            final(ledger).wf(),
            final(ledger)@ == old(ledger)@.submit(
                (Request::CreateCallEscrow {
                    call_id,
                    caller,
                    pubkey: oracle_pubkey,
                    amount,
                    token,
                }),
            ),
            match result {
                Ok(_) => {
                    &&& old(ledger)@.create_call_escrow_error(
                        call_id,
                        oracle_pubkey,
                        amount,
                    ) is None
                    &&& final(ledger)@ == old(ledger)@.escrow_created(
                        old(ledger)@.new_escrow(call_id, caller, oracle_pubkey, amount, token),
                    )
                },
                Err(error) => {
                    &&& old(ledger)@.create_call_escrow_error(call_id, oracle_pubkey, amount)
                        == Some(error)
                    &&& final(ledger)@ == old(ledger)@.authorized_by(caller)
                },
            },
    {
        ledger.require_auth(&caller);
        if amount <= 0 {
            return Err(OracleMarketplaceError::InvalidEscrowAmount);
        }
        if get_call_escrow(ledger, call_id).is_some() {
            return Err(OracleMarketplaceError::EscrowAlreadyExists);
        }
        let oracle = match get_oracle(ledger, &oracle_pubkey) {
            Some(oracle) => oracle,
            None => {
                return Err(OracleMarketplaceError::OracleNotFound);
            },
        };
        if !oracle.is_active {
            return Err(OracleMarketplaceError::OracleNotActive);
        }
        set_call_oracle(ledger, call_id, &oracle_pubkey);
        // The whole bounty is pulled into the contract; the split happens at
        // resolution time, once the answer's accuracy is known.
        let contract = ledger.current_contract_address();
        transfer_token(ledger, &token, &caller, &contract, amount);
        let escrow = CallEscrow {
            call_id,
            caller,
            oracle: oracle_pubkey,
            token,
            amount,
            created_at: ledger.timestamp(),
            resolved: false,
            settled: false,
        };
        set_call_escrow(ledger, &escrow);
        emit_escrow_created(ledger, call_id, &caller, &oracle_pubkey, amount);
        assert(ledger@ =~= old(ledger)@.escrow_created(escrow));
        Ok(())
    }

    /// Resolve a call and settle its escrowed bounty.
    ///
    /// Must be called by the oracle the call is bound to. Outcomes:
    ///
    /// - `Resolution::Accurate`: the provider keeps `fee_bps` of the escrow
    ///   and the admin receives the remainder. `total_resolved` grows.
    /// - `Resolution::Inaccurate`: the escrowed bounty is returned to the
    ///   caller and `slash_penalty_bps` of the provider's bond is slashed,
    ///   split between the caller and the admin, whose part of it is
    ///   `slash_penalty_bps`. `total_disputes` grows. It is
    ///   refused where the slash would push the bond below `min_stake`, or where
    ///   the bond has no headroom above it.
    #[verifier::rlimit(40)]
    pub fn resolve_call(
        ledger: &mut Ledger,
        call_id: u64,
        provider: Address,
        resolution: Resolution,
    ) -> (result: Result<(), OracleMarketplaceError>)
        requires
            old(ledger).wf(),
        ensures
            final(ledger).wf(),
            final(ledger)@ == old(ledger)@.submit(
                (Request::ResolveCall { call_id, provider, resolution }),
            ),
            match result {
                Ok(_) => {
                    &&& old(ledger)@.resolve_call_error(call_id, provider, resolution) is None
                    &&& final(ledger)@ == old(ledger)@.resolved(call_id, provider, resolution)
                },
                Err(error) => {
                    &&& old(ledger)@.resolve_call_error(call_id, provider, resolution) == Some(
                        error,
                    )
                    &&& final(ledger)@ == old(ledger)@.authorized_by(provider)
                },
            },
    {
        ledger.require_auth(&provider);
        let config = match get_config(ledger) {
            Some(config) => config,
            None => {
                return Err(OracleMarketplaceError::NotInitialized);
            },
        };
        let mut escrow = match get_call_escrow(ledger, call_id) {
            Some(escrow) => escrow,
            None => {
                return Err(OracleMarketplaceError::CallNotFound);
            },
        };
        if escrow.resolved {
            return Err(OracleMarketplaceError::EscrowAlreadyResolved);
        }
        let bound = match storage::get_call_oracle(ledger, call_id) {
            Some(bound) => bound,
            None => {
                return Err(OracleMarketplaceError::OracleNotSelectedForCall);
            },
        };
        let mut oracle = match get_oracle(ledger, &bound) {
            Some(oracle) => oracle,
            None => {
                return Err(OracleMarketplaceError::OracleNotFound);
            },
        };
        if oracle.address != provider {
            return Err(OracleMarketplaceError::NotSelectedOracle);
        }
        if !oracle.is_active {
            return Err(OracleMarketplaceError::OracleNotActive);
        }
        let contract = ledger.current_contract_address();
        match resolution {
            Resolution::Accurate => {
                oracle.total_resolved = oracle.total_resolved.saturating_add(1);
                proof {
                    lemma_share_sign(escrow.amount, oracle.fee_bps);
                }
                let provider_cut = bps_of(escrow.amount, oracle.fee_bps);
                let admin_cut = escrow.amount - provider_cut;
                // The escrow is settled before anything is paid out of it.
                escrow.resolved = true;
                escrow.settled = true;
                set_call_escrow(ledger, &escrow);
                pay(ledger, &escrow.token, &contract, &oracle.address, provider_cut);
                pay(ledger, &escrow.token, &contract, &config.admin, admin_cut);
                let earned = storage::get_oracle_earnings(ledger, &oracle.pubkey);
                set_oracle_earnings(ledger, &oracle.pubkey, saturating_add(earned, provider_cut));
                set_oracle(ledger, &oracle.pubkey, &oracle);
                emit_escrow_settled(ledger, call_id, &oracle.pubkey, provider_cut, admin_cut);
                assert(ledger@ =~= old(ledger)@.resolved_accurate(call_id, provider));
            },
            Resolution::Inaccurate => {
                if escrow.settled {
                    return Err(OracleMarketplaceError::EscrowAlreadyResolved);
                }
                oracle.total_disputes = oracle.total_disputes.saturating_add(1);
                let slashed = bps_of(oracle.staked_amount, config.slash_penalty_bps);
                let remaining_stake = saturating_sub(oracle.staked_amount, slashed);
                // The floor binds: neither a bond that has come down to it nor
                // one that the slash would push below it is slashed.
                if oracle.staked_amount <= oracle.min_stake || remaining_stake < oracle.min_stake {
                    return Err(OracleMarketplaceError::SlashBelowMinStake);
                }
                escrow.resolved = true;
                escrow.settled = true;
                set_call_escrow(ledger, &escrow);
                // The caller paid for an answer they cannot use, so they get the
                // bounty back in full.
                pay(ledger, &escrow.token, &contract, &escrow.caller, escrow.amount);
                if slashed > 0 {
                    proof {
                        lemma_share_sign(slashed, caller_share_bps(config));
                    }
                    // Split the penalty: the caller was actively harmed, the
                    // admin runs the marketplace.
                    let caller_bps = BPS_DENOMINATOR.saturating_sub(config.slash_penalty_bps);
                    let caller_share = bps_of(slashed, caller_bps);
                    let admin_share = slashed - caller_share;
                    oracle.staked_amount = remaining_stake;
                    oracle.total_slashed = saturating_add(oracle.total_slashed, slashed);
                    set_oracle(ledger, &oracle.pubkey, &oracle);
                    transfer_token(
                        ledger,
                        &oracle.bond_token,
                        &contract,
                        &escrow.caller,
                        caller_share,
                    );
                    transfer_token(
                        ledger,
                        &oracle.bond_token,
                        &contract,
                        &config.admin,
                        admin_share,
                    );
                    emit_bond_slashed(
                        ledger,
                        &oracle.pubkey,
                        &escrow.caller,
                        slashed,
                        oracle.staked_amount,
                    );
                } else {
                    // Nothing to slash; the dispute is counted all the same.
                    set_oracle(ledger, &oracle.pubkey, &oracle);
                }
                assert(ledger@ =~= old(ledger)@.resolved_inaccurate(call_id, provider));
            },
        }
        Ok(())
    }

    /// Leave a rating on a provider. A user rates a provider once.
    pub fn rate_oracle(
        ledger: &mut Ledger,
        user: Address,
        oracle_pubkey: BytesN<32>,
        satisfied: bool,
    ) -> (result: Result<(), OracleMarketplaceError>)
        requires
            old(ledger).wf(),
        ensures
            final(ledger).wf(),
            final(ledger)@ == old(ledger)@.submit(
                (Request::RateOracle { user, pubkey: oracle_pubkey, satisfied }),
            ),
            match result {
                Ok(_) => {
                    &&& old(ledger)@.rate_oracle_error(user, oracle_pubkey) is None
                    &&& final(ledger)@ == old(ledger)@.rated(user, oracle_pubkey, satisfied)
                },
                Err(error) => {
                    &&& old(ledger)@.rate_oracle_error(user, oracle_pubkey) == Some(error)
                    &&& final(ledger)@ == old(ledger)@.authorized_by(user)
                },
            },
    {
        ledger.require_auth(&user);
        if get_oracle(ledger, &oracle_pubkey).is_none() {
            return Err(OracleMarketplaceError::OracleNotFound);
        }
        if get_oracle_rating(ledger, &oracle_pubkey, &user).is_some() {
            return Err(OracleMarketplaceError::AlreadyRated);
        }
        set_oracle_rating(ledger, &oracle_pubkey, &user, satisfied);
        emit_oracle_rated(ledger, &oracle_pubkey, &user, satisfied);
        assert(ledger@ =~= old(ledger)@.rated(user, oracle_pubkey, satisfied));
        Ok(())
    }

    /// How many calls a provider has resolved accurately, and how many
    /// inaccurately.
    pub fn get_oracle_metrics(ledger: &Ledger, oracle_pubkey: BytesN<32>) -> (result: Result<
        (u64, u64),
        OracleMarketplaceError,
    >)
        requires
            ledger.wf(),
        ensures
            result == match ledger@.storage.oracles.get(oracle_pubkey) {
                Some(oracle) => Ok((oracle.total_resolved, oracle.total_disputes)),
                None => Err(OracleMarketplaceError::OracleNotFound),
            },
    {
        match get_oracle(ledger, &oracle_pubkey) {
            Some(oracle) => Ok((oracle.total_resolved, oracle.total_disputes)),
            None => Err(OracleMarketplaceError::OracleNotFound),
        }
    }

    /// What a provider has been paid out of escrows.
    pub fn get_oracle_earnings(ledger: &Ledger, oracle_pubkey: BytesN<32>) -> (earnings: i128)
        requires
            ledger.wf(),
        ensures
            earnings == ledger@.storage.earnings_of(oracle_pubkey),
            earnings == match ledger@.storage.earnings.get(oracle_pubkey) {
                Some(earned) => earned,
                None => 0,
            },
    {
        storage::get_oracle_earnings(ledger, &oracle_pubkey)
    }

    /// The escrow of a call.
    pub fn get_call_escrow_view(ledger: &Ledger, call_id: u64) -> (result: Result<
        CallEscrow,
        OracleMarketplaceError,
    >)
        requires
            ledger.wf(),
        ensures
            result == match ledger@.storage.escrows.get(call_id) {
                Some(escrow) => Ok(escrow),
                None => Err(OracleMarketplaceError::CallNotFound),
            },
    {
        match get_call_escrow(ledger, call_id) {
            Some(escrow) => Ok(escrow),
            None => Err(OracleMarketplaceError::CallNotFound),
        }
    }

    /// The marketplace's settings.
    pub fn get_config_view(ledger: &Ledger) -> (result: Result<
        MarketplaceConfig,
        OracleMarketplaceError,
    >)
        requires
            ledger.wf(),
        ensures
            result == match ledger@.storage.config {
                Some(config) => Ok(config),
                None => Err(OracleMarketplaceError::NotInitialized),
            },
    {
        match get_config(ledger) {
            Some(config) => Ok(config),
            None => Err(OracleMarketplaceError::NotInitialized),
        }
    }
}

} // verus!
