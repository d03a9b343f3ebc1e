//! What each request to the marketplace does, over the ledger's view: when it is
//! refused, and what the ledger is once it has been granted.
use vstd::prelude::*;

use crate::amounts::{saturated, share, BPS_DENOMINATOR};
use crate::errors::OracleMarketplaceError;
use crate::events::Event;
use crate::host::{payment, transfer_of, HostCall};
use crate::ledger::LedgerView;
use crate::storage::{without, StorageView};
use crate::types::{
    Address, BytesN, CallEscrow, MarketplaceConfig, OracleProvider, Resolution,
};

verus! {

/// One more on a counter that stops at its largest value.
pub open spec fn counted(counter: u64) -> u64 {
    if counter == u64::MAX {
        counter
    } else {
        (counter + 1) as u64
    }
}

/// Whether a provider's withdrawal cooldown is still running.
pub open spec fn cooling_down(oracle: OracleProvider, timestamp: u64) -> bool {
    oracle.deregister_after matches Some(end) && timestamp < end
}

/// How a granted accurate resolution divides the bounty: what the provider
/// earns, and the remainder, which is the admin's.
pub open spec fn bounty_split(escrow: CallEscrow, oracle: OracleProvider) -> (i128, i128) {
    let provider_cut = share(escrow.amount, oracle.fee_bps);
    (provider_cut, (escrow.amount - provider_cut) as i128)
}

/// How much of a provider's bond an inaccurate resolution takes.
pub open spec fn slash_amount(config: MarketplaceConfig, oracle: OracleProvider) -> i128 {
    share(oracle.staked_amount, config.slash_penalty_bps)
}

/// What a slash leaves of a provider's bond.
pub open spec fn remaining_stake(config: MarketplaceConfig, oracle: OracleProvider) -> i128 {
    saturated(oracle.staked_amount - slash_amount(config, oracle))
}

/// Basis points of a slashed amount that the harmed caller receives: all but
/// `slash_penalty_bps`, which are the admin's.
pub open spec fn caller_share_bps(config: MarketplaceConfig) -> u32 {
    if config.slash_penalty_bps <= BPS_DENOMINATOR {
        (BPS_DENOMINATOR - config.slash_penalty_bps) as u32
    } else {
        0
    }
}

/// How a slashed amount is divided: the caller's part, and the remainder, which
/// is the admin's.
pub open spec fn slash_split(config: MarketplaceConfig, slashed: i128) -> (i128, i128) {
    let caller_share = share(slashed, caller_share_bps(config));
    (caller_share, (slashed - caller_share) as i128)
}

/// Whether a slash is refused: the bond has no headroom above the provider's
/// floor, or the slash would push it below.
pub open spec fn slash_refused(config: MarketplaceConfig, oracle: OracleProvider) -> bool {
    oracle.staked_amount <= oracle.min_stake || remaining_stake(config, oracle) < oracle.min_stake
}

/// A provider's record after an accurate resolution.
pub open spec fn credited(oracle: OracleProvider) -> OracleProvider {
    OracleProvider { total_resolved: counted(oracle.total_resolved), ..oracle }
}

/// A provider's record after an inaccurate resolution.
pub open spec fn disputed(config: MarketplaceConfig, oracle: OracleProvider) -> OracleProvider {
    let slashed = slash_amount(config, oracle);
    let total_disputes = counted(oracle.total_disputes);
    if slashed > 0 {
        OracleProvider {
            total_disputes,
            staked_amount: remaining_stake(config, oracle),
            total_slashed: saturated(oracle.total_slashed + slashed),
            ..oracle
        }
    } else {
        OracleProvider { total_disputes, ..oracle }
    }
}

/// An escrow once its call has been resolved.
pub open spec fn settled(escrow: CallEscrow) -> CallEscrow {
    CallEscrow { resolved: true, settled: true, ..escrow }
}

/// The providers that a list of keys puts on offer: those that are active.
pub open spec fn active_among(
    list: Seq<BytesN<32>>,
    oracles: Map<BytesN<32>, OracleProvider>,
) -> Seq<OracleProvider> {
    list.filter(
        |key: BytesN<32>| oracles.contains_key(key) && oracles[key].is_active,
    ).map_values(|key: BytesN<32>| oracles[key])
}

/// An empty list puts no provider on offer.
pub proof fn lemma_active_among_empty(oracles: Map<BytesN<32>, OracleProvider>)
    ensures
        active_among(Seq::empty(), oracles) == Seq::<OracleProvider>::empty(),
{
    reveal(Seq::filter);
    assert(active_among(Seq::empty(), oracles) =~= Seq::<OracleProvider>::empty());
}

/// A longer list offers one more provider if its last key names an active one.
pub proof fn lemma_active_among_push(
    list: Seq<BytesN<32>>,
    key: BytesN<32>,
    oracles: Map<BytesN<32>, OracleProvider>,
)
    ensures
        active_among(list.push(key), oracles) == if oracles.contains_key(key)
            && oracles[key].is_active {
            active_among(list, oracles).push(oracles[key])
        } else {
            active_among(list, oracles)
        },
{
    reveal(Seq::filter);
    assert(list.push(key).drop_last() =~= list);
    assert(active_among(list.push(key), oracles) =~= if oracles.contains_key(key)
        && oracles[key].is_active {
        active_among(list, oracles).push(oracles[key])
    } else {
        active_among(list, oracles)
    });
}

impl LedgerView {
    pub open spec fn initialize_error(
        self,
        default_fee_bps: u32,
        slash_penalty_bps: u32,
    ) -> Option<OracleMarketplaceError> {
        if self.storage.config is Some {
            Some(OracleMarketplaceError::AlreadyInitialized)
        } else if default_fee_bps > BPS_DENOMINATOR || slash_penalty_bps > BPS_DENOMINATOR {
            Some(OracleMarketplaceError::InvalidFee)
        } else {
            None
        }
    }

    pub open spec fn initialized(self, config: MarketplaceConfig) -> Self {
        LedgerView {
            storage: StorageView { config: Some(config), ..self.storage },
            calls: self.calls + seq![
                HostCall::RequireAuth(config.admin),
                HostCall::SetConfig(config),
            ],
            ..self
        }
    }

    pub open spec fn register_oracle_error(
        self,
        pubkey: BytesN<32>,
        fee_bps: u32,
        min_stake: i128,
        initial_bond: i128,
    ) -> Option<OracleMarketplaceError> {
        if self.storage.config is None {
            Some(OracleMarketplaceError::NotInitialized)
        } else if self.storage.oracles.contains_key(pubkey) {
            Some(OracleMarketplaceError::OracleAlreadyRegistered)
        } else if fee_bps > BPS_DENOMINATOR {
            Some(OracleMarketplaceError::InvalidFee)
        } else if min_stake <= 0 {
            Some(OracleMarketplaceError::InvalidBond)
        } else if initial_bond < min_stake {
            Some(OracleMarketplaceError::InsufficientStake)
        } else {
            None
        }
    }

    /// The record of a provider that registers now.
    pub open spec fn new_provider(
        self,
        provider: Address,
        pubkey: BytesN<32>,
        fee_bps: u32,
        min_stake: i128,
        initial_bond: i128,
        bond_token: Address,
    ) -> OracleProvider {
        OracleProvider {
            pubkey,
            address: provider,
            fee_bps,
            min_stake,
            staked_amount: initial_bond,
            bond_token,
            total_resolved: 0,
            total_disputes: 0,
            total_slashed: 0,
            is_active: true,
            registered_at: self.timestamp,
            deregister_after: None,
        }
    }

    /// A registration: the bond is pulled in before the provider is recorded.
    pub open spec fn registered(self, oracle: OracleProvider) -> Self {
        LedgerView {
            storage: StorageView {
                oracles: self.storage.oracles.insert(oracle.pubkey, oracle),
                oracle_list: self.storage.oracle_list.push(oracle.pubkey),
                ..self.storage
            },
            calls: self.calls + seq![
                HostCall::RequireAuth(oracle.address),
                transfer_of(
                    oracle.bond_token,
                    oracle.address,
                    self.contract,
                    oracle.staked_amount,
                ),
                HostCall::SetOracle { pubkey: oracle.pubkey, oracle },
                HostCall::AddToOracleList(oracle.pubkey),
                HostCall::Publish(
                    Event::OracleRegistered {
                        provider: oracle.address,
                        pubkey: oracle.pubkey,
                        fee_bps: oracle.fee_bps,
                    },
                ),
            ],
            ..self
        }
    }

    pub open spec fn deregister_oracle_error(
        self,
        provider: Address,
        pubkey: BytesN<32>,
    ) -> Option<OracleMarketplaceError> {
        let oracle = self.storage.oracles[pubkey];
        if self.storage.config is None {
            Some(OracleMarketplaceError::NotInitialized)
        } else if !self.storage.oracles.contains_key(pubkey) {
            Some(OracleMarketplaceError::OracleNotFound)
        } else if !oracle.is_active && cooling_down(oracle, self.timestamp) {
            Some(OracleMarketplaceError::CooldownActive)
        } else if !oracle.is_active {
            Some(OracleMarketplaceError::OracleNotActive)
        } else if oracle.address != provider {
            Some(OracleMarketplaceError::Unauthorized)
        } else if cooling_down(oracle, self.timestamp) {
            Some(OracleMarketplaceError::CooldownActive)
        } else {
            None
        }
    }

    /// When the cooldown of a provider that deregisters now ends.
    pub open spec fn cooldown_end(self) -> int {
        self.timestamp + self.storage.config->0.cooldown_secs
    }

    pub open spec fn deregistered(self, provider: Address, pubkey: BytesN<32>) -> Self {
        let oracle = OracleProvider {
            is_active: false,
            deregister_after: Some(self.cooldown_end() as u64),
            ..self.storage.oracles[pubkey]
        };
        LedgerView {
            storage: StorageView {
                oracles: self.storage.oracles.insert(pubkey, oracle),
                oracle_list: without(self.storage.oracle_list, pubkey),
                ..self.storage
            },
            calls: self.calls + seq![
                HostCall::RequireAuth(provider),
                HostCall::SetOracle { pubkey, oracle },
                HostCall::RemoveFromOracleList(pubkey),
                HostCall::Publish(Event::OracleDeregistered { provider, pubkey }),
            ],
            ..self
        }
    }

    pub open spec fn increase_bond_error(
        self,
        pubkey: BytesN<32>,
        amount: i128,
    ) -> Option<OracleMarketplaceError> {
        if amount <= 0 {
            Some(OracleMarketplaceError::InvalidBond)
        } else if !self.storage.oracles.contains_key(pubkey) {
            Some(OracleMarketplaceError::OracleNotFound)
        } else {
            None
        }
    }

    pub open spec fn bond_increased(
        self,
        pubkey: BytesN<32>,
        amount: i128,
        funder: Address,
    ) -> Self {
        let before = self.storage.oracles[pubkey];
        let oracle = OracleProvider {
            staked_amount: saturated(before.staked_amount + amount),
            ..before
        };
        LedgerView {
            storage: StorageView {
                oracles: self.storage.oracles.insert(pubkey, oracle),
                ..self.storage
            },
            calls: self.calls + seq![
                HostCall::RequireAuth(funder),
                transfer_of(before.bond_token, funder, self.contract, amount),
                HostCall::SetOracle { pubkey, oracle },
                HostCall::Publish(
                    Event::BondIncreased { pubkey, amount, total_stake: oracle.staked_amount },
                ),
            ],
            ..self
        }
    }

    pub open spec fn withdraw_bond_error(
        self,
        provider: Address,
        pubkey: BytesN<32>,
    ) -> Option<OracleMarketplaceError> {
        let oracle = self.storage.oracles[pubkey];
        if !self.storage.oracles.contains_key(pubkey) {
            Some(OracleMarketplaceError::OracleNotFound)
        } else if oracle.address != provider {
            Some(OracleMarketplaceError::Unauthorized)
        } else if oracle.is_active {
            Some(OracleMarketplaceError::OracleNotActive)
        } else if cooling_down(oracle, self.timestamp) {
            Some(OracleMarketplaceError::CooldownActive)
        } else if oracle.staked_amount <= 0 {
            Some(OracleMarketplaceError::InsufficientStake)
        } else {
            None
        }
    }

    /// A withdrawal: the stake is zeroed before it is paid out.
    pub open spec fn bond_withdrawn(self, provider: Address, pubkey: BytesN<32>) -> Self {
        let before = self.storage.oracles[pubkey];
        let oracle = OracleProvider { staked_amount: 0, ..before };
        let amount = before.staked_amount;
        LedgerView {
            storage: StorageView {
                oracles: self.storage.oracles.insert(pubkey, oracle),
                ..self.storage
            },
            calls: self.calls + seq![
                HostCall::RequireAuth(provider),
                HostCall::SetOracle { pubkey, oracle },
                transfer_of(before.bond_token, self.contract, provider, amount),
                HostCall::Publish(Event::BondWithdrawn { pubkey, provider, amount }),
            ],
            ..self
        }
    }

    pub open spec fn select_oracle_error(self, pubkey: BytesN<32>) -> Option<
        OracleMarketplaceError,
    > {
        if !self.storage.oracles.contains_key(pubkey) {
            Some(OracleMarketplaceError::OracleNotFound)
        } else if !self.storage.oracles[pubkey].is_active {
            Some(OracleMarketplaceError::OracleNotActive)
        } else {
            None
        }
    }

    pub open spec fn oracle_selected(self, call_id: u64, pubkey: BytesN<32>) -> Self {
        LedgerView {
            storage: StorageView {
                call_oracles: self.storage.call_oracles.insert(call_id, pubkey),
                ..self.storage
            },
            calls: self.calls + seq![
                HostCall::SetCallOracle { call_id, pubkey },
                HostCall::Publish(Event::OracleSelectedForCall { call_id, pubkey }),
            ],
            ..self
        }
    }

    pub open spec fn create_call_escrow_error(
        self,
        call_id: u64,
        pubkey: BytesN<32>,
        amount: i128,
    ) -> Option<OracleMarketplaceError> {
        if amount <= 0 {
            Some(OracleMarketplaceError::InvalidEscrowAmount)
        } else if self.storage.escrows.contains_key(call_id) {
            Some(OracleMarketplaceError::EscrowAlreadyExists)
        } else {
            self.select_oracle_error(pubkey)
        }
    }

    /// The escrow that is opened now.
    pub open spec fn new_escrow(
        self,
        call_id: u64,
        caller: Address,
        pubkey: BytesN<32>,
        amount: i128,
        token: Address,
    ) -> CallEscrow {
        CallEscrow {
            call_id,
            caller,
            oracle: pubkey,
            token,
            amount,
            created_at: self.timestamp,
            resolved: false,
            settled: false,
        }
    }

    /// An escrow: the call is bound to its provider and the whole bounty is
    /// pulled in.
    pub open spec fn escrow_created(self, escrow: CallEscrow) -> Self {
        LedgerView {
            storage: StorageView {
                call_oracles: self.storage.call_oracles.insert(escrow.call_id, escrow.oracle),
                escrows: self.storage.escrows.insert(escrow.call_id, escrow),
                ..self.storage
            },
            calls: self.calls + seq![
                HostCall::RequireAuth(escrow.caller),
                HostCall::SetCallOracle { call_id: escrow.call_id, pubkey: escrow.oracle },
                transfer_of(escrow.token, escrow.caller, self.contract, escrow.amount),
                HostCall::SetCallEscrow(escrow),
                HostCall::Publish(
                    Event::EscrowCreated {
                        call_id: escrow.call_id,
                        caller: escrow.caller,
                        pubkey: escrow.oracle,
                        amount: escrow.amount,
                    },
                ),
            ],
            ..self
        }
    }

    /// The provider that a call is bound to.
    pub open spec fn bound_oracle(self, call_id: u64) -> OracleProvider {
        self.storage.oracles[self.storage.call_oracles[call_id]]
    }

    pub open spec fn resolve_call_error(
        self,
        call_id: u64,
        provider: Address,
        resolution: Resolution,
    ) -> Option<OracleMarketplaceError> {
        let escrow = self.storage.escrows[call_id];
        let oracle = self.bound_oracle(call_id);
        if self.storage.config is None {
            Some(OracleMarketplaceError::NotInitialized)
        } else if !self.storage.escrows.contains_key(call_id) {
            Some(OracleMarketplaceError::CallNotFound)
        } else if escrow.resolved {
            Some(OracleMarketplaceError::EscrowAlreadyResolved)
        } else if !self.storage.call_oracles.contains_key(call_id) {
            Some(OracleMarketplaceError::OracleNotSelectedForCall)
        } else if !self.storage.oracles.contains_key(self.storage.call_oracles[call_id]) {
            Some(OracleMarketplaceError::OracleNotFound)
        } else if oracle.address != provider {
            Some(OracleMarketplaceError::NotSelectedOracle)
        } else if !oracle.is_active {
            Some(OracleMarketplaceError::OracleNotActive)
        } else if resolution == Resolution::Inaccurate && escrow.settled {
            Some(OracleMarketplaceError::EscrowAlreadyResolved)
        } else if resolution == Resolution::Inaccurate && slash_refused(
            self.storage.config->0,
            oracle,
        ) {
            Some(OracleMarketplaceError::SlashBelowMinStake)
        } else {
            None
        }
    }

    /// An accurate resolution: the escrow is settled before the provider and the
    /// admin are paid out of it.
    pub open spec fn resolved_accurate(self, call_id: u64, provider: Address) -> Self {
        let config = self.storage.config->0;
        let escrow = self.storage.escrows[call_id];
        let oracle = self.bound_oracle(call_id);
        let (provider_cut, admin_cut) = bounty_split(escrow, oracle);
        let earnings = saturated(self.storage.earnings_of(oracle.pubkey) + provider_cut);
        LedgerView {
            storage: StorageView {
                oracles: self.storage.oracles.insert(oracle.pubkey, credited(oracle)),
                escrows: self.storage.escrows.insert(escrow.call_id, settled(escrow)),
                earnings: self.storage.earnings.insert(oracle.pubkey, earnings),
                ..self.storage
            },
            calls: self.calls + seq![
                HostCall::RequireAuth(provider),
                HostCall::SetCallEscrow(settled(escrow)),
            ] + payment(escrow.token, self.contract, oracle.address, provider_cut) + payment(
                escrow.token,
                self.contract,
                config.admin,
                admin_cut,
            ) + seq![
                HostCall::SetOracleEarnings { pubkey: oracle.pubkey, earnings },
                HostCall::SetOracle { pubkey: oracle.pubkey, oracle: credited(oracle) },
                HostCall::Publish(
                    Event::EscrowSettled {
                        call_id,
                        pubkey: oracle.pubkey,
                        provider_amount: provider_cut,
                        fee_amount: admin_cut,
                    },
                ),
            ],
            ..self
        }
    }

    /// The host calls by which a bond is slashed: the smaller stake is recorded
    /// before the slashed amount is paid out.
    pub open spec fn slash_calls(self, call_id: u64) -> Seq<HostCall> {
        let config = self.storage.config->0;
        let escrow = self.storage.escrows[call_id];
        let oracle = self.bound_oracle(call_id);
        let slashed = slash_amount(config, oracle);
        let (caller_share, admin_share) = slash_split(config, slashed);
        let record = HostCall::SetOracle {
            pubkey: oracle.pubkey,
            oracle: disputed(config, oracle),
        };
        if slashed > 0 {
            seq![
                record,
                transfer_of(oracle.bond_token, self.contract, escrow.caller, caller_share),
                transfer_of(oracle.bond_token, self.contract, config.admin, admin_share),
                HostCall::Publish(
                    Event::BondSlashed {
                        pubkey: oracle.pubkey,
                        caller: escrow.caller,
                        slashed,
                        remaining_stake: remaining_stake(config, oracle),
                    },
                ),
            ]
        } else {
            seq![record]
        }
    }

    /// An inaccurate resolution: the bounty goes back to the caller in full, and
    /// the provider's bond is slashed.
    pub open spec fn resolved_inaccurate(self, call_id: u64, provider: Address) -> Self {
        let config = self.storage.config->0;
        let escrow = self.storage.escrows[call_id];
        let oracle = self.bound_oracle(call_id);
        LedgerView {
            storage: StorageView {
                oracles: self.storage.oracles.insert(oracle.pubkey, disputed(config, oracle)),
                escrows: self.storage.escrows.insert(escrow.call_id, settled(escrow)),
                ..self.storage
            },
            calls: self.calls + seq![
                HostCall::RequireAuth(provider),
                HostCall::SetCallEscrow(settled(escrow)),
            ] + payment(escrow.token, self.contract, escrow.caller, escrow.amount)
                + self.slash_calls(call_id),
            ..self
        }
    }

    pub open spec fn resolved(
        self,
        call_id: u64,
        provider: Address,
        resolution: Resolution,
    ) -> Self {
        match resolution {
            Resolution::Accurate => self.resolved_accurate(call_id, provider),
            Resolution::Inaccurate => self.resolved_inaccurate(call_id, provider),
        }
    }

    pub open spec fn rate_oracle_error(
        self,
        user: Address,
        pubkey: BytesN<32>,
    ) -> Option<OracleMarketplaceError> {
        if !self.storage.oracles.contains_key(pubkey) {
            Some(OracleMarketplaceError::OracleNotFound)
        } else if self.storage.ratings.contains_key((pubkey, user)) {
            Some(OracleMarketplaceError::AlreadyRated)
        } else {
            None
        }
    }

    pub open spec fn rated(self, user: Address, pubkey: BytesN<32>, satisfied: bool) -> Self {
        LedgerView {
            storage: StorageView {
                ratings: self.storage.ratings.insert((pubkey, user), satisfied),
                ..self.storage
            },
            calls: self.calls + seq![
                HostCall::RequireAuth(user),
                HostCall::SetOracleRating { pubkey, user, satisfied },
                HostCall::Publish(Event::OracleRated { pubkey, user, satisfied }),
            ],
            ..self
        }
    }

    /// The providers on offer, in the order of registration.
    pub open spec fn available_oracles(self) -> Seq<OracleProvider> {
        active_among(self.storage.oracle_list, self.storage.oracles)
    }
}

} // verus!
