//! The requests that change the ledger, taken together: what each one does to
//! the ledger, granted or refused, and what a history of them leads to.
use vstd::prelude::*;

use crate::errors::OracleMarketplaceError;
use crate::host::HostCall;
use crate::ledger::LedgerView;
use crate::types::{Address, BytesN, MarketplaceConfig, Resolution};

verus! {

/// A request to the marketplace, or the passing of time.
pub enum Request {
    Initialize { config: MarketplaceConfig },
    RegisterOracle {
        provider: Address,
        pubkey: BytesN<32>,
        fee_bps: u32,
        min_stake: i128,
        initial_bond: i128,
        bond_token: Address,
    },
    DeregisterOracle { provider: Address, pubkey: BytesN<32> },
    IncreaseBond { pubkey: BytesN<32>, amount: i128, funder: Address },
    WithdrawBond { provider: Address, pubkey: BytesN<32> },
    SelectOracle { call_id: u64, pubkey: BytesN<32> },
    CreateCallEscrow {
        call_id: u64,
        caller: Address,
        pubkey: BytesN<32>,
        amount: i128,
        token: Address,
    },
    ResolveCall { call_id: u64, provider: Address, resolution: Resolution },
    RateOracle { user: Address, pubkey: BytesN<32>, satisfied: bool },
    SetTime { timestamp: u64 },
}

impl Request {
    /// The party whose authorization a request needs. Selecting an oracle needs
    /// nobody's.
    pub open spec fn requester(self) -> Option<Address> {
        match self {
            Request::Initialize { config } => Some(config.admin),
            Request::RegisterOracle { provider, .. } => Some(provider),
            Request::DeregisterOracle { provider, .. } => Some(provider),
            Request::IncreaseBond { funder, .. } => Some(funder),
            Request::WithdrawBond { provider, .. } => Some(provider),
            Request::SelectOracle { .. } => None,
            Request::CreateCallEscrow { caller, .. } => Some(caller),
            Request::ResolveCall { provider, .. } => Some(provider),
            Request::RateOracle { user, .. } => Some(user),
            Request::SetTime { .. } => None,
        }
    }

    /// The party that a request takes tokens from, where it takes any.
    pub open spec fn payer(self) -> Option<Address> {
        match self {
            Request::RegisterOracle { provider, .. } => Some(provider),
            Request::IncreaseBond { funder, .. } => Some(funder),
            Request::CreateCallEscrow { caller, .. } => Some(caller),
            _ => None,
        }
    }
}

impl LedgerView {
    /// Why a request is refused, if it is.
    pub open spec fn error(self, request: Request) -> Option<OracleMarketplaceError> {
        match request {
            Request::Initialize { config } => self.initialize_error(
                config.default_fee_bps,
                config.slash_penalty_bps,
            ),
            Request::RegisterOracle { pubkey, fee_bps, min_stake, initial_bond, .. } => {
                self.register_oracle_error(pubkey, fee_bps, min_stake, initial_bond)
            },
            Request::DeregisterOracle { provider, pubkey } => self.deregister_oracle_error(
                provider,
                pubkey,
            ),
            Request::IncreaseBond { pubkey, amount, .. } => self.increase_bond_error(
                pubkey,
                amount,
            ),
            Request::WithdrawBond { provider, pubkey } => self.withdraw_bond_error(
                provider,
                pubkey,
            ),
            Request::SelectOracle { pubkey, .. } => self.select_oracle_error(pubkey),
            Request::CreateCallEscrow { call_id, pubkey, amount, .. } => {
                self.create_call_escrow_error(call_id, pubkey, amount)
            },
            Request::ResolveCall { call_id, provider, resolution } => self.resolve_call_error(
                call_id,
                provider,
                resolution,
            ),
            Request::RateOracle { user, pubkey, .. } => self.rate_oracle_error(user, pubkey),
            Request::SetTime { .. } => None,
        }
    }

    /// The ledger after a request that is granted.
    pub open spec fn granted(self, request: Request) -> Self {
        match request {
            Request::Initialize { config } => self.initialized(config),
            Request::RegisterOracle {
                provider,
                pubkey,
                fee_bps,
                min_stake,
                initial_bond,
                bond_token,
            } => self.registered(
                self.new_provider(provider, pubkey, fee_bps, min_stake, initial_bond, bond_token),
            ),
            Request::DeregisterOracle { provider, pubkey } => self.deregistered(provider, pubkey),
            Request::IncreaseBond { pubkey, amount, funder } => self.bond_increased(
                pubkey,
                amount,
                funder,
            ),
            Request::WithdrawBond { provider, pubkey } => self.bond_withdrawn(provider, pubkey),
            Request::SelectOracle { call_id, pubkey } => self.oracle_selected(call_id, pubkey),
            Request::CreateCallEscrow { call_id, caller, pubkey, amount, token } => {
                self.escrow_created(self.new_escrow(call_id, caller, pubkey, amount, token))
            },
            Request::ResolveCall { call_id, provider, resolution } => self.resolved(
                call_id,
                provider,
                resolution,
            ),
            Request::RateOracle { user, pubkey, satisfied } => self.rated(user, pubkey, satisfied),
            Request::SetTime { timestamp } => LedgerView { timestamp, ..self },
        }
    }

    /// The ledger after a request that is refused with `error`.
    pub open spec fn refused(self, request: Request, error: OracleMarketplaceError) -> Self {
        if error == OracleMarketplaceError::AlreadyInitialized {
            self
        } else {
            match request.requester() {
                Some(requester) => self.authorized_by(requester),
                None => self,
            }
        }
    }

    /// The ledger after a request.
    pub open spec fn submit(self, request: Request) -> Self {
        match self.error(request) {
            Some(error) => self.refused(request, error),
            None => self.granted(request),
        }
    }

    /// Whether the contract can carry a request out: the end of a cooldown that
    /// it starts has to be a time that the ledger can reach.
    pub open spec fn feasible(self, request: Request) -> bool {
        request is DeregisterOracle && self.error(request) is None ==> self.cooldown_end()
            <= u64::MAX
    }

    /// The ledger after a history of requests.
    pub open spec fn run(self, history: Seq<Request>) -> Self
        decreases history.len(),
    {
        if history.len() == 0 {
            self
        } else {
            self.run(history.drop_last()).submit(history.last())
        }
    }

    /// Whether every request of a history can be carried out in its turn.
    pub open spec fn all_feasible(self, history: Seq<Request>) -> bool
        decreases history.len(),
    {
        history.len() == 0 || {
            &&& self.all_feasible(history.drop_last())
            &&& self.run(history.drop_last()).feasible(history.last())
        }
    }

    /// The host calls made since `before`.
    pub open spec fn calls_since(self, before: LedgerView) -> Seq<HostCall> {
        self.calls.skip(before.calls.len() as int)
    }
}

} // verus!
