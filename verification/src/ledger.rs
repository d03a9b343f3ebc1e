//! The ledger as an invocation of the contract sees it.
use vstd::prelude::*;

use crate::host::HostCall;
use crate::storage::{Storage, StorageView};
use crate::types::Address;

verus! {

/// The handle to the host, the contract's address, the ledger time, the
/// contract's storage, and every host call made so far.
#[verifier::ext_equal]
pub struct LedgerView {
    pub host: soroban_sdk::Env,
    pub contract: Address,
    pub timestamp: u64,
    pub storage: StorageView,
    pub calls: Seq<HostCall>,
}

impl LedgerView {
    /// The ledger after one more host call.
    pub open spec fn perform(self, call: HostCall) -> Self {
        LedgerView { storage: self.storage.apply(call), calls: self.calls.push(call), ..self }
    }

    /// The ledger once an address has been asked to authorize the invocation.
    pub open spec fn authorized_by(self, address: Address) -> Self {
        self.perform(HostCall::RequireAuth(address))
    }
}

/// The ledger as an invocation of the contract sees it: the contract's address,
/// the ledger time, the contract's storage, and the host calls made so far.
///
/// The host calls are what the surrounding program performs, in order. Storage
/// is kept up to date with the writes among them.
pub struct Ledger {
    host: soroban_sdk::Env,
    contract: Address,
    timestamp: u64,
    storage: Storage,
    calls: Vec<HostCall>,
}

impl View for Ledger {
    type V = LedgerView;

    closed spec fn view(&self) -> LedgerView {
        LedgerView {
            host: self.host,
            contract: self.contract,
            timestamp: self.timestamp,
            storage: self.storage@,
            calls: self.calls@,
        }
    }
}

impl Ledger {
    pub closed spec fn wf(&self) -> bool {
        self.storage.wf()
    }

    /// The ledger before the first host call.
    pub fn new(
        host: soroban_sdk::Env,
        contract: Address,
        timestamp: u64,
        storage: Storage,
    ) -> (ledger: Self)
        requires
            storage.wf(),
        ensures
            ledger.wf(),
            ledger@ == (LedgerView {
                host,
                contract,
                timestamp,
                storage: storage@,
                calls: Seq::empty(),
            }),
    {
        Ledger { host, contract, timestamp, storage, calls: Vec::new() }
    }

    /// The handle to the host that the ledger was made with.
    pub(crate) fn host(&self) -> (host: &soroban_sdk::Env)
        ensures
            *host == self@.host,
    {
        &self.host
    }

    pub fn current_contract_address(&self) -> (contract: Address)
        ensures
            contract == self@.contract,
    {
        self.contract
    }

    pub fn timestamp(&self) -> (timestamp: u64)
        ensures
            timestamp == self@.timestamp,
    {
        self.timestamp
    }

    /// Moves the ledger to another time.
    pub fn set_timestamp(&mut self, timestamp: u64)
        requires
            old(self).wf(),
        ensures
            final(self).wf(),
            final(self)@ == (LedgerView { timestamp, ..old(self)@ }),
    {
        self.timestamp = timestamp;
    }

    pub fn storage(&self) -> (storage: &Storage)
        requires
            self.wf(),
        ensures
            storage.wf(),
            storage@ == self@.storage,
    {
        &self.storage
    }

    /// The host calls made so far, in order.
    pub fn calls(&self) -> (calls: &Vec<HostCall>)
        ensures
            calls@ == self@.calls,
    {
        &self.calls
    }

    /// Makes a host call.
    pub fn perform(&mut self, call: HostCall)
        requires
            old(self).wf(),
        ensures
            final(self).wf(),
            final(self)@ == old(self)@.perform(call),
    {
        self.storage.apply(&call);
        self.calls.push(call);
    }

    /// Asks that an address has authorized the invocation.
    pub fn require_auth(&mut self, address: &Address)
        requires
            old(self).wf(),
        ensures
            final(self).wf(),
            final(self)@ == old(self)@.authorized_by(*address),
    {
        self.perform(HostCall::RequireAuth(*address));
    }
}

} // verus!
