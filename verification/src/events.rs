//! The events that the marketplace publishes.
use vstd::prelude::*;

use crate::host::HostCall;
use crate::ledger::Ledger;
use crate::types::{Address, BytesN};

verus! {

/// First topic of every event.
pub const EVENT_NAMESPACE: &'static str = "oracle_marketplace";

/// A published event. Its second topic is its name, its data are the fields in
/// order.
#[derive(Clone, Copy, Debug, PartialEq)]
pub enum Event {
    OracleRegistered { provider: Address, pubkey: BytesN<32>, fee_bps: u32 },
    OracleDeregistered { provider: Address, pubkey: BytesN<32> },
    OracleSelectedForCall { call_id: u64, pubkey: BytesN<32> },
    OracleRated { pubkey: BytesN<32>, user: Address, satisfied: bool },
    EscrowCreated { call_id: u64, caller: Address, pubkey: BytesN<32>, amount: i128 },
    EscrowSettled {
        call_id: u64,
        pubkey: BytesN<32>,
        provider_amount: i128,
        fee_amount: i128,
    },
    BondSlashed {
        pubkey: BytesN<32>,
        caller: Address,
        slashed: i128,
        remaining_stake: i128,
    },
    BondIncreased { pubkey: BytesN<32>, amount: i128, total_stake: i128 },
    BondWithdrawn { pubkey: BytesN<32>, provider: Address, amount: i128 },
}

impl Event {
    /// Second topic of the event.
    pub open spec fn spec_name(self) -> Seq<char> {
        match self {
            Event::OracleRegistered { .. } => "OracleRegistered"@,
            Event::OracleDeregistered { .. } => "OracleDeregistered"@,
            Event::OracleSelectedForCall { .. } => "OracleSelectedForCall"@,
            Event::OracleRated { .. } => "OracleRated"@,
            Event::EscrowCreated { .. } => "EscrowCreated"@,
            Event::EscrowSettled { .. } => "EscrowSettled"@,
            Event::BondSlashed { .. } => "BondSlashed"@,
            Event::BondIncreased { .. } => "BondIncreased"@,
            Event::BondWithdrawn { .. } => "BondWithdrawn"@,
        }
    }

    /// Second topic of the event.
    pub fn name(&self) -> (name: &'static str)
        ensures
            name@ == self.spec_name(),
    {
        match self {
            Event::OracleRegistered { .. } => "OracleRegistered",
            Event::OracleDeregistered { .. } => "OracleDeregistered",
            Event::OracleSelectedForCall { .. } => "OracleSelectedForCall",
            Event::OracleRated { .. } => "OracleRated",
            Event::EscrowCreated { .. } => "EscrowCreated",
            Event::EscrowSettled { .. } => "EscrowSettled",
            Event::BondSlashed { .. } => "BondSlashed",
            Event::BondIncreased { .. } => "BondIncreased",
            Event::BondWithdrawn { .. } => "BondWithdrawn",
        }
    }
}

pub fn emit_oracle_registered(
    ledger: &mut Ledger,
    provider: &Address,
    pubkey: &BytesN<32>,
    fee_bps: u32,
)
    requires
        old(ledger).wf(),
    ensures
        final(ledger).wf(),
        final(ledger)@ == old(ledger)@.perform(
            HostCall::Publish(
                Event::OracleRegistered { provider: *provider, pubkey: *pubkey, fee_bps },
            ),
        ),
{
    ledger.perform(
        HostCall::Publish(
            Event::OracleRegistered { provider: *provider, pubkey: *pubkey, fee_bps },
        ),
    );
}

pub fn emit_oracle_deregistered(ledger: &mut Ledger, provider: &Address, pubkey: &BytesN<32>)
    requires
        old(ledger).wf(),
    ensures
        final(ledger).wf(),
        final(ledger)@ == old(ledger)@.perform(
            HostCall::Publish(Event::OracleDeregistered { provider: *provider, pubkey: *pubkey }),
        ),
{
    ledger.perform(
        HostCall::Publish(Event::OracleDeregistered { provider: *provider, pubkey: *pubkey }),
    );
}

pub fn emit_oracle_selected(ledger: &mut Ledger, call_id: u64, pubkey: &BytesN<32>)
    requires
        old(ledger).wf(),
    ensures
        final(ledger).wf(),
        final(ledger)@ == old(ledger)@.perform(
            HostCall::Publish(Event::OracleSelectedForCall { call_id, pubkey: *pubkey }),
        ),
{
    ledger.perform(
        HostCall::Publish(Event::OracleSelectedForCall { call_id, pubkey: *pubkey }),
    );
}

pub fn emit_oracle_rated(
    ledger: &mut Ledger,
    pubkey: &BytesN<32>,
    user: &Address,
    satisfied: bool,
)
    requires
        old(ledger).wf(),
    ensures
        final(ledger).wf(),
        final(ledger)@ == old(ledger)@.perform(
            HostCall::Publish(
                Event::OracleRated { pubkey: *pubkey, user: *user, satisfied },
            ),
        ),
{
    ledger.perform(
        HostCall::Publish(Event::OracleRated { pubkey: *pubkey, user: *user, satisfied }),
    );
}

/// A caller locked a bounty for a call.
pub fn emit_escrow_created(
    ledger: &mut Ledger,
    call_id: u64,
    caller: &Address,
    pubkey: &BytesN<32>,
    amount: i128,
)
    requires
        old(ledger).wf(),
    ensures
        final(ledger).wf(),
        final(ledger)@ == old(ledger)@.perform(
            HostCall::Publish(
                Event::EscrowCreated { call_id, caller: *caller, pubkey: *pubkey, amount },
            ),
        ),
{
    ledger.perform(
        HostCall::Publish(
            Event::EscrowCreated { call_id, caller: *caller, pubkey: *pubkey, amount },
        ),
    );
}

/// An escrowed bounty was paid out to the provider that answered correctly.
pub fn emit_escrow_settled(
    ledger: &mut Ledger,
    call_id: u64,
    pubkey: &BytesN<32>,
    provider_amount: i128,
    fee_amount: i128,
)
    requires
        old(ledger).wf(),
    ensures
        final(ledger).wf(),
        final(ledger)@ == old(ledger)@.perform(
            HostCall::Publish(
                Event::EscrowSettled { call_id, pubkey: *pubkey, provider_amount, fee_amount },
            ),
        ),
{
    ledger.perform(
        HostCall::Publish(
            Event::EscrowSettled { call_id, pubkey: *pubkey, provider_amount, fee_amount },
        ),
    );
}

/// A provider answered inaccurately; part of their bond was slashed.
pub fn emit_bond_slashed(
    ledger: &mut Ledger,
    pubkey: &BytesN<32>,
    caller: &Address,
    slashed: i128,
    remaining_stake: i128,
)
    requires
        old(ledger).wf(),
    ensures
        final(ledger).wf(),
        final(ledger)@ == old(ledger)@.perform(
            HostCall::Publish(
                Event::BondSlashed { pubkey: *pubkey, caller: *caller, slashed, remaining_stake },
            ),
        ),
{
    ledger.perform(
        HostCall::Publish(
            Event::BondSlashed { pubkey: *pubkey, caller: *caller, slashed, remaining_stake },
        ),
    );
}

/// A provider topped their bond back up.
pub fn emit_bond_increased(
    ledger: &mut Ledger,
    pubkey: &BytesN<32>,
    amount: i128,
    total_stake: i128,
)
    requires
        old(ledger).wf(),
    ensures
        final(ledger).wf(),
        final(ledger)@ == old(ledger)@.perform(
            HostCall::Publish(Event::BondIncreased { pubkey: *pubkey, amount, total_stake }),
        ),
{
    ledger.perform(
        HostCall::Publish(Event::BondIncreased { pubkey: *pubkey, amount, total_stake }),
    );
}

/// A provider withdrew bond after deregistering (subject to the cooldown).
pub fn emit_bond_withdrawn(
    ledger: &mut Ledger,
    pubkey: &BytesN<32>,
    provider: &Address,
    amount: i128,
)
    requires
        old(ledger).wf(),
    ensures
        final(ledger).wf(),
        final(ledger)@ == old(ledger)@.perform(
            HostCall::Publish(
                Event::BondWithdrawn { pubkey: *pubkey, provider: *provider, amount },
            ),
        ),
{
    ledger.perform(
        HostCall::Publish(
            Event::BondWithdrawn { pubkey: *pubkey, provider: *provider, amount },
        ),
    );
}

} // verus!
