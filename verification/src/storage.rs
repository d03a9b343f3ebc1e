//! The contract's storage: what it keeps between invocations, and the reads and
//! writes of it.
use vstd::prelude::*;

use crate::host::HostCall;
use crate::ledger::Ledger;
use crate::table::Table;
use crate::types::{Address, BytesN, CallEscrow, MarketplaceConfig, OracleProvider};

verus! {

/// What the contract keeps between invocations.
#[verifier::ext_equal]
pub struct StorageView {
    pub config: Option<MarketplaceConfig>,
    pub oracles: Map<BytesN<32>, OracleProvider>,
    /// Keys of the providers that are on offer, in the order of registration.
    pub oracle_list: Seq<BytesN<32>>,
    /// The provider that each call is bound to.
    pub call_oracles: Map<u64, BytesN<32>>,
    pub escrows: Map<u64, CallEscrow>,
    pub earnings: Map<BytesN<32>, i128>,
    /// Each user's rating of a provider.
    pub ratings: Map<(BytesN<32>, Address), bool>,
}

impl StorageView {
    pub open spec fn empty() -> Self {
        StorageView {
            config: None,
            oracles: Map::empty(),
            oracle_list: Seq::empty(),
            call_oracles: Map::empty(),
            escrows: Map::empty(),
            earnings: Map::empty(),
            ratings: Map::empty(),
        }
    }

    /// Storage after a host call. Only the writes change it.
    pub open spec fn apply(self, call: HostCall) -> Self {
        match call {
            HostCall::SetConfig(config) => StorageView { config: Some(config), ..self },
            HostCall::SetOracle { pubkey, oracle } => StorageView {
                oracles: self.oracles.insert(pubkey, oracle),
                ..self
            },
            HostCall::AddToOracleList(pubkey) => StorageView {
                oracle_list: self.oracle_list.push(pubkey),
                ..self
            },
            HostCall::RemoveFromOracleList(pubkey) => StorageView {
                oracle_list: without(self.oracle_list, pubkey),
                ..self
            },
            HostCall::SetCallOracle { call_id, pubkey } => StorageView {
                call_oracles: self.call_oracles.insert(call_id, pubkey),
                ..self
            },
            HostCall::SetCallEscrow(escrow) => StorageView {
                escrows: self.escrows.insert(escrow.call_id, escrow),
                ..self
            },
            HostCall::SetOracleEarnings { pubkey, earnings } => StorageView {
                earnings: self.earnings.insert(pubkey, earnings),
                ..self
            },
            HostCall::SetOracleRating { pubkey, user, satisfied } => StorageView {
                ratings: self.ratings.insert((pubkey, user), satisfied),
                ..self
            },
            HostCall::RequireAuth(_) | HostCall::Transfer(_) | HostCall::Publish(_) => self,
        }
    }

    /// Storage after a sequence of host calls.
    pub open spec fn replay(self, calls: Seq<HostCall>) -> Self
        decreases calls.len(),
    {
        if calls.len() == 0 {
            self
        } else {
            self.replay(calls.drop_last()).apply(calls.last())
        }
    }

    /// A provider's earnings; nothing before the first payout.
    pub open spec fn earnings_of(self, pubkey: BytesN<32>) -> i128 {
        if self.earnings.contains_key(pubkey) {
            self.earnings[pubkey]
        } else {
            0
        }
    }
}

/// `list` with every occurrence of `key` taken out.
pub open spec fn without(list: Seq<BytesN<32>>, key: BytesN<32>) -> Seq<BytesN<32>> {
    list.filter(|other: BytesN<32>| other != key)
}

/// The contract's storage.
pub struct Storage {
    config: Option<MarketplaceConfig>,
    oracles: Table<BytesN<32>, OracleProvider>,
    oracle_list: Vec<BytesN<32>>,
    call_oracles: Table<u64, BytesN<32>>,
    escrows: Table<u64, CallEscrow>,
    earnings: Table<BytesN<32>, i128>,
    ratings: Table<(BytesN<32>, Address), bool>,
}

impl View for Storage {
    type V = StorageView;

    closed spec fn view(&self) -> StorageView {
        StorageView {
            config: self.config,
            oracles: self.oracles@,
            oracle_list: self.oracle_list@,
            call_oracles: self.call_oracles@,
            escrows: self.escrows@,
            earnings: self.earnings@,
            ratings: self.ratings@,
        }
    }
}

impl Storage {
    pub closed spec fn wf(&self) -> bool {
        &&& self.oracles.wf()
        &&& self.call_oracles.wf()
        &&& self.escrows.wf()
        &&& self.earnings.wf()
        &&& self.ratings.wf()
    }

    /// Storage of a contract that nothing was written to.
    pub fn new() -> (storage: Self)
        ensures
            storage.wf(),
            storage@ == StorageView::empty(),
    {
        let storage = Storage {
            config: None,
            oracles: Table::new(),
            oracle_list: Vec::new(),
            call_oracles: Table::new(),
            escrows: Table::new(),
            earnings: Table::new(),
            ratings: Table::new(),
        };
        assert(storage@ =~= StorageView::empty());
        storage
    }

    /// Makes the write that a host call asks for.
    pub fn apply(&mut self, call: &HostCall)
        requires
            old(self).wf(),
        ensures
            final(self).wf(),
            final(self)@ == old(self)@.apply(*call),
    {
        match call {
            HostCall::SetConfig(config) => {
                self.config = Some(*config);
            },
            HostCall::SetOracle { pubkey, oracle } => {
                self.oracles.put(*pubkey, *oracle);
            },
            HostCall::AddToOracleList(pubkey) => {
                self.oracle_list.push(*pubkey);
            },
            HostCall::RemoveFromOracleList(pubkey) => {
                self.oracle_list = list_without(&self.oracle_list, pubkey);
            },
            HostCall::SetCallOracle { call_id, pubkey } => {
                self.call_oracles.put(*call_id, *pubkey);
            },
            HostCall::SetCallEscrow(escrow) => {
                self.escrows.put(escrow.call_id, *escrow);
            },
            HostCall::SetOracleEarnings { pubkey, earnings } => {
                self.earnings.put(*pubkey, *earnings);
            },
            HostCall::SetOracleRating { pubkey, user, satisfied } => {
                self.ratings.put((*pubkey, *user), *satisfied);
            },
            HostCall::RequireAuth(_) | HostCall::Transfer(_) | HostCall::Publish(_) => {},
        }
        assert(self@ =~= old(self)@.apply(*call));
    }
}

/// Taking a key out of a longer list.
pub proof fn lemma_without_push(list: Seq<BytesN<32>>, last: BytesN<32>, key: BytesN<32>)
    ensures
        without(list.push(last), key) == if last != key {
            without(list, key).push(last)
        } else {
            without(list, key)
        },
{
    reveal(Seq::filter);
    assert(list.push(last).drop_last() =~= list);
}

fn list_without(list: &Vec<BytesN<32>>, key: &BytesN<32>) -> (rest: Vec<BytesN<32>>)
    ensures
        rest@ == without(list@, *key),
{
    let mut rest: Vec<BytesN<32>> = Vec::new();
    let mut i: usize = 0;
    proof {
        reveal(Seq::filter);
    }
    while i < list.len()
        invariant
            i <= list.len(),
            rest@ == without(list@.take(i as int), *key),
        decreases list.len() - i,
    {
        proof {
            lemma_without_push(list@.take(i as int), list@[i as int], *key);
            assert(list@.take(i + 1) =~= list@.take(i as int).push(list@[i as int]));
        }
        if list[i] != *key {
            rest.push(list[i]);
        }
        i += 1;
    }
    assert(list@.take(list@.len() as int) =~= list@);
    rest
}

pub fn get_config(ledger: &Ledger) -> (config: Option<MarketplaceConfig>)
    requires
        ledger.wf(),
    ensures
        config == ledger@.storage.config,
{
    ledger.storage().config
}

pub fn set_config(ledger: &mut Ledger, config: &MarketplaceConfig)
    requires
        old(ledger).wf(),
    ensures
        final(ledger).wf(),
        final(ledger)@ == old(ledger)@.perform(HostCall::SetConfig(*config)),
{
    ledger.perform(HostCall::SetConfig(*config));
}

pub fn get_oracle(ledger: &Ledger, pubkey: &BytesN<32>) -> (oracle: Option<OracleProvider>)
    requires
        ledger.wf(),
    ensures
        oracle == ledger@.storage.oracles.get(*pubkey),
{
    ledger.storage().oracles.get(pubkey)
}

pub fn set_oracle(ledger: &mut Ledger, pubkey: &BytesN<32>, oracle: &OracleProvider)
    requires
        old(ledger).wf(),
    ensures
        final(ledger).wf(),
        final(ledger)@ == old(ledger)@.perform(
            HostCall::SetOracle { pubkey: *pubkey, oracle: *oracle },
        ),
{
    ledger.perform(HostCall::SetOracle { pubkey: *pubkey, oracle: *oracle });
}

/// The keys of the providers on offer.
pub fn get_oracle_list(ledger: &Ledger) -> (list: &Vec<BytesN<32>>)
    requires
        ledger.wf(),
    ensures
        list@ == ledger@.storage.oracle_list,
{
    &ledger.storage().oracle_list
}

pub fn add_to_oracle_list(ledger: &mut Ledger, pubkey: &BytesN<32>)
    requires
        old(ledger).wf(),
    ensures
        final(ledger).wf(),
        final(ledger)@ == old(ledger)@.perform(HostCall::AddToOracleList(*pubkey)),
{
    ledger.perform(HostCall::AddToOracleList(*pubkey));
}

pub fn remove_from_oracle_list(ledger: &mut Ledger, pubkey: &BytesN<32>)
    requires
        old(ledger).wf(),
    ensures
        final(ledger).wf(),
        final(ledger)@ == old(ledger)@.perform(HostCall::RemoveFromOracleList(*pubkey)),
{
    ledger.perform(HostCall::RemoveFromOracleList(*pubkey));
}

pub fn get_call_oracle(ledger: &Ledger, call_id: u64) -> (oracle: Option<BytesN<32>>)
    requires
        ledger.wf(),
    ensures
        oracle == ledger@.storage.call_oracles.get(call_id),
{
    ledger.storage().call_oracles.get(&call_id)
}

pub fn set_call_oracle(ledger: &mut Ledger, call_id: u64, pubkey: &BytesN<32>)
    requires
        old(ledger).wf(),
    ensures
        final(ledger).wf(),
        final(ledger)@ == old(ledger)@.perform(
            HostCall::SetCallOracle { call_id, pubkey: *pubkey },
        ),
{
    ledger.perform(HostCall::SetCallOracle { call_id, pubkey: *pubkey });
}

pub fn get_call_escrow(ledger: &Ledger, call_id: u64) -> (escrow: Option<CallEscrow>)
    requires
        ledger.wf(),
    ensures
        escrow == ledger@.storage.escrows.get(call_id),
{
    ledger.storage().escrows.get(&call_id)
}

pub fn set_call_escrow(ledger: &mut Ledger, escrow: &CallEscrow)
    requires
        old(ledger).wf(),
    ensures
        final(ledger).wf(),
        final(ledger)@ == old(ledger)@.perform(HostCall::SetCallEscrow(*escrow)),
{
    ledger.perform(HostCall::SetCallEscrow(*escrow));
}

pub fn get_oracle_earnings(ledger: &Ledger, pubkey: &BytesN<32>) -> (earnings: i128)
    requires
        ledger.wf(),
    ensures
        earnings == ledger@.storage.earnings_of(*pubkey),
        earnings == match ledger@.storage.earnings.get(*pubkey) {
            Some(earned) => earned,
            None => 0,
        },
{
    match ledger.storage().earnings.get(pubkey) {
        Some(earnings) => earnings,
        None => 0,
    }
}

pub fn set_oracle_earnings(ledger: &mut Ledger, pubkey: &BytesN<32>, earnings: i128)
    requires
        old(ledger).wf(),
    ensures
        final(ledger).wf(),
        final(ledger)@ == old(ledger)@.perform(
            HostCall::SetOracleEarnings { pubkey: *pubkey, earnings },
        ),
{
    ledger.perform(HostCall::SetOracleEarnings { pubkey: *pubkey, earnings });
}

/// A user's rating of a provider, if they left one.
pub fn get_oracle_rating(ledger: &Ledger, pubkey: &BytesN<32>, user: &Address) -> (rating: Option<
    bool,
>)
    requires
        ledger.wf(),
    ensures
        rating == ledger@.storage.ratings.get((*pubkey, *user)),
{
    ledger.storage().ratings.get(&(*pubkey, *user))
}

pub fn set_oracle_rating(
    ledger: &mut Ledger,
    pubkey: &BytesN<32>,
    user: &Address,
    satisfied: bool,
)
    requires
        old(ledger).wf(),
    ensures
        final(ledger).wf(),
        final(ledger)@ == old(ledger)@.perform(
            HostCall::SetOracleRating { pubkey: *pubkey, user: *user, satisfied },
        ),
{
    ledger.perform(HostCall::SetOracleRating { pubkey: *pubkey, user: *user, satisfied });
}

} // verus!
