//! Plain values that the marketplace records: identifiers, providers, ratings,
//! escrows and the configuration.
use vstd::prelude::*;
use vstd::std_specs::cmp::PartialEqSpecImpl;

verus! {

/// A byte string of fixed length. Data feeds are identified by the 32 bytes of
/// their public key.
#[derive(Clone, Copy, Debug)]
pub struct BytesN<const N: usize> {
    pub array: [u8; N],
}

impl<const N: usize> BytesN<N> {
    pub fn from_array(array: &[u8; N]) -> (bytes: Self)
        ensures
            bytes.array == *array,
    {
        BytesN { array: *array }
    }

    pub fn to_array(&self) -> (array: [u8; N])
        ensures
            array == self.array,
    {
        self.array
    }
}

impl<const N: usize> PartialEq for BytesN<N> {
    fn eq(&self, other: &Self) -> (equal: bool) {
        let mut i: usize = 0;
        while i < N
            invariant
                i <= N,
                forall|j: int| 0 <= j < i ==> self.array[j] == other.array[j],
            decreases N - i,
        {
            if self.array[i] != other.array[i] {
                return false;
            }
            i += 1;
        }
        assert(self.array =~= other.array);
        true
    }
}

impl<const N: usize> Eq for BytesN<N> {

}

impl<const N: usize> PartialEqSpecImpl for BytesN<N> {
    open spec fn obeys_eq_spec() -> bool {
        true
    }

    open spec fn eq_spec(&self, other: &Self) -> bool {
        *self == *other
    }
}

/// The identity of a party or of a token contract: a Stellar account, known by
/// its Ed25519 key, or a contract, known by its hash.
#[derive(Clone, Copy, Debug)]
pub enum Address {
    Account(BytesN<32>),
    Contract(BytesN<32>),
}

impl PartialEq for Address {
    fn eq(&self, other: &Self) -> (equal: bool) {
        match (self, other) {
            (Address::Account(a), Address::Account(b)) => *a == *b,
            (Address::Contract(a), Address::Contract(b)) => *a == *b,
            _ => false,
        }
    }
}

impl Eq for Address {

}

impl PartialEqSpecImpl for Address {
    open spec fn obeys_eq_spec() -> bool {
        true
    }

    open spec fn eq_spec(&self, other: &Self) -> bool {
        *self == *other
    }
}

/// A registered oracle provider.
///
/// `bond_token` is the asset the provider posts and can be slashed in;
/// `staked_amount` is the amount currently locked in escrow. `min_stake` is
/// the floor the provider must keep while active: a resolution that would push
/// the balance below it is rejected.
#[derive(Clone, Copy, Debug, PartialEq)]
pub struct OracleProvider {
    pub pubkey: BytesN<32>,
    pub address: Address,
    pub fee_bps: u32,
    pub min_stake: i128,
    pub staked_amount: i128,
    pub bond_token: Address,
    pub total_resolved: u64,
    pub total_disputes: u64,
    pub total_slashed: i128,
    pub is_active: bool,
    pub registered_at: u64,
    pub deregister_after: Option<u64>,
}

/// A single rating left by a consumer of an oracle call.
#[derive(Clone, Copy, Debug, PartialEq)]
pub struct OracleRating {
    pub oracle: BytesN<32>,
    pub user: Address,
    pub satisfied: bool,
    pub timestamp: u64,
}

/// Escrowed funds for one oracle call: the bounty the caller pays for a query,
/// held until the provider resolves the call.
#[derive(Clone, Copy, Debug, PartialEq)]
pub struct CallEscrow {
    pub call_id: u64,
    pub caller: Address,
    pub oracle: BytesN<32>,
    pub token: Address,
    pub amount: i128,
    pub created_at: u64,
    pub resolved: bool,
    pub settled: bool,
}

/// Result of resolving an oracle call. It decides whether the provider is paid
/// from the escrowed bounty or has their bond slashed.
#[derive(Clone, Copy, Debug, PartialEq, Eq, Structural)]
pub enum Resolution {
    Accurate,
    Inaccurate,
}

/// The marketplace's settings, recorded once by its admin.
#[derive(Clone, Copy, Debug, PartialEq)]
pub struct MarketplaceConfig {
    pub admin: Address,
    pub cooldown_secs: u64,
    pub default_fee_bps: u32,
    /// Basis points of a slashed bond that goes to the admin/treasury rather
    /// than the caller who was served a bad answer. An inaccurate resolution
    /// slashes as many basis points of the provider's bond.
    pub slash_penalty_bps: u32,
}

} // verus!
