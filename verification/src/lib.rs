//! A marketplace for oracle providers.
//!
//! Providers register for a data feed and post a bond. Callers escrow a bounty
//! for each call. When the provider resolves the call, an accurate answer is paid
//! out of the bounty; an inaccurate one returns the bounty and has the provider's
//! bond slashed.
//!
//! [`OracleMarketplace`] holds the contract's functions. Each works on a
//! [`ledger::Ledger`], which keeps the contract's storage and the host calls that
//! the invocation makes. [`model`] says when a request is refused and what it does
//! when granted. [`outcomes`] says the same of the records, the tokens and the
//! parties themselves. [`validity`], [`custody`] and [`laws`] state what holds
//! across requests.

pub mod amounts;
pub mod custody;
pub mod errors;
pub mod events;
pub mod host;
pub mod laws;
pub mod ledger;
pub mod marketplace;
pub mod model;
pub mod outcomes;
pub mod requests;
pub mod storage;
pub mod table;
pub mod types;
pub mod validity;

pub use amounts::bps_of;
pub use errors::OracleMarketplaceError;
pub use marketplace::OracleMarketplace;
pub use types::{
    Address, BytesN, CallEscrow, MarketplaceConfig, OracleProvider, OracleRating, Resolution,
};
