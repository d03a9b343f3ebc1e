//! The ways in which a request to the marketplace is refused.
use vstd::prelude::*;

verus! {

#[derive(Copy, Clone, Debug, PartialEq, Eq, Structural)]
pub enum OracleMarketplaceError {
    AlreadyInitialized,
    NotInitialized,
    Unauthorized,
    OracleAlreadyRegistered,
    OracleNotFound,
    OracleNotActive,
    InsufficientStake,
    CooldownActive,
    InvalidFee,
    CallNotFound,
    OracleNotSelectedForCall,
    AlreadyRated,
    InvalidRating,
    /// Escrow for this call id already exists: call ids must be unique.
    EscrowAlreadyExists,
    /// The call has already been resolved; it cannot be resolved twice.
    EscrowAlreadyResolved,
    /// The call has been resolved but the bounty has not been settled yet.
    EscrowNotSettled,
    /// Escrow amount is zero or negative: nothing to lock.
    InvalidEscrowAmount,
    /// The address that called `resolve_call` is not the provider selected
    /// for this call.
    NotSelectedOracle,
    /// Slashing would push the provider below their own `min_stake`, or the
    /// bond has no headroom above it.
    SlashBelowMinStake,
    /// Bond amount is not positive.
    InvalidBond,
    /// Settlement amount exceeds what was escrowed.
    SettlementOverflow,
}

impl OracleMarketplaceError {
    /// The number under which the contract reports the error.
    pub open spec fn spec_code(self) -> u32 {
        match self {
            OracleMarketplaceError::AlreadyInitialized => 1,
            OracleMarketplaceError::NotInitialized => 2,
            OracleMarketplaceError::Unauthorized => 3,
            OracleMarketplaceError::OracleAlreadyRegistered => 4,
            OracleMarketplaceError::OracleNotFound => 5,
            OracleMarketplaceError::OracleNotActive => 6,
            OracleMarketplaceError::InsufficientStake => 7,
            OracleMarketplaceError::CooldownActive => 8,
            OracleMarketplaceError::InvalidFee => 9,
            OracleMarketplaceError::CallNotFound => 10,
            OracleMarketplaceError::OracleNotSelectedForCall => 11,
            OracleMarketplaceError::AlreadyRated => 12,
            OracleMarketplaceError::InvalidRating => 13,
            OracleMarketplaceError::EscrowAlreadyExists => 14,
            OracleMarketplaceError::EscrowAlreadyResolved => 15,
            OracleMarketplaceError::EscrowNotSettled => 16,
            OracleMarketplaceError::InvalidEscrowAmount => 17,
            OracleMarketplaceError::NotSelectedOracle => 18,
            OracleMarketplaceError::SlashBelowMinStake => 19,
            OracleMarketplaceError::InvalidBond => 20,
            OracleMarketplaceError::SettlementOverflow => 21,
        }
    }

    /// The number under which the contract reports the error.
    pub fn code(&self) -> (code: u32)
        ensures
            code == self.spec_code(),
    {
        match self {
            OracleMarketplaceError::AlreadyInitialized => 1,
            OracleMarketplaceError::NotInitialized => 2,
            OracleMarketplaceError::Unauthorized => 3,
            OracleMarketplaceError::OracleAlreadyRegistered => 4,
            OracleMarketplaceError::OracleNotFound => 5,
            OracleMarketplaceError::OracleNotActive => 6,
            OracleMarketplaceError::InsufficientStake => 7,
            OracleMarketplaceError::CooldownActive => 8,
            OracleMarketplaceError::InvalidFee => 9,
            OracleMarketplaceError::CallNotFound => 10,
            OracleMarketplaceError::OracleNotSelectedForCall => 11,
            OracleMarketplaceError::AlreadyRated => 12,
            OracleMarketplaceError::InvalidRating => 13,
            OracleMarketplaceError::EscrowAlreadyExists => 14,
            OracleMarketplaceError::EscrowAlreadyResolved => 15,
            OracleMarketplaceError::EscrowNotSettled => 16,
            OracleMarketplaceError::InvalidEscrowAmount => 17,
            OracleMarketplaceError::NotSelectedOracle => 18,
            OracleMarketplaceError::SlashBelowMinStake => 19,
            OracleMarketplaceError::InvalidBond => 20,
            OracleMarketplaceError::SettlementOverflow => 21,
        }
    }
}

} // verus!
