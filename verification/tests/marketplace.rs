//! Scenarios of the marketplace.
//!
//! Token behaviour is exercised against a real SAC (Stellar Asset Contract) in
//! the SDK's test host: the transfers that the marketplace asks for are made
//! there, and balances are read back from it.

use oracle_marketplace::host::{HostCall, TokenInterface};
use oracle_marketplace::ledger::Ledger;
use oracle_marketplace::storage::Storage;
use oracle_marketplace::{
    Address, BytesN, OracleMarketplace, OracleMarketplaceError, Resolution,
};
use soroban_sdk::address_payload::AddressPayload;
use soroban_sdk::testutils::{Address as _, EnvTestConfig};
use soroban_sdk::token::{StellarAssetClient, TokenClient};

struct Setup {
    host: soroban_sdk::Env,
    ledger: Ledger,
    made: usize,
    admin: Address,
    provider: Address,
    caller: Address,
    bond_token: Address,
    fee_token: Address,
    contract: Address,
}

fn make_host() -> soroban_sdk::Env {
    let host = soroban_sdk::Env::new_with_config(EnvTestConfig { capture_snapshot_at_drop: false });
    host.mock_all_auths();
    host
}

fn to_sdk(host: &soroban_sdk::Env, address: &Address) -> soroban_sdk::Address {
    let payload = match address {
        Address::Account(key) => AddressPayload::AccountIdPublicKeyEd25519(
            soroban_sdk::BytesN::from_array(host, &key.to_array()),
        ),
        Address::Contract(hash) => AddressPayload::ContractIdHash(
            soroban_sdk::BytesN::from_array(host, &hash.to_array()),
        ),
    };
    soroban_sdk::Address::from_payload(host, payload)
}

fn from_sdk(address: &soroban_sdk::Address) -> Address {
    match address.to_payload().unwrap() {
        AddressPayload::AccountIdPublicKeyEd25519(key) => {
            Address::Account(BytesN::from_array(&key.to_array()))
        }
        AddressPayload::ContractIdHash(hash) => {
            Address::Contract(BytesN::from_array(&hash.to_array()))
        }
    }
}

fn generate(host: &soroban_sdk::Env) -> Address {
    from_sdk(&soroban_sdk::Address::generate(host))
}

fn mint(host: &soroban_sdk::Env, token: &Address, who: &Address, amount: i128) {
    StellarAssetClient::new(host, &to_sdk(host, token)).mint(&to_sdk(host, who), &amount);
}

/// Registers an SAC and mints `amount` to each recipient.
fn setup_token(host: &soroban_sdk::Env, admin: &Address, mints: &[(Address, i128)]) -> Address {
    let token = host.register_stellar_asset_contract_v2(to_sdk(host, admin));
    let sac = from_sdk(&token.address());
    for (who, amount) in mints {
        mint(host, &sac, who, *amount);
    }
    sac
}

/// A marketplace that has not been initialized.
fn blank() -> Setup {
    let host = make_host();
    let admin = generate(&host);
    let provider = generate(&host);
    let caller = generate(&host);
    let bond_token = setup_token(
        &host,
        &admin,
        &[(provider, 1_000_000), (caller, 1_000_000)],
    );
    let fee_token = setup_token(&host, &admin, &[(caller, 1_000_000)]);
    let contract = generate(&host);
    let ledger = Ledger::new(host.clone(), contract, 0, Storage::new());
    Setup {
        host,
        ledger,
        made: 0,
        admin,
        provider,
        caller,
        bond_token,
        fee_token,
        contract,
    }
}

fn setup() -> Setup {
    let mut s = blank();
    assert_eq!(OracleMarketplace::initialize(&mut s.ledger, s.admin, 3600, 100, 5_000), Ok(()));
    s
}

type Outcome = Result<(), OracleMarketplaceError>;

impl Setup {
    /// Makes the transfers that were asked for since the last time.
    fn settle(&mut self) {
        let calls = self.ledger.calls();
        for call in &calls[self.made..] {
            if let HostCall::Transfer(transfer) = call {
                let token = to_sdk(&self.host, &transfer.token);
                let from = to_sdk(&self.host, &transfer.from);
                let to = to_sdk(&self.host, &transfer.to);
                match transfer.interface {
                    TokenInterface::StellarAsset => {
                        StellarAssetClient::new(&self.host, &token)
                            .transfer(&from, &to, &transfer.amount);
                    }
                    TokenInterface::Token => {
                        TokenClient::new(&self.host, &token).transfer(&from, &to, &transfer.amount);
                    }
                }
            }
        }
        self.made = calls.len();
    }

    fn register(&mut self, key: BytesN<32>, fee_bps: u32, min_stake: i128, bond: i128) -> Outcome {
        let result = OracleMarketplace::register_oracle(
            &mut self.ledger,
            self.provider,
            key,
            fee_bps,
            min_stake,
            bond,
            self.bond_token,
        );
        self.settle();
        result
    }

    fn deregister(&mut self, key: BytesN<32>) -> Outcome {
        let result = OracleMarketplace::deregister_oracle(&mut self.ledger, self.provider, key);
        self.settle();
        result
    }

    fn increase(&mut self, key: BytesN<32>, amount: i128, funder: Address) -> Outcome {
        let result = OracleMarketplace::increase_bond(&mut self.ledger, key, amount, funder);
        self.settle();
        result
    }

    fn withdraw(&mut self, provider: Address, key: BytesN<32>) -> Outcome {
        let result = OracleMarketplace::withdraw_bond(&mut self.ledger, provider, key);
        self.settle();
        result
    }

    fn escrow(&mut self, call_id: u64, key: BytesN<32>, amount: i128) -> Outcome {
        let result = OracleMarketplace::create_call_escrow(
            &mut self.ledger,
            call_id,
            self.caller,
            key,
            amount,
            self.fee_token,
        );
        self.settle();
        result
    }

    fn resolve(&mut self, call_id: u64, provider: Address, resolution: Resolution) -> Outcome {
        let result =
            OracleMarketplace::resolve_call(&mut self.ledger, call_id, provider, resolution);
        self.settle();
        result
    }

    fn balance(&self, token: &Address, who: &Address) -> i128 {
        TokenClient::new(&self.host, &to_sdk(&self.host, token))
            .balance(&to_sdk(&self.host, who))
    }

    fn advance(&mut self, secs: u64) {
        let now = self.ledger.timestamp();
        self.ledger.set_timestamp(now + secs);
    }
}

fn pubkey(b: u8) -> BytesN<32> {
    BytesN::from_array(&[b; 32])
}

// ---------------------------------------------------------------------------
// Registers oracle providers with bond locks
// ---------------------------------------------------------------------------

#[test]
fn registers_provider_and_locks_bond_in_escrow() {
    let mut s = setup();
    let key = pubkey(1);

    assert_eq!(s.register(key, 100, 500, 500), Ok(()));

    let oracles = OracleMarketplace::get_available_oracles(&s.ledger);
    assert_eq!(oracles.len(), 1);

    let oracle = oracles[0];
    assert_eq!(oracle.staked_amount, 500);
    assert_eq!(oracle.min_stake, 500);
    assert_eq!(oracle.bond_token, s.bond_token);
    assert_eq!(oracle.fee_bps, 100);
    assert!(oracle.is_active);

    // The bond must actually sit in the contract, not the provider.
    assert_eq!(s.balance(&s.bond_token, &s.contract), 500);
    assert_eq!(s.balance(&s.bond_token, &s.provider), 1_000_000 - 500);
}

#[test]
fn double_registration_is_rejected() {
    let mut s = setup();
    let key = pubkey(1);
    assert_eq!(s.register(key, 100, 500, 500), Ok(()));

    let result = s.register(key, 100, 500, 500);
    assert!(result.is_err());
    assert_eq!(result, Err(OracleMarketplaceError::OracleAlreadyRegistered));

    // The failed re-registration must not have moved any tokens.
    assert_eq!(s.balance(&s.bond_token, &s.contract), 500);
}

#[test]
fn zero_bond_is_rejected() {
    let mut s = setup();
    let result = s.register(pubkey(1), 100, 0, 0);
    assert!(result.is_err());
    assert_eq!(result, Err(OracleMarketplaceError::InvalidBond));
    assert_eq!(s.balance(&s.bond_token, &s.contract), 0);
}

#[test]
fn fee_above_10000_bps_is_rejected() {
    let mut s = setup();
    let result = s.register(pubkey(1), 10_001, 500, 500);
    assert!(result.is_err());
    assert_eq!(result, Err(OracleMarketplaceError::InvalidFee));
    assert_eq!(s.register(pubkey(1), 10_000, 500, 500), Ok(()));
}

#[test]
fn increase_bond_moves_tokens_and_updates_stake() {
    let mut s = setup();
    let key = pubkey(1);
    assert_eq!(s.register(key, 100, 500, 500), Ok(()));

    let funder = generate(&s.host);
    mint(&s.host, &s.bond_token, &funder, 250);

    assert_eq!(s.increase(key, 250, funder), Ok(()));

    assert_eq!(s.balance(&s.bond_token, &s.contract), 750);
    let oracles = OracleMarketplace::get_available_oracles(&s.ledger);
    assert_eq!(oracles[0].staked_amount, 750);
}

#[test]
fn withdraw_bond_blocked_while_active_and_before_cooldown() {
    let mut s = setup();
    let key = pubkey(1);
    let provider = s.provider;
    assert_eq!(s.register(key, 100, 500, 500), Ok(()));

    // Active provider cannot withdraw.
    assert!(s.withdraw(provider, key).is_err());

    assert_eq!(s.deregister(key), Ok(()));

    // Cooldown has not elapsed.
    assert!(s.withdraw(provider, key).is_err());
    assert_eq!(s.balance(&s.bond_token, &s.contract), 500);

    s.advance(3601);

    assert_eq!(s.withdraw(provider, key), Ok(()));

    // Funds returned in full, stake zeroed, oracle no longer listed.
    assert_eq!(s.balance(&s.bond_token, &s.provider), 1_000_000);
    assert_eq!(s.balance(&s.bond_token, &s.contract), 0);
    assert_eq!(OracleMarketplace::get_available_oracles(&s.ledger).len(), 0);
}

#[test]
fn withdraw_bond_rejects_non_owner() {
    let mut s = setup();
    let key = pubkey(1);
    assert_eq!(s.register(key, 100, 500, 500), Ok(()));
    assert_eq!(s.deregister(key), Ok(()));
    s.advance(3601);

    let stranger = generate(&s.host);
    let result = s.withdraw(stranger, key);
    assert!(result.is_err());
    assert_eq!(result, Err(OracleMarketplaceError::Unauthorized));
    assert_eq!(s.balance(&s.bond_token, &s.contract), 500);
}

// ---------------------------------------------------------------------------
// Distributes query fees per resolution
// ---------------------------------------------------------------------------

#[test]
fn accurate_resolution_splits_bounty_by_fee_bps() {
    let mut s = setup();
    let key = pubkey(1);
    let provider = s.provider;
    // fee_bps 200 out of 10_000, i.e. 2%.
    assert_eq!(s.register(key, 200, 500, 500), Ok(()));

    assert_eq!(s.escrow(1, key, 1000), Ok(()));

    let admin_before = s.balance(&s.fee_token, &s.admin);
    assert_eq!(s.resolve(1, provider, Resolution::Accurate), Ok(()));

    // 2% of 1000 goes to the provider, the rest to the admin.
    assert_eq!(s.balance(&s.fee_token, &s.provider), 20);
    assert_eq!(s.balance(&s.fee_token, &s.admin), admin_before + 980);
    assert_eq!(s.balance(&s.fee_token, &s.contract), 0);

    let oracles = OracleMarketplace::get_available_oracles(&s.ledger);
    let oracle = oracles[0];
    assert_eq!(oracle.total_resolved, 1);
    assert_eq!(oracle.total_disputes, 0);
}

#[test]
fn resolution_earnings_accumulate_across_calls() {
    let mut s = setup();
    let key = pubkey(1);
    let provider = s.provider;
    assert_eq!(s.register(key, 200, 500, 500), Ok(()));

    assert_eq!(s.escrow(1, key, 1000), Ok(()));
    assert_eq!(s.resolve(1, provider, Resolution::Accurate), Ok(()));
    assert_eq!(OracleMarketplace::get_oracle_earnings(&s.ledger, key), 20);

    assert_eq!(s.escrow(2, key, 500), Ok(()));
    assert_eq!(s.resolve(2, provider, Resolution::Accurate), Ok(()));
    assert_eq!(OracleMarketplace::get_oracle_earnings(&s.ledger, key), 30);
}

#[test]
fn escrow_cannot_be_resolved_twice() {
    let mut s = setup();
    let key = pubkey(1);
    let provider = s.provider;
    assert_eq!(s.register(key, 200, 500, 500), Ok(()));
    assert_eq!(s.escrow(1, key, 1000), Ok(()));

    assert_eq!(s.resolve(1, provider, Resolution::Accurate), Ok(()));
    let result = s.resolve(1, provider, Resolution::Accurate);
    assert!(result.is_err());
    assert_eq!(result, Err(OracleMarketplaceError::EscrowAlreadyResolved));

    // No double payout: 2% of 1000, paid exactly once.
    assert_eq!(s.balance(&s.fee_token, &s.provider), 20);
}

#[test]
fn duplicate_escrow_id_is_rejected() {
    let mut s = setup();
    let key = pubkey(1);
    assert_eq!(s.register(key, 200, 500, 500), Ok(()));

    assert_eq!(s.escrow(1, key, 1000), Ok(()));
    let result = s.escrow(1, key, 1000);
    assert!(result.is_err());
    assert_eq!(result, Err(OracleMarketplaceError::EscrowAlreadyExists));
}

#[test]
fn only_the_selected_oracle_can_resolve() {
    let mut s = setup();
    let key = pubkey(1);
    let other = generate(&s.host);

    assert_eq!(s.register(key, 200, 500, 500), Ok(()));
    assert_eq!(s.escrow(1, key, 1000), Ok(()));

    let result = s.resolve(1, other, Resolution::Accurate);
    assert!(result.is_err());
    assert_eq!(result, Err(OracleMarketplaceError::NotSelectedOracle));

    // The escrow is untouched and still open.
    let escrow = OracleMarketplace::get_call_escrow_view(&s.ledger, 1).unwrap();
    assert!(!escrow.resolved);
    assert_eq!(s.balance(&s.fee_token, &s.contract), 1000);
}

#[test]
fn escrow_for_unknown_oracle_is_rejected() {
    let mut s = setup();
    // Escrow naming an oracle that was never registered must fail outright
    // rather than stranding the funds.
    let result = s.escrow(1, pubkey(9), 1000);
    assert!(result.is_err());
    assert_eq!(result, Err(OracleMarketplaceError::OracleNotFound));
    assert_eq!(s.balance(&s.fee_token, &s.contract), 0);
}

#[test]
fn zero_amount_escrow_is_rejected() {
    let mut s = setup();
    let key = pubkey(1);
    assert_eq!(s.register(key, 200, 500, 500), Ok(()));

    let result = s.escrow(1, key, 0);
    assert!(result.is_err());
    assert_eq!(result, Err(OracleMarketplaceError::InvalidEscrowAmount));
}

#[test]
fn escrow_for_inactive_oracle_is_rejected() {
    let mut s = setup();
    let key = pubkey(1);
    assert_eq!(s.register(key, 200, 500, 500), Ok(()));
    assert_eq!(s.deregister(key), Ok(()));

    let result = s.escrow(1, key, 1000);
    assert!(result.is_err());
    assert_eq!(result, Err(OracleMarketplaceError::OracleNotActive));
}

// ---------------------------------------------------------------------------
// Slashes dishonest providers
// ---------------------------------------------------------------------------

#[test]
fn inaccurate_resolution_refunds_caller_and_slashes_bond() {
    let mut s = setup();
    let key = pubkey(1);
    let provider = s.provider;
    // min_stake well below the posted bond, so a slash has room to land.
    assert_eq!(s.register(key, 200, 100, 500), Ok(()));

    // Capture balances BEFORE the escrow, or the "refunded in full" assertion
    // below compares against an already-debited balance.
    let caller_fee_before = s.balance(&s.fee_token, &s.caller);
    let admin_bond_before = s.balance(&s.bond_token, &s.admin);

    assert_eq!(s.escrow(1, key, 1000), Ok(()));

    assert_eq!(s.resolve(1, provider, Resolution::Inaccurate), Ok(()));

    // The caller gets the bounty back in full.
    assert_eq!(s.balance(&s.fee_token, &s.caller), caller_fee_before);
    assert_eq!(s.balance(&s.fee_token, &s.contract), 0);

    // slash_penalty_bps = 5000 of a 500 bond = 250 slashed, split 50/50
    // between the harmed caller and the admin.
    assert_eq!(s.balance(&s.bond_token, &s.admin), admin_bond_before + 125);
    assert_eq!(s.balance(&s.bond_token, &s.caller), 1_000_000 + 125);
    assert_eq!(s.balance(&s.bond_token, &s.contract), 250);

    let oracles = OracleMarketplace::get_available_oracles(&s.ledger);
    let oracle = oracles[0];
    assert_eq!(oracle.staked_amount, 250);
    assert_eq!(oracle.total_slashed, 250);
    assert_eq!(oracle.total_disputes, 1);
    assert_eq!(oracle.total_resolved, 0);
}

#[test]
fn slash_refused_when_bond_sits_at_the_min_stake_floor() {
    let mut s = setup();
    let key = pubkey(1);
    let provider = s.provider;
    // Bond posted equals min_stake, so there is no headroom left to slash.
    assert_eq!(s.register(key, 200, 500, 500), Ok(()));
    assert_eq!(s.escrow(1, key, 1000), Ok(()));

    let result = s.resolve(1, provider, Resolution::Inaccurate);
    assert!(result.is_err());
    assert_eq!(result, Err(OracleMarketplaceError::SlashBelowMinStake));

    // Nothing moved: bond intact, escrow still open for handling.
    assert_eq!(s.balance(&s.bond_token, &s.contract), 500);
    let escrow = OracleMarketplace::get_call_escrow_view(&s.ledger, 1).unwrap();
    assert!(!escrow.resolved);
}

#[test]
fn second_slash_succeeds_after_bond_is_topped_up() {
    let mut s = setup();
    let key = pubkey(1);
    let provider = s.provider;
    assert_eq!(s.register(key, 200, 100, 500), Ok(()));

    assert_eq!(s.escrow(1, key, 1000), Ok(()));
    assert_eq!(s.resolve(1, provider, Resolution::Inaccurate), Ok(()));
    // 5000 bps of 500 = 250 slashed, leaving 250: still above the floor.
    assert_eq!(s.balance(&s.bond_token, &s.contract), 250);

    // Top up, then slash again. This pins down that slashing keeps working as
    // long as the bond is above `min_stake`.
    assert_eq!(s.increase(key, 500, provider), Ok(()));
    assert_eq!(s.balance(&s.bond_token, &s.contract), 750);

    assert_eq!(s.escrow(2, key, 1000), Ok(()));
    assert_eq!(s.resolve(2, provider, Resolution::Inaccurate), Ok(()));
    // 5000 bps of 750 = 375 slashed.
    assert_eq!(s.balance(&s.bond_token, &s.contract), 375);
}

#[test]
fn slash_uses_configured_penalty_bps() {
    let mut s = setup();
    let key = pubkey(7);
    let provider = s.provider;
    assert_eq!(s.register(key, 200, 100, 500), Ok(()));
    assert_eq!(s.escrow(5, key, 1000), Ok(()));

    assert_eq!(s.resolve(5, provider, Resolution::Inaccurate), Ok(()));

    let oracles = OracleMarketplace::get_available_oracles(&s.ledger);
    let oracle = oracles.iter().find(|o| o.pubkey == key).unwrap();
    // 5000 bps of 500 = 250.
    assert_eq!(oracle.total_slashed, 250);
}

#[test]
fn inactive_oracle_cannot_resolve() {
    let mut s = setup();
    let key = pubkey(1);
    let provider = s.provider;
    assert_eq!(s.register(key, 200, 100, 500), Ok(()));
    assert_eq!(s.escrow(1, key, 1000), Ok(()));
    assert_eq!(s.deregister(key), Ok(()));

    let result = s.resolve(1, provider, Resolution::Accurate);
    assert!(result.is_err());
    assert_eq!(result, Err(OracleMarketplaceError::OracleNotActive));
}

// ---------------------------------------------------------------------------
// Configuration, selection, ratings, deregistration
// ---------------------------------------------------------------------------

#[test]
fn initialize_marketplace_records_config() {
    let mut s = blank();
    let admin = s.admin;
    assert_eq!(OracleMarketplace::initialize(&mut s.ledger, admin, 3600, 100, 5000), Ok(()));

    let config = OracleMarketplace::get_config_view(&s.ledger).unwrap();
    assert_eq!(config.admin, admin);
    assert_eq!(config.cooldown_secs, 3600);
    assert_eq!(config.default_fee_bps, 100);
    assert_eq!(config.slash_penalty_bps, 5000);
}

#[test]
fn reinitialize_is_rejected() {
    let mut s = blank();
    let admin = s.admin;
    assert_eq!(OracleMarketplace::initialize(&mut s.ledger, admin, 3600, 100, 5000), Ok(()));

    let result = OracleMarketplace::initialize(&mut s.ledger, admin, 3600, 100, 5000);
    assert!(result.is_err());
    assert_eq!(result, Err(OracleMarketplaceError::AlreadyInitialized));
}

#[test]
fn select_oracle_for_call_binds_call() {
    let mut s = setup();
    let key = pubkey(4);
    assert_eq!(s.register(key, 100, 500, 500), Ok(()));

    assert_eq!(OracleMarketplace::select_oracle_for_call(&mut s.ledger, 42, key), Ok(()));
    assert_eq!(OracleMarketplace::get_call_oracle(&s.ledger, 42), Some(key));
}

#[test]
fn rate_oracle_once_then_reject() {
    let mut s = setup();
    let key = pubkey(3);
    let caller = s.caller;
    assert_eq!(s.register(key, 100, 500, 500), Ok(()));

    assert_eq!(OracleMarketplace::rate_oracle(&mut s.ledger, caller, key, true), Ok(()));
    let result = OracleMarketplace::rate_oracle(&mut s.ledger, caller, key, false);
    assert!(result.is_err());
    assert_eq!(result, Err(OracleMarketplaceError::AlreadyRated));
}

#[test]
fn deregister_starts_cooldown() {
    let mut s = setup();
    let key = pubkey(1);
    assert_eq!(s.register(key, 100, 500, 500), Ok(()));

    assert_eq!(s.deregister(key), Ok(()));
    // Immediately deregistering again must trip the cooldown.
    let result = s.deregister(key);
    assert!(result.is_err());
    assert_eq!(result, Err(OracleMarketplaceError::CooldownActive));
    assert_eq!(OracleMarketplace::get_available_oracles(&s.ledger).len(), 0);
}

#[test]
fn uninitialized_contract_rejects_calls() {
    let mut s = blank();
    assert!(OracleMarketplace::get_config_view(&s.ledger).is_err());

    let token = setup_token(&s.host, &s.admin, &[]);
    let provider = generate(&s.host);
    mint(&s.host, &token, &provider, 500);

    // No config yet, so registration must fail.
    let result = OracleMarketplace::register_oracle(
        &mut s.ledger,
        provider,
        pubkey(1),
        100,
        500,
        500,
        token,
    );
    assert!(result.is_err());
    assert_eq!(result, Err(OracleMarketplaceError::NotInitialized));
}
