//! What the marketplace promises across requests, on concrete values.

use oracle_marketplace::events::{Event, EVENT_NAMESPACE};
use oracle_marketplace::host::{is_native_xlm, HostCall, TokenInterface, Transfer};
use oracle_marketplace::ledger::Ledger;
use oracle_marketplace::storage::{get_oracle, get_oracle_list, get_oracle_rating, Storage};
use oracle_marketplace::table::Table;
use oracle_marketplace::{
    bps_of, Address, BytesN, CallEscrow, MarketplaceConfig, OracleMarketplace,
    OracleMarketplaceError, OracleProvider, OracleRating, Resolution,
};
use soroban_sdk::testutils::EnvTestConfig;

const HOUR: u64 = 3600;

fn key(b: u8) -> BytesN<32> {
    BytesN::from_array(&[b; 32])
}

fn account(b: u8) -> Address {
    Address::Account(key(b))
}

fn token(b: u8) -> Address {
    Address::Contract(key(b))
}

fn contract() -> Address {
    token(200)
}

fn admin() -> Address {
    account(1)
}

fn provider() -> Address {
    account(2)
}

fn caller() -> Address {
    account(3)
}

fn bond_token() -> Address {
    token(10)
}

fn fee_token() -> Address {
    token(11)
}

fn blank_ledger() -> Ledger {
    let host = soroban_sdk::Env::new_with_config(EnvTestConfig { capture_snapshot_at_drop: false });
    Ledger::new(host, contract(), 1_000, Storage::new())
}

fn ledger_with_penalty(slash_penalty_bps: u32) -> Ledger {
    let mut ledger = blank_ledger();
    assert_eq!(
        OracleMarketplace::initialize(&mut ledger, admin(), HOUR, 100, slash_penalty_bps),
        Ok(())
    );
    ledger
}

fn register(ledger: &mut Ledger, pubkey: BytesN<32>, fee_bps: u32, min_stake: i128, bond: i128) {
    assert_eq!(
        OracleMarketplace::register_oracle(
            ledger,
            provider(),
            pubkey,
            fee_bps,
            min_stake,
            bond,
            bond_token()
        ),
        Ok(())
    );
}

fn escrow(ledger: &mut Ledger, call_id: u64, pubkey: BytesN<32>, amount: i128) {
    assert_eq!(
        OracleMarketplace::create_call_escrow(
            ledger,
            call_id,
            caller(),
            pubkey,
            amount,
            fee_token()
        ),
        Ok(())
    );
}

fn resolve(
    ledger: &mut Ledger,
    call_id: u64,
    resolution: Resolution,
) -> Result<(), OracleMarketplaceError> {
    OracleMarketplace::resolve_call(ledger, call_id, provider(), resolution)
}

/// The transfer of a token other than native XLM.
fn moved(token: Address, from: Address, to: Address, amount: i128) -> HostCall {
    HostCall::Transfer(Transfer { interface: TokenInterface::Token, token, from, to, amount })
}

/// What the contract holds of a token out of the transfers asked for so far.
fn custody(ledger: &Ledger, token: Address) -> i128 {
    let mut held = 0;
    for call in ledger.calls() {
        if let HostCall::Transfer(transfer) = call {
            if transfer.token == token {
                if transfer.to == contract() {
                    held += transfer.amount;
                }
                if transfer.from == contract() {
                    held -= transfer.amount;
                }
            }
        }
    }
    held
}

/// Storage as the host calls made so far leave it.
fn replayed(ledger: &Ledger) -> Ledger {
    let mut storage = Storage::new();
    for call in ledger.calls() {
        storage.apply(call);
    }
    let host = soroban_sdk::Env::new_with_config(EnvTestConfig { capture_snapshot_at_drop: false });
    Ledger::new(host, contract(), 1_000, storage)
}

// ---------------------------------------------------------------------------
// Amounts, errors, events
// ---------------------------------------------------------------------------

#[test]
fn basis_points_of_an_amount() {
    assert_eq!(bps_of(1_000, 200), 20);
    assert_eq!(bps_of(1_000, 10_000), 1_000);
    assert_eq!(bps_of(999, 5_000), 499);
    assert_eq!(bps_of(49, 200), 0);
    assert_eq!(bps_of(0, 5_000), 0);
    assert_eq!(bps_of(1_000, 0), 0);
}

#[test]
fn basis_points_round_towards_zero_and_saturate() {
    assert_eq!(bps_of(-999, 5_000), -499);
    assert_eq!(bps_of(-1, 1), 0);
    assert_eq!(bps_of(-12_345, 10_000), -12_345);
    assert_eq!(bps_of(12_345, 20_000), 24_690);

    // A part of a large amount is exact although the product does not fit.
    assert_eq!(bps_of(i128::MAX, 10_000), i128::MAX);
    assert_eq!(bps_of(i128::MIN, 10_000), i128::MIN);
    assert_eq!(bps_of(i128::MAX, 5_000), i128::MAX / 2);
    assert_eq!(bps_of(i128::MIN, 5_000), i128::MIN / 2);
    assert_eq!(bps_of(i128::MAX, 2), i128::MAX / 5_000);
    assert_eq!(bps_of(i128::MAX, 0), 0);

    // More than the whole saturates where it does not fit.
    assert_eq!(bps_of(i128::MAX, 10_001), i128::MAX);
    assert_eq!(bps_of(i128::MIN, 10_001), i128::MIN);
    assert_eq!(bps_of(i128::MAX, u32::MAX), i128::MAX);
    assert_eq!(bps_of(i128::MIN, u32::MAX), i128::MIN);
}

#[test]
fn error_codes_are_numbered_in_order() {
    let errors = [
        OracleMarketplaceError::AlreadyInitialized,
        OracleMarketplaceError::NotInitialized,
        OracleMarketplaceError::Unauthorized,
        OracleMarketplaceError::OracleAlreadyRegistered,
        OracleMarketplaceError::OracleNotFound,
        OracleMarketplaceError::OracleNotActive,
        OracleMarketplaceError::InsufficientStake,
        OracleMarketplaceError::CooldownActive,
        OracleMarketplaceError::InvalidFee,
        OracleMarketplaceError::CallNotFound,
        OracleMarketplaceError::OracleNotSelectedForCall,
        OracleMarketplaceError::AlreadyRated,
        OracleMarketplaceError::InvalidRating,
        OracleMarketplaceError::EscrowAlreadyExists,
        OracleMarketplaceError::EscrowAlreadyResolved,
        OracleMarketplaceError::EscrowNotSettled,
        OracleMarketplaceError::InvalidEscrowAmount,
        OracleMarketplaceError::NotSelectedOracle,
        OracleMarketplaceError::SlashBelowMinStake,
        OracleMarketplaceError::InvalidBond,
        OracleMarketplaceError::SettlementOverflow,
    ];
    for (i, error) in errors.iter().enumerate() {
        assert_eq!(error.code() as usize, i + 1);
    }
}

#[test]
fn events_are_named_after_what_happened() {
    assert_eq!(EVENT_NAMESPACE, "oracle_marketplace");
    let events = [
        (
            Event::OracleRegistered { provider: provider(), pubkey: key(1), fee_bps: 1 },
            "OracleRegistered",
        ),
        (
            Event::OracleDeregistered { provider: provider(), pubkey: key(1) },
            "OracleDeregistered",
        ),
        (Event::OracleSelectedForCall { call_id: 1, pubkey: key(1) }, "OracleSelectedForCall"),
        (
            Event::OracleRated { pubkey: key(1), user: caller(), satisfied: true },
            "OracleRated",
        ),
        (
            Event::EscrowCreated { call_id: 1, caller: caller(), pubkey: key(1), amount: 1 },
            "EscrowCreated",
        ),
        (
            Event::EscrowSettled {
                call_id: 1,
                pubkey: key(1),
                provider_amount: 1,
                fee_amount: 1,
            },
            "EscrowSettled",
        ),
        (
            Event::BondSlashed {
                pubkey: key(1),
                caller: caller(),
                slashed: 1,
                remaining_stake: 1,
            },
            "BondSlashed",
        ),
        (
            Event::BondIncreased { pubkey: key(1), amount: 1, total_stake: 1 },
            "BondIncreased",
        ),
        (
            Event::BondWithdrawn { pubkey: key(1), provider: provider(), amount: 1 },
            "BondWithdrawn",
        ),
    ];
    for (event, name) in events {
        assert_eq!(event.name(), name);
    }
}

#[test]
fn addresses_and_keys_compare_by_their_bytes() {
    assert_eq!(key(1), key(1));
    assert_ne!(key(1), key(2));
    assert_eq!(key(7).to_array(), [7; 32]);
    assert_ne!(account(1), token(1));
    let mut bytes = [1; 32];
    bytes[31] = 2;
    assert_ne!(key(1), BytesN::from_array(&bytes));
    let rating =
        OracleRating { oracle: key(1), user: caller(), satisfied: true, timestamp: 1_000 };
    assert_eq!(rating, rating.clone());
    assert_ne!(rating, OracleRating { satisfied: false, ..rating });
}

// ---------------------------------------------------------------------------
// Storage
// ---------------------------------------------------------------------------

#[test]
fn a_table_keeps_the_last_value_under_a_key() {
    let mut table: Table<u64, i128> = Table::new();
    assert_eq!(table.get(&1), None);
    table.put(1, 10);
    table.put(2, 20);
    table.put(1, 11);
    assert_eq!(table.get(&1), Some(11));
    assert_eq!(table.get(&2), Some(20));
    assert_eq!(table.get(&3), None);
}

#[test]
fn replaying_the_host_calls_rebuilds_storage() {
    let mut ledger = ledger_with_penalty(1_000);
    register(&mut ledger, key(1), 200, 500, 1_000);
    register(&mut ledger, key(2), 300, 500, 1_000);
    escrow(&mut ledger, 1, key(1), 1_000);
    escrow(&mut ledger, 2, key(2), 1_000);
    assert_eq!(resolve(&mut ledger, 1, Resolution::Accurate), Ok(()));
    assert_eq!(resolve(&mut ledger, 2, Resolution::Inaccurate), Ok(()));
    assert_eq!(OracleMarketplace::rate_oracle(&mut ledger, caller(), key(1), true), Ok(()));
    assert_eq!(OracleMarketplace::deregister_oracle(&mut ledger, provider(), key(2)), Ok(()));

    let copy = replayed(&ledger);
    assert_eq!(
        OracleMarketplace::get_config_view(&copy),
        OracleMarketplace::get_config_view(&ledger)
    );
    for pubkey in [key(1), key(2), key(3)] {
        assert_eq!(get_oracle(&copy, &pubkey), get_oracle(&ledger, &pubkey));
        assert_eq!(
            OracleMarketplace::get_oracle_earnings(&copy, pubkey),
            OracleMarketplace::get_oracle_earnings(&ledger, pubkey)
        );
        assert_eq!(
            get_oracle_rating(&copy, &pubkey, &caller()),
            get_oracle_rating(&ledger, &pubkey, &caller())
        );
    }
    for call_id in [1, 2, 3] {
        assert_eq!(
            OracleMarketplace::get_call_escrow_view(&copy, call_id),
            OracleMarketplace::get_call_escrow_view(&ledger, call_id)
        );
        assert_eq!(
            OracleMarketplace::get_call_oracle(&copy, call_id),
            OracleMarketplace::get_call_oracle(&ledger, call_id)
        );
    }
    assert_eq!(get_oracle_list(&copy), get_oracle_list(&ledger));
    assert_eq!(*get_oracle_list(&copy), vec![key(1)]);
}

// ---------------------------------------------------------------------------
// Native XLM
// ---------------------------------------------------------------------------

#[test]
fn the_sentinel_is_the_contract_with_a_zero_hash() {
    let ledger = blank_ledger();
    assert!(is_native_xlm(&ledger, &token(0)));
    assert!(!is_native_xlm(&ledger, &account(0)));
    assert!(!is_native_xlm(&ledger, &token(1)));
    let mut bytes = [0; 32];
    bytes[31] = 1;
    assert!(!is_native_xlm(&ledger, &Address::Contract(BytesN::from_array(&bytes))));
}

#[test]
fn native_xlm_goes_through_the_stellar_asset_contract() {
    let mut ledger = ledger_with_penalty(1_000);
    let native = token(0);
    assert_eq!(
        OracleMarketplace::register_oracle(
            &mut ledger,
            provider(),
            key(1),
            200,
            500,
            600,
            native
        ),
        Ok(())
    );
    let native_transfer = HostCall::Transfer(Transfer {
        interface: TokenInterface::StellarAsset,
        token: native,
        from: provider(),
        to: contract(),
        amount: 600,
    });
    assert!(ledger.calls().contains(&native_transfer));

    escrow(&mut ledger, 1, key(1), 50);
    assert!(ledger.calls().contains(&moved(fee_token(), caller(), contract(), 50)));
}

// ---------------------------------------------------------------------------
// Order of the host calls
// ---------------------------------------------------------------------------

#[test]
fn a_bond_is_pulled_in_before_the_provider_is_recorded() {
    let mut ledger = ledger_with_penalty(1_000);
    let before = ledger.calls().len();
    register(&mut ledger, key(1), 200, 500, 600);
    let oracle = OracleProvider {
        pubkey: key(1),
        address: provider(),
        fee_bps: 200,
        min_stake: 500,
        staked_amount: 600,
        bond_token: bond_token(),
        total_resolved: 0,
        total_disputes: 0,
        total_slashed: 0,
        is_active: true,
        registered_at: 1_000,
        deregister_after: None,
    };
    assert_eq!(
        ledger.calls()[before..],
        [
            HostCall::RequireAuth(provider()),
            moved(bond_token(), provider(), contract(), 600),
            HostCall::SetOracle { pubkey: key(1), oracle },
            HostCall::AddToOracleList(key(1)),
            HostCall::Publish(Event::OracleRegistered {
                provider: provider(),
                pubkey: key(1),
                fee_bps: 200
            }),
        ]
    );
}

#[test]
fn an_escrow_is_settled_before_it_is_paid_out() {
    let mut ledger = ledger_with_penalty(1_000);
    register(&mut ledger, key(1), 200, 500, 600);
    escrow(&mut ledger, 1, key(1), 1_000);
    let before = ledger.calls().len();
    assert_eq!(resolve(&mut ledger, 1, Resolution::Accurate), Ok(()));
    let settled = CallEscrow {
        call_id: 1,
        caller: caller(),
        oracle: key(1),
        token: fee_token(),
        amount: 1_000,
        created_at: 1_000,
        resolved: true,
        settled: true,
    };
    let oracle = get_oracle(&ledger, &key(1)).unwrap();
    assert_eq!(
        ledger.calls()[before..],
        [
            HostCall::RequireAuth(provider()),
            HostCall::SetCallEscrow(settled),
            moved(fee_token(), contract(), provider(), 20),
            moved(fee_token(), contract(), admin(), 980),
            HostCall::SetOracleEarnings { pubkey: key(1), earnings: 20 },
            HostCall::SetOracle { pubkey: key(1), oracle },
            HostCall::Publish(Event::EscrowSettled {
                call_id: 1,
                pubkey: key(1),
                provider_amount: 20,
                fee_amount: 980
            }),
        ]
    );
}

#[test]
fn a_slash_is_recorded_before_it_is_paid_out() {
    let mut ledger = ledger_with_penalty(1_000);
    register(&mut ledger, key(1), 200, 500, 650);
    escrow(&mut ledger, 1, key(1), 1_000);
    let before = ledger.calls().len();
    assert_eq!(resolve(&mut ledger, 1, Resolution::Inaccurate), Ok(()));
    let oracle = get_oracle(&ledger, &key(1)).unwrap();
    let settled = OracleMarketplace::get_call_escrow_view(&ledger, 1).unwrap();
    assert_eq!(oracle.staked_amount, 585);
    assert_eq!(oracle.total_slashed, 65);
    assert_eq!(
        ledger.calls()[before..],
        [
            HostCall::RequireAuth(provider()),
            HostCall::SetCallEscrow(settled),
            moved(fee_token(), contract(), caller(), 1_000),
            HostCall::SetOracle { pubkey: key(1), oracle },
            moved(bond_token(), contract(), caller(), 58),
            moved(bond_token(), contract(), admin(), 7),
            HostCall::Publish(Event::BondSlashed {
                pubkey: key(1),
                caller: caller(),
                slashed: 65,
                remaining_stake: 585
            }),
        ]
    );
}

#[test]
fn a_stake_is_zeroed_before_it_is_paid_out() {
    let mut ledger = ledger_with_penalty(1_000);
    register(&mut ledger, key(1), 200, 500, 600);
    assert_eq!(OracleMarketplace::deregister_oracle(&mut ledger, provider(), key(1)), Ok(()));
    ledger.set_timestamp(1_000 + HOUR);
    let before = ledger.calls().len();
    assert_eq!(OracleMarketplace::withdraw_bond(&mut ledger, provider(), key(1)), Ok(()));
    let oracle = get_oracle(&ledger, &key(1)).unwrap();
    assert_eq!(oracle.staked_amount, 0);
    assert_eq!(
        ledger.calls()[before..],
        [
            HostCall::RequireAuth(provider()),
            HostCall::SetOracle { pubkey: key(1), oracle },
            moved(bond_token(), contract(), provider(), 600),
            HostCall::Publish(Event::BondWithdrawn {
                pubkey: key(1),
                provider: provider(),
                amount: 600
            }),
        ]
    );
}

#[test]
fn a_refused_request_only_asks_for_authorization() {
    let mut ledger = ledger_with_penalty(1_000);
    let before = ledger.calls().len();
    assert_eq!(
        OracleMarketplace::withdraw_bond(&mut ledger, provider(), key(1)),
        Err(OracleMarketplaceError::OracleNotFound)
    );
    assert_eq!(ledger.calls()[before..], [HostCall::RequireAuth(provider())]);

    // Neither a second setup nor a selection asks for anything.
    assert_eq!(
        OracleMarketplace::initialize(&mut ledger, caller(), 1, 1, 1),
        Err(OracleMarketplaceError::AlreadyInitialized)
    );
    assert_eq!(
        OracleMarketplace::select_oracle_for_call(&mut ledger, 1, key(1)),
        Err(OracleMarketplaceError::OracleNotFound)
    );
    assert_eq!(ledger.calls().len(), before + 1);
    assert_eq!(
        OracleMarketplace::get_config_view(&ledger),
        Ok(MarketplaceConfig {
            admin: admin(),
            cooldown_secs: HOUR,
            default_fee_bps: 100,
            slash_penalty_bps: 1_000
        })
    );
}

// ---------------------------------------------------------------------------
// Setup and registration
// ---------------------------------------------------------------------------

#[test]
fn shares_above_the_whole_are_refused_at_setup() {
    let mut ledger = blank_ledger();
    assert_eq!(
        OracleMarketplace::initialize(&mut ledger, admin(), HOUR, 10_001, 100),
        Err(OracleMarketplaceError::InvalidFee)
    );
    assert_eq!(
        OracleMarketplace::initialize(&mut ledger, admin(), HOUR, 100, 10_001),
        Err(OracleMarketplaceError::InvalidFee)
    );
    assert_eq!(
        OracleMarketplace::get_config_view(&ledger),
        Err(OracleMarketplaceError::NotInitialized)
    );
    assert_eq!(
        OracleMarketplace::initialize(&mut ledger, admin(), HOUR, 10_000, 10_000),
        Ok(())
    );
}

#[test]
fn a_bond_below_the_floor_is_refused() {
    let mut ledger = ledger_with_penalty(1_000);
    let result = OracleMarketplace::register_oracle(
        &mut ledger,
        provider(),
        key(1),
        200,
        500,
        499,
        bond_token(),
    );
    assert_eq!(result, Err(OracleMarketplaceError::InsufficientStake));
    assert_eq!(get_oracle(&ledger, &key(1)), None);
}

#[test]
fn a_registration_outlives_its_withdrawal() {
    let mut ledger = ledger_with_penalty(1_000);
    register(&mut ledger, key(1), 200, 500, 600);
    assert_eq!(OracleMarketplace::deregister_oracle(&mut ledger, provider(), key(1)), Ok(()));
    ledger.set_timestamp(1_000 + HOUR);
    assert_eq!(OracleMarketplace::withdraw_bond(&mut ledger, provider(), key(1)), Ok(()));

    let result = OracleMarketplace::register_oracle(
        &mut ledger,
        caller(),
        key(1),
        300,
        500,
        600,
        bond_token(),
    );
    assert_eq!(result, Err(OracleMarketplaceError::OracleAlreadyRegistered));
    let oracle = get_oracle(&ledger, &key(1)).unwrap();
    assert_eq!(oracle.address, provider());
    assert_eq!(oracle.fee_bps, 200);
    assert_eq!(oracle.registered_at, 1_000);
}

#[test]
fn the_offer_is_the_active_providers_in_order() {
    let mut ledger = ledger_with_penalty(1_000);
    for b in [1, 2, 3] {
        register(&mut ledger, key(b), 200, 500, 600);
    }
    assert_eq!(OracleMarketplace::deregister_oracle(&mut ledger, provider(), key(2)), Ok(()));
    let offer: Vec<BytesN<32>> = OracleMarketplace::get_available_oracles(&ledger)
        .iter()
        .map(|oracle| oracle.pubkey)
        .collect();
    assert_eq!(offer, vec![key(1), key(3)]);
}

#[test]
fn a_top_up_is_capped_at_the_largest_amount() {
    let mut ledger = ledger_with_penalty(1_000);
    register(&mut ledger, key(1), 200, 500, 600);
    assert_eq!(
        OracleMarketplace::increase_bond(&mut ledger, key(1), 0, caller()),
        Err(OracleMarketplaceError::InvalidBond)
    );
    assert_eq!(
        OracleMarketplace::increase_bond(&mut ledger, key(2), 1, caller()),
        Err(OracleMarketplaceError::OracleNotFound)
    );
    assert_eq!(
        OracleMarketplace::increase_bond(&mut ledger, key(1), i128::MAX, caller()),
        Ok(())
    );
    assert_eq!(get_oracle(&ledger, &key(1)).unwrap().staked_amount, i128::MAX);
}

// ---------------------------------------------------------------------------
// Cooldown
// ---------------------------------------------------------------------------

#[test]
fn the_cooldown_ends_to_the_second_and_pays_once() {
    let mut ledger = ledger_with_penalty(1_000);
    register(&mut ledger, key(1), 200, 500, 600);
    assert_eq!(
        OracleMarketplace::withdraw_bond(&mut ledger, provider(), key(1)),
        Err(OracleMarketplaceError::OracleNotActive)
    );
    assert_eq!(
        OracleMarketplace::deregister_oracle(&mut ledger, caller(), key(1)),
        Err(OracleMarketplaceError::Unauthorized)
    );
    assert_eq!(OracleMarketplace::deregister_oracle(&mut ledger, provider(), key(1)), Ok(()));
    ledger.set_timestamp(1_000 + HOUR - 1);
    assert_eq!(
        OracleMarketplace::withdraw_bond(&mut ledger, provider(), key(1)),
        Err(OracleMarketplaceError::CooldownActive)
    );

    // A top-up and another attempt to deregister do not move the end.
    assert_eq!(OracleMarketplace::increase_bond(&mut ledger, key(1), 50, caller()), Ok(()));
    assert_eq!(
        OracleMarketplace::deregister_oracle(&mut ledger, provider(), key(1)),
        Err(OracleMarketplaceError::CooldownActive)
    );
    ledger.set_timestamp(1_000 + HOUR);
    assert_eq!(OracleMarketplace::withdraw_bond(&mut ledger, provider(), key(1)), Ok(()));
    assert_eq!(custody(&ledger, bond_token()), 0);
    assert_eq!(
        OracleMarketplace::withdraw_bond(&mut ledger, provider(), key(1)),
        Err(OracleMarketplaceError::InsufficientStake)
    );

    // Once it has ended, the provider is just not active.
    assert_eq!(
        OracleMarketplace::deregister_oracle(&mut ledger, provider(), key(1)),
        Err(OracleMarketplaceError::OracleNotActive)
    );
}

#[test]
fn a_deregistration_can_be_checked_first() {
    let mut ledger = blank_ledger();
    assert_eq!(
        OracleMarketplace::check_deregistration(&ledger, &provider(), &key(1)),
        Err(OracleMarketplaceError::NotInitialized)
    );
    assert_eq!(OracleMarketplace::initialize(&mut ledger, admin(), HOUR, 100, 1_000), Ok(()));
    assert_eq!(
        OracleMarketplace::check_deregistration(&ledger, &provider(), &key(1)),
        Err(OracleMarketplaceError::OracleNotFound)
    );
    register(&mut ledger, key(1), 200, 500, 600);
    let (config, oracle) =
        OracleMarketplace::check_deregistration(&ledger, &provider(), &key(1)).unwrap();
    assert_eq!(config.cooldown_secs, HOUR);
    assert_eq!(oracle.pubkey, key(1));
}

// ---------------------------------------------------------------------------
// Calls
// ---------------------------------------------------------------------------

#[test]
fn a_resolution_is_final() {
    let mut ledger = ledger_with_penalty(1_000);
    register(&mut ledger, key(1), 200, 500, 600);
    escrow(&mut ledger, 1, key(1), 1_000);
    assert_eq!(resolve(&mut ledger, 1, Resolution::Accurate), Ok(()));
    let settled = OracleMarketplace::get_call_escrow_view(&ledger, 1);
    assert_eq!(
        resolve(&mut ledger, 1, Resolution::Inaccurate),
        Err(OracleMarketplaceError::EscrowAlreadyResolved)
    );
    assert_eq!(
        OracleMarketplace::create_call_escrow(
            &mut ledger,
            1,
            caller(),
            key(1),
            1,
            fee_token()
        ),
        Err(OracleMarketplaceError::EscrowAlreadyExists)
    );
    assert_eq!(OracleMarketplace::get_call_escrow_view(&ledger, 1), settled);
    assert_eq!(OracleMarketplace::get_oracle_metrics(&ledger, key(1)), Ok((1, 0)));
}

#[test]
fn the_last_selection_decides_who_resolves() {
    let mut ledger = ledger_with_penalty(1_000);
    let other = account(4);
    register(&mut ledger, key(1), 200, 500, 600);
    assert_eq!(
        OracleMarketplace::register_oracle(
            &mut ledger,
            other,
            key(2),
            300,
            500,
            600,
            bond_token()
        ),
        Ok(())
    );
    escrow(&mut ledger, 7, key(1), 1_000);
    assert_eq!(OracleMarketplace::get_call_oracle(&ledger, 7), Some(key(1)));
    assert_eq!(
        OracleMarketplace::resolve_call(&mut ledger, 7, other, Resolution::Accurate),
        Err(OracleMarketplaceError::NotSelectedOracle)
    );

    assert_eq!(OracleMarketplace::select_oracle_for_call(&mut ledger, 7, key(2)), Ok(()));
    assert_eq!(OracleMarketplace::get_call_oracle(&ledger, 7), Some(key(2)));
    assert_eq!(
        resolve(&mut ledger, 7, Resolution::Accurate),
        Err(OracleMarketplaceError::NotSelectedOracle)
    );
    assert_eq!(custody(&ledger, fee_token()), 1_000);

    assert_eq!(
        OracleMarketplace::resolve_call(&mut ledger, 7, other, Resolution::Accurate),
        Ok(())
    );
    assert!(ledger.calls().contains(&moved(fee_token(), contract(), other, 30)));
    assert!(ledger.calls().contains(&moved(fee_token(), contract(), admin(), 970)));
    assert_eq!(OracleMarketplace::get_oracle_metrics(&ledger, key(1)), Ok((0, 0)));
    assert_eq!(OracleMarketplace::get_oracle_metrics(&ledger, key(2)), Ok((1, 0)));
    assert_eq!(OracleMarketplace::get_oracle_earnings(&ledger, key(1)), 0);
    assert_eq!(OracleMarketplace::get_oracle_earnings(&ledger, key(2)), 30);
}

#[test]
fn the_penalty_is_also_the_admins_part_of_a_slash() {
    let mut ledger = ledger_with_penalty(2_000);
    register(&mut ledger, key(1), 200, 100, 1_000);
    escrow(&mut ledger, 1, key(1), 1_000);
    assert_eq!(resolve(&mut ledger, 1, Resolution::Inaccurate), Ok(()));
    let oracle = get_oracle(&ledger, &key(1)).unwrap();
    assert_eq!(oracle.staked_amount, 800);
    assert_eq!(oracle.total_slashed, 200);
    assert!(ledger.calls().contains(&moved(bond_token(), contract(), caller(), 160)));
    assert!(ledger.calls().contains(&moved(bond_token(), contract(), admin(), 40)));
}

#[test]
fn at_one_half_the_odd_unit_of_a_slash_is_the_admins() {
    let mut ledger = ledger_with_penalty(5_000);
    register(&mut ledger, key(1), 200, 100, 502);
    escrow(&mut ledger, 1, key(1), 1_000);
    assert_eq!(resolve(&mut ledger, 1, Resolution::Inaccurate), Ok(()));
    assert!(ledger.calls().contains(&moved(bond_token(), contract(), caller(), 125)));
    assert!(ledger.calls().contains(&moved(bond_token(), contract(), admin(), 126)));
}

#[test]
fn a_bounty_of_any_size_is_divided_by_the_fee() {
    let mut ledger = ledger_with_penalty(1_000);
    register(&mut ledger, key(1), 10_000, 500, 600);
    escrow(&mut ledger, 1, key(1), i128::MAX);
    assert_eq!(resolve(&mut ledger, 1, Resolution::Accurate), Ok(()));
    assert_eq!(OracleMarketplace::get_oracle_earnings(&ledger, key(1)), i128::MAX);
    assert!(ledger.calls().contains(&moved(fee_token(), contract(), provider(), i128::MAX)));
}

#[test]
fn a_call_id_is_never_used_again() {
    let mut ledger = ledger_with_penalty(1_000);
    register(&mut ledger, key(1), 200, 500, 600);
    register(&mut ledger, key(2), 200, 500, 600);
    escrow(&mut ledger, 1, key(1), 1_000);
    let opened = OracleMarketplace::get_call_escrow_view(&ledger, 1).unwrap();
    assert_eq!(OracleMarketplace::select_oracle_for_call(&mut ledger, 1, key(2)), Ok(()));
    ledger.set_timestamp(9_000);
    assert_eq!(resolve(&mut ledger, 1, Resolution::Accurate), Ok(()));
    assert_eq!(
        OracleMarketplace::get_call_escrow_view(&ledger, 1),
        Ok(CallEscrow { resolved: true, settled: true, ..opened })
    );
    assert_eq!(
        OracleMarketplace::create_call_escrow(
            &mut ledger,
            1,
            admin(),
            key(2),
            5,
            fee_token()
        ),
        Err(OracleMarketplaceError::EscrowAlreadyExists)
    );
}

#[test]
fn stake_and_slashes_are_all_that_was_put_in() {
    let mut ledger = ledger_with_penalty(1_000);
    register(&mut ledger, key(1), 200, 500, 1_000);
    assert_eq!(OracleMarketplace::increase_bond(&mut ledger, key(1), 234, caller()), Ok(()));
    for call_id in [1, 2] {
        escrow(&mut ledger, call_id, key(1), 10);
        assert_eq!(resolve(&mut ledger, call_id, Resolution::Inaccurate), Ok(()));
    }
    let oracle = get_oracle(&ledger, &key(1)).unwrap();
    assert_eq!(oracle.total_slashed, 123 + 111);
    assert_eq!(oracle.staked_amount + oracle.total_slashed, 1_234);
    assert_eq!(custody(&ledger, bond_token()), oracle.staked_amount);
}

#[test]
fn unknown_calls_and_providers_are_not_found() {
    let mut ledger = ledger_with_penalty(1_000);
    assert_eq!(
        resolve(&mut ledger, 1, Resolution::Accurate),
        Err(OracleMarketplaceError::CallNotFound)
    );
    assert_eq!(
        OracleMarketplace::get_call_escrow_view(&ledger, 1),
        Err(OracleMarketplaceError::CallNotFound)
    );
    assert_eq!(OracleMarketplace::get_call_oracle(&ledger, 1), None);
    assert_eq!(
        OracleMarketplace::get_oracle_metrics(&ledger, key(1)),
        Err(OracleMarketplaceError::OracleNotFound)
    );
    assert_eq!(OracleMarketplace::get_oracle_earnings(&ledger, key(1)), 0);
    assert_eq!(
        OracleMarketplace::rate_oracle(&mut ledger, caller(), key(1), true),
        Err(OracleMarketplaceError::OracleNotFound)
    );
}

#[test]
fn an_inactive_provider_serves_no_calls() {
    let mut ledger = ledger_with_penalty(1_000);
    register(&mut ledger, key(1), 200, 500, 600);
    escrow(&mut ledger, 1, key(1), 1_000);
    assert_eq!(OracleMarketplace::deregister_oracle(&mut ledger, provider(), key(1)), Ok(()));
    assert_eq!(
        OracleMarketplace::select_oracle_for_call(&mut ledger, 2, key(1)),
        Err(OracleMarketplaceError::OracleNotActive)
    );
    assert_eq!(
        resolve(&mut ledger, 1, Resolution::Inaccurate),
        Err(OracleMarketplaceError::OracleNotActive)
    );
}

#[test]
fn a_slash_never_pushes_a_bond_below_its_floor() {
    let mut ledger = ledger_with_penalty(5_000);
    register(&mut ledger, key(1), 200, 300, 500);
    escrow(&mut ledger, 1, key(1), 1_000);
    // Half of 500 would leave 250, below the floor of 300.
    assert_eq!(
        resolve(&mut ledger, 1, Resolution::Inaccurate),
        Err(OracleMarketplaceError::SlashBelowMinStake)
    );
    assert_eq!(get_oracle(&ledger, &key(1)).unwrap().staked_amount, 500);

    // Half of 600 leaves 300, the floor itself.
    assert_eq!(OracleMarketplace::increase_bond(&mut ledger, key(1), 100, caller()), Ok(()));
    assert_eq!(resolve(&mut ledger, 1, Resolution::Inaccurate), Ok(()));
    assert_eq!(get_oracle(&ledger, &key(1)).unwrap().staked_amount, 300);
}

#[test]
fn a_dispute_counts_also_where_nothing_is_slashed() {
    let mut ledger = ledger_with_penalty(0);
    register(&mut ledger, key(1), 200, 500, 600);
    escrow(&mut ledger, 1, key(1), 1_000);
    assert_eq!(resolve(&mut ledger, 1, Resolution::Inaccurate), Ok(()));
    let oracle = get_oracle(&ledger, &key(1)).unwrap();
    assert_eq!((oracle.total_resolved, oracle.total_disputes), (0, 1));
    assert_eq!(oracle.staked_amount, 600);
    assert_eq!(oracle.total_slashed, 0);
    assert_eq!(ledger.calls().last(), Some(&HostCall::SetOracle { pubkey: key(1), oracle }));
}

#[test]
fn nothing_is_transferred_for_an_empty_cut() {
    let mut ledger = ledger_with_penalty(1_000);
    register(&mut ledger, key(1), 0, 500, 600);
    register(&mut ledger, key(2), 10_000, 500, 600);
    escrow(&mut ledger, 1, key(1), 70);
    escrow(&mut ledger, 2, key(2), 80);
    assert_eq!(resolve(&mut ledger, 1, Resolution::Accurate), Ok(()));
    assert_eq!(resolve(&mut ledger, 2, Resolution::Accurate), Ok(()));
    let paid: Vec<&HostCall> = ledger
        .calls()
        .iter()
        .filter(|call| {
            matches!(call, HostCall::Transfer(transfer) if transfer.from == contract())
        })
        .collect();
    assert_eq!(
        paid,
        vec![
            &moved(fee_token(), contract(), admin(), 70),
            &moved(fee_token(), contract(), provider(), 80),
        ]
    );
}

#[test]
fn records_that_no_request_leads_to_are_refused() {
    let host = soroban_sdk::Env::new_with_config(EnvTestConfig { capture_snapshot_at_drop: false });
    let config = MarketplaceConfig {
        admin: admin(),
        cooldown_secs: HOUR,
        default_fee_bps: 100,
        slash_penalty_bps: 1_000,
    };
    let oracle = OracleProvider {
        pubkey: key(1),
        address: provider(),
        fee_bps: 200,
        min_stake: 500,
        staked_amount: 600,
        bond_token: bond_token(),
        total_resolved: u64::MAX,
        total_disputes: 0,
        total_slashed: 0,
        is_active: true,
        registered_at: 0,
        deregister_after: Some(2_000),
    };
    let half_settled = CallEscrow {
        call_id: 1,
        caller: caller(),
        oracle: key(1),
        token: fee_token(),
        amount: 1_000,
        created_at: 0,
        resolved: false,
        settled: true,
    };
    let orphan = CallEscrow { call_id: 2, oracle: key(2), settled: false, ..half_settled };
    let unbound = CallEscrow { call_id: 3, settled: false, ..half_settled };
    let mut storage = Storage::new();
    storage.apply(&HostCall::SetConfig(config));
    storage.apply(&HostCall::SetOracle { pubkey: key(1), oracle });
    storage.apply(&HostCall::SetCallEscrow(half_settled));
    storage.apply(&HostCall::SetCallOracle { call_id: 1, pubkey: key(1) });
    storage.apply(&HostCall::SetCallEscrow(orphan));
    storage.apply(&HostCall::SetCallOracle { call_id: 2, pubkey: key(2) });
    storage.apply(&HostCall::SetCallEscrow(unbound));
    let mut ledger = Ledger::new(host, contract(), 1_999, storage);

    assert_eq!(
        OracleMarketplace::deregister_oracle(&mut ledger, provider(), key(1)),
        Err(OracleMarketplaceError::CooldownActive)
    );
    assert_eq!(
        resolve(&mut ledger, 2, Resolution::Accurate),
        Err(OracleMarketplaceError::OracleNotFound)
    );
    assert_eq!(
        resolve(&mut ledger, 3, Resolution::Accurate),
        Err(OracleMarketplaceError::OracleNotSelectedForCall)
    );
    assert_eq!(
        resolve(&mut ledger, 1, Resolution::Inaccurate),
        Err(OracleMarketplaceError::EscrowAlreadyResolved)
    );

    // An accurate resolution goes by the resolution alone, and the counter stops
    // at its largest value.
    assert_eq!(resolve(&mut ledger, 1, Resolution::Accurate), Ok(()));
    assert_eq!(OracleMarketplace::get_oracle_metrics(&ledger, key(1)), Ok((u64::MAX, 0)));
}

// ---------------------------------------------------------------------------
// Ratings and custody
// ---------------------------------------------------------------------------

#[test]
fn each_user_rates_a_provider_once() {
    let mut ledger = ledger_with_penalty(1_000);
    register(&mut ledger, key(1), 200, 500, 600);
    assert_eq!(OracleMarketplace::rate_oracle(&mut ledger, caller(), key(1), false), Ok(()));
    assert_eq!(OracleMarketplace::rate_oracle(&mut ledger, admin(), key(1), true), Ok(()));
    assert_eq!(
        OracleMarketplace::rate_oracle(&mut ledger, caller(), key(1), true),
        Err(OracleMarketplaceError::AlreadyRated)
    );
    assert_eq!(get_oracle_rating(&ledger, &key(1), &caller()), Some(false));
    assert_eq!(get_oracle_rating(&ledger, &key(1), &admin()), Some(true));
}

#[test]
fn the_contract_holds_what_it_owes() {
    let mut ledger = ledger_with_penalty(1_000);
    register(&mut ledger, key(1), 200, 500, 1_000);
    register(&mut ledger, key(2), 300, 500, 600);
    for (call_id, pubkey, amount) in [(1, key(1), 999), (2, key(1), 501), (3, key(2), 77)] {
        escrow(&mut ledger, call_id, pubkey, amount);
    }
    assert_eq!(custody(&ledger, bond_token()), 1_600);
    assert_eq!(custody(&ledger, fee_token()), 1_577);

    assert_eq!(resolve(&mut ledger, 1, Resolution::Inaccurate), Ok(()));
    assert_eq!(custody(&ledger, bond_token()), 900 + 600);
    assert_eq!(custody(&ledger, fee_token()), 501 + 77);

    assert_eq!(resolve(&mut ledger, 2, Resolution::Accurate), Ok(()));
    assert_eq!(custody(&ledger, bond_token()), 900 + 600);
    assert_eq!(custody(&ledger, fee_token()), 77);
}
