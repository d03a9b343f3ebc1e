//! What the contract asks of the Soroban host, and the choice of the token
//! interface for a transfer.
use vstd::prelude::*;

use crate::events::Event;
use crate::ledger::{Ledger, LedgerView};
use crate::types::{Address, BytesN, CallEscrow, MarketplaceConfig, OracleProvider};

verus! {

/// The handle to the Soroban host, `soroban_sdk::Env`. It is carried to the
/// SDK's own functions; nothing is read from it.
#[verifier::external_type_specification]
#[verifier::external_body]
pub struct ExSdkEnv(soroban_sdk::Env);

/// Strkey of the sentinel address standing in for native XLM.
pub const NATIVE_XLM_SENTINEL: &'static str =
    "CAAAAAAAAAAAAAAAAAAAAAAAAAAAAAAAAAAAAAAAAAAAAAAAAAAABSC4";

/// The token interface through which a transfer is made.
#[derive(Clone, Copy, Debug, PartialEq, Eq, Structural)]
pub enum TokenInterface {
    /// The Stellar Asset Contract.
    StellarAsset,
    /// The standard token interface.
    Token,
}

/// A movement of tokens between two parties.
#[derive(Clone, Copy, Debug, PartialEq)]
pub struct Transfer {
    pub interface: TokenInterface,
    pub token: Address,
    pub from: Address,
    pub to: Address,
    pub amount: i128,
}

/// One request to the host, in the order in which an invocation makes them.
/// Performing an invocation is performing its calls: if one of them traps, the
/// host undoes the whole invocation.
#[derive(Clone, Copy, Debug, PartialEq)]
pub enum HostCall {
    /// Trap unless the address has authorized the invocation.
    RequireAuth(Address),
    SetConfig(MarketplaceConfig),
    SetOracle { pubkey: BytesN<32>, oracle: OracleProvider },
    AddToOracleList(BytesN<32>),
    RemoveFromOracleList(BytesN<32>),
    SetCallOracle { call_id: u64, pubkey: BytesN<32> },
    SetCallEscrow(CallEscrow),
    SetOracleEarnings { pubkey: BytesN<32>, earnings: i128 },
    SetOracleRating { pubkey: BytesN<32>, user: Address, satisfied: bool },
    Transfer(Transfer),
    Publish(Event),
}

/// The contract address whose hash is all zeros: what the sentinel strkey
/// spells.
pub open spec fn is_native_xlm_address(address: Address) -> bool {
    address matches Address::Contract(hash) && forall|i: int|
        0 <= i < 32 ==> #[trigger] hash.array[i] == 0
}

/// Calls `soroban_sdk::Address::from_string` on `soroban_sdk::String::from_str`
/// of a strkey and takes the address apart with
/// `soroban_sdk::Address::to_payload`. `from_string` traps on a string that is
/// no account or contract strkey, so the contract speaks of the sentinel alone:
/// decoded, it is the contract address whose hash is all zeros.
#[verifier::external_body]
fn address_from_strkey(host: &soroban_sdk::Env, strkey: &str) -> (address: Address)
    requires
        strkey@ == NATIVE_XLM_SENTINEL@,
    ensures
        is_native_xlm_address(address),
{
    let address = soroban_sdk::Address::from_string(&soroban_sdk::String::from_str(host, strkey));
    match address.to_payload().unwrap() {
        soroban_sdk::address_payload::AddressPayload::AccountIdPublicKeyEd25519(key) => {
            Address::Account(BytesN { array: key.to_array() })
        },
        soroban_sdk::address_payload::AddressPayload::ContractIdHash(hash) => {
            Address::Contract(BytesN { array: hash.to_array() })
        },
    }
}

/// Whether a token address is the sentinel for native XLM.
pub fn is_native_xlm(ledger: &Ledger, addr: &Address) -> (native: bool)
    ensures
        native == is_native_xlm_address(*addr),
        native <==> (*addr matches Address::Contract(hash) && forall|i: int|
            0 <= i < 32 ==> #[trigger] hash.array[i] == 0),
{
    let sentinel = address_from_strkey(ledger.host(), NATIVE_XLM_SENTINEL);
    proof {
        if is_native_xlm_address(*addr) {
            assert(addr->Contract_0.array =~= sentinel->Contract_0.array);
        }
    }
    *addr == sentinel
}

/// The transfer of `amount` of `token`: native XLM goes through the Stellar
/// Asset Contract, every other asset through the standard token interface.
pub open spec fn transfer_of(token: Address, from: Address, to: Address, amount: i128) -> HostCall {
    HostCall::Transfer(
        Transfer {
            interface: if is_native_xlm_address(token) {
                TokenInterface::StellarAsset
            } else {
                TokenInterface::Token
            },
            token,
            from,
            to,
            amount,
        },
    )
}

/// Transfer `amount` of `token` between two accounts.
///
/// Native XLM is sentinel-addressed and must go through the SAC interface;
/// every other asset uses the standard token interface.
pub fn transfer_token(
    ledger: &mut Ledger,
    token: &Address,
    from: &Address,
    to: &Address,
    amount: i128,
)
    requires
        old(ledger).wf(),
    ensures
        final(ledger).wf(),
        final(ledger)@ == old(ledger)@.perform(transfer_of(*token, *from, *to, amount)),
{
    let interface = if is_native_xlm(ledger, token) {
        TokenInterface::StellarAsset
    } else {
        TokenInterface::Token
    };
    ledger.perform(
        HostCall::Transfer(Transfer { interface, token: *token, from: *from, to: *to, amount }),
    );
}

/// The transfers that pay `amount`: one if it is positive, none otherwise.
pub open spec fn payment(token: Address, from: Address, to: Address, amount: i128) -> Seq<
    HostCall,
> {
    if amount > 0 {
        seq![transfer_of(token, from, to, amount)]
    } else {
        seq![]
    }
}

/// Transfer `amount` of `token` if there is anything to transfer.
pub fn pay(ledger: &mut Ledger, token: &Address, from: &Address, to: &Address, amount: i128)
    requires
        old(ledger).wf(),
    ensures
        final(ledger).wf(),
        final(ledger)@ == (LedgerView {
            calls: old(ledger)@.calls + payment(*token, *from, *to, amount),
            ..old(ledger)@
        }),
{
    if amount > 0 {
        transfer_token(ledger, token, from, to, amount);
    }
    assert(ledger@.calls =~= old(ledger)@.calls + payment(*token, *from, *to, amount));
}

} // verus!
