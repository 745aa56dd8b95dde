use vstd::prelude::*;
use crate::address::Address;
use crate::error::BridgeError;

verus! {

/// How a contract of the native ledger is reached.
#[derive(Clone, Copy, Debug, PartialEq, Eq, Structural)]
pub enum Route {
    /// The ledger's built-in governance asset.
    Ont,
    /// The ledger's built-in utility asset.
    Ong,
    /// A contract on the legacy virtual machine.
    NeoVm,
    /// A contract on the current virtual machine.
    Wasm,
}

/// What is asked of a native token contract. The fields stand in the order in
/// which they are handed to the contract, after the method's name.
#[derive(Clone, Copy, Debug, PartialEq, Eq)]
pub enum Request {
    /// `balanceOf(account)`
    BalanceOf { account: Address },
    /// `balanceOf(account, token_id)`
    BalanceOfId { account: Address, token_id: u128 },
    /// `ownerOf(token_id)`
    OwnerOf { token_id: u128 },
    /// `transfer(to, token_id)`
    TransferId { to: Address, token_id: u128 },
    /// `transfer(from, to, token_id, amount)`; a built-in asset has no ids and
    /// takes `from`, `to` and `amount` only.
    TransferAmount { from: Address, to: Address, token_id: u128, amount: u128 },
    /// `lockOep5(oep5, token_id, is_neovm)`
    LockOep5 { oep5: Address, token_id: u128, is_neovm: bool },
}

/// How the bytes that a native contract returns are read.
#[derive(Clone, Copy, Debug, PartialEq, Eq, Structural)]
pub enum Decode {
    /// As a number.
    Number,
    /// As a byte array that holds a number.
    NumberInBytes,
    /// As an address.
    Account,
    /// As a boolean.
    Flag,
}

/// What is asked of a foreign token contract.
#[derive(Clone, Copy, Debug, PartialEq, Eq)]
pub enum EvmCall {
    /// Mint `amount` units of the wrapped asset to `to`.
    MintWont { to: Address, amount: u128 },
    /// The number of single-id tokens that `user` holds.
    BalanceOfErc721 { user: Address },
    /// Mint the single-id token `token_id` to `to`.
    MintErc721 { to: Address, token_id: u128 },
    /// The amount of `token_id` that `user` holds.
    BalanceOfErc1155 { user: Address, token_id: u128 },
    /// Mint `amount` of `token_id` to `to`.
    MintErc1155 { to: Address, token_id: u128, amount: u128 },
}

/// One call that the host makes on behalf of the bridge.
#[derive(Clone, Copy, Debug, PartialEq, Eq)]
pub enum HostCall {
    /// A call of a token contract on the native ledger.
    Token { contract: Address, route: Route, request: Request, decode: Decode },
    /// A call of a token contract on the foreign ledger, made as `caller`.
    Evm { caller: Address, target: Address, call: EvmCall },
    /// The relocation of the bridge's code; it returns the new address.
    Relocate,
}

/// What the host hands back from a call.
#[derive(Clone, Debug, PartialEq, Eq)]
pub enum Reply {
    Number(u128),
    Flag(bool),
    Account(Address),
    Bytes(Vec<u8>),
}

/// The address of the built-in governance asset: nineteen zero bytes and a one.
pub open spec fn is_ont(a: Address) -> bool {
    &&& forall|i: int| 0 <= i < 19 ==> a.bytes[i] == 0u8
    &&& a.bytes[19] == 1u8
}

/// The address of the built-in utility asset: nineteen zero bytes and a two.
pub open spec fn is_ong(a: Address) -> bool {
    &&& forall|i: int| 0 <= i < 19 ==> a.bytes[i] == 0u8
    &&& a.bytes[19] == 2u8
}

/// The address of the built-in governance asset.
pub fn ont_contract_address() -> (a: Address)
    ensures
        is_ont(a),
{
    let mut bytes = [0u8;20];
    bytes[19] = 1;
    Address { bytes }
}

/// The address of the built-in utility asset.
pub fn ong_contract_address() -> (a: Address)
    ensures
        is_ong(a),
{
    let mut bytes = [0u8;20];
    bytes[19] = 2;
    Address { bytes }
}

/// Whether `a` is nineteen zero bytes followed by `last`.
fn is_builtin(a: &Address, last: u8) -> (r: bool)
    ensures
        r == (a.bytes[19] == last && forall|i: int| 0 <= i < 19 ==> a.bytes[i] == 0u8),
{
    let mut i: usize = 0;
    while i < 19
        invariant
            i <= 19,
            forall|j: int| 0 <= j < i ==> a.bytes[j] == 0u8,
        decreases 19 - i,
    {
        if a.bytes[i] != 0 {
            return false;
        }
        i += 1;
    }
    a.bytes[19] == last
}

/// How a single-id contract at `contract` is reached: the built-in assets by
/// their own interface, any other contract by the virtual machine it runs on.
pub open spec fn single_id_route(contract: Address, oep5_is_neovm: bool) -> Route {
    if is_ont(contract) {
        Route::Ont
    } else if is_ong(contract) {
        Route::Ong
    } else if oep5_is_neovm {
        Route::NeoVm
    } else {
        Route::Wasm
    }
}

/// How a balance that comes over `route` is read.
pub open spec fn balance_decode(route: Route) -> Decode {
    if route == Route::NeoVm {
        Decode::NumberInBytes
    } else {
        Decode::Number
    }
}

/// The query for the amount of `token_id` that `account` holds on the
/// multi-id contract `contract`.
pub open spec fn multi_balance_query(contract: Address, account: Address, token_id: u128) -> HostCall {
    HostCall::Token {
        contract,
        route: Route::Wasm,
        request: Request::BalanceOfId { account, token_id },
        decode: Decode::Number,
    }
}

/// The query for the number of tokens that `account` holds on the single-id
/// contract `contract`.
pub open spec fn single_balance_query(
    contract: Address,
    account: Address,
    oep5_is_neovm: bool,
) -> HostCall {
    let route = single_id_route(contract, oep5_is_neovm);
    HostCall::Token {
        contract,
        route,
        request: Request::BalanceOf { account },
        decode: balance_decode(route),
    }
}

/// The query for the owner of `token_id` on the single-id contract `contract`.
pub open spec fn owner_query(contract: Address, token_id: u128, oep5_is_neovm: bool) -> HostCall {
    HostCall::Token {
        contract,
        route: if oep5_is_neovm {
            Route::NeoVm
        } else {
            Route::Wasm
        },
        request: Request::OwnerOf { token_id },
        decode: Decode::Account,
    }
}

/// The order to move `amount` of `token_id` from `from` to `to` on `contract`.
pub open spec fn multi_transfer_order(
    contract: Address,
    from: Address,
    to: Address,
    token_id: u128,
    amount: u128,
) -> HostCall {
    HostCall::Token {
        contract,
        route: if is_ont(contract) {
            Route::Ont
        } else if is_ong(contract) {
            Route::Ong
        } else {
            Route::Wasm
        },
        request: Request::TransferAmount { from, to, token_id, amount },
        decode: Decode::Flag,
    }
}

/// The order to move the single-id token `token_id` on `contract` from the
/// caller to `to`.
pub open spec fn single_transfer_order(
    contract: Address,
    to: Address,
    token_id: u128,
    oep5_is_neovm: bool,
) -> HostCall {
    HostCall::Token {
        contract,
        route: if oep5_is_neovm {
            Route::NeoVm
        } else {
            Route::Wasm
        },
        request: Request::TransferId { to, token_id },
        decode: Decode::Flag,
    }
}

/// The order to the receiver at `contract` to take custody of `token_id` of
/// the single-id contract `oep5`.
pub open spec fn lock_order(
    contract: Address,
    oep5: Address,
    token_id: u128,
    oep5_is_neovm: bool,
) -> HostCall {
    HostCall::Token {
        contract,
        route: Route::Wasm,
        request: Request::LockOep5 { oep5, token_id, is_neovm: oep5_is_neovm },
        decode: Decode::Flag,
    }
}

/// The call that asks `contract` how much of `token_id` the account holds.
pub fn balance_of_oep8(contract: &Address, account: &Address, token_id: u128) -> (call: HostCall)
    ensures
        call == multi_balance_query(*contract, *account, token_id),
{
    HostCall::Token {
        contract: *contract,
        route: Route::Wasm,
        request: Request::BalanceOfId { account: *account, token_id },
        decode: Decode::Number,
    }
}

/// The call that asks `contract` how many tokens the account holds.
pub fn balance_of_oep5(contract: &Address, account: &Address, oep5_is_neovm: bool) -> (call:
    HostCall)
    ensures
        call == single_balance_query(*contract, *account, oep5_is_neovm),
{
    let request = Request::BalanceOf { account: *account };
    if is_builtin(contract, 1) {
        HostCall::Token { contract: *contract, route: Route::Ont, request, decode: Decode::Number }
    } else if is_builtin(contract, 2) {
        HostCall::Token { contract: *contract, route: Route::Ong, request, decode: Decode::Number }
    } else if oep5_is_neovm {
        HostCall::Token {
            contract: *contract,
            route: Route::NeoVm,
            request,
            decode: Decode::NumberInBytes,
        }
    } else {
        HostCall::Token { contract: *contract, route: Route::Wasm, request, decode: Decode::Number }
    }
}

/// The call that asks `contract` who owns `token_id`.
pub fn owner_of(contract: &Address, token_id: u128, oep5_is_neovm: bool) -> (call: HostCall)
    ensures
        call == owner_query(*contract, token_id, oep5_is_neovm),
{
    let route = if oep5_is_neovm {
        Route::NeoVm
    } else {
        Route::Wasm
    };
    HostCall::Token {
        contract: *contract,
        route,
        request: Request::OwnerOf { token_id },
        decode: Decode::Account,
    }
}

/// The call that moves `amount` of `token_id` from `from` to `to` on `contract`.
pub fn transfer_oep8(
    contract: &Address,
    from: &Address,
    to: &Address,
    token_id: u128,
    amount: u128,
) -> (call: HostCall)
    ensures
        call == multi_transfer_order(*contract, *from, *to, token_id, amount),
{
    let route = if is_builtin(contract, 1) {
        Route::Ont
    } else if is_builtin(contract, 2) {
        Route::Ong
    } else {
        Route::Wasm
    };
    HostCall::Token {
        contract: *contract,
        route,
        request: Request::TransferAmount { from: *from, to: *to, token_id, amount },
        decode: Decode::Flag,
    }
}

/// The call that moves the token `token_id` on `contract` from the caller to `to`.
pub fn transfer_oep5(contract: &Address, to: &Address, token_id: u128, oep5_is_neovm: bool) -> (call:
    HostCall)
    ensures
        call == single_transfer_order(*contract, *to, token_id, oep5_is_neovm),
{
    let route = if oep5_is_neovm {
        Route::NeoVm
    } else {
        Route::Wasm
    };
    HostCall::Token {
        contract: *contract,
        route,
        request: Request::TransferId { to: *to, token_id },
        decode: Decode::Flag,
    }
}

/// The call that has the receiver at `contract` take custody of `token_id` of `oep5`.
pub fn lock_oep5(contract: &Address, oep5: &Address, token_id: u128, oep5_is_neovm: bool) -> (call:
    HostCall)
    ensures
        call == lock_order(*contract, *oep5, token_id, oep5_is_neovm),
{
    HostCall::Token {
        contract: *contract,
        route: Route::Wasm,
        request: Request::LockOep5 { oep5: *oep5, token_id, is_neovm: oep5_is_neovm },
        decode: Decode::Flag,
    }
}

/// The number that `reply` holds.
pub open spec fn number_in(reply: Reply) -> Result<u128, BridgeError> {
    match reply {
        Reply::Number(n) => Ok(n),
        _ => Err(BridgeError::UnexpectedReply),
    }
}

/// The address that `reply` holds.
pub open spec fn account_in(reply: Reply) -> Result<Address, BridgeError> {
    match reply {
        Reply::Account(a) => Ok(a),
        _ => Err(BridgeError::UnexpectedReply),
    }
}

/// Whether `reply` confirms a transfer. A contract that answers "no" has failed it.
pub open spec fn confirmation_in(reply: Reply) -> Result<(), BridgeError> {
    match reply {
        Reply::Flag(true) => Ok(()),
        Reply::Flag(false) => Err(BridgeError::TransferFailed),
        _ => Err(BridgeError::UnexpectedReply),
    }
}

/// Reads `reply` as the number that a native contract returned.
pub fn call_neovm_num(reply: &Reply) -> (r: Result<u128, BridgeError>)
    ensures
        r == number_in(*reply),
{
    match reply {
        Reply::Number(n) => Ok(*n),
        _ => Err(BridgeError::UnexpectedReply),
    }
}

/// Reads `reply` as the address that a native contract returned.
pub fn call_neovm_address(reply: &Reply) -> (r: Result<Address, BridgeError>)
    ensures
        r == account_in(*reply),
{
    match reply {
        Reply::Account(a) => Ok(*a),
        _ => Err(BridgeError::UnexpectedReply),
    }
}

/// Reads `reply` as the confirmation of a transfer.
pub fn call_neovm_bool(reply: &Reply) -> (r: Result<(), BridgeError>)
    ensures
        r == confirmation_in(*reply),
{
    match reply {
        Reply::Flag(true) => Ok(()),
        Reply::Flag(false) => Err(BridgeError::TransferFailed),
        _ => Err(BridgeError::UnexpectedReply),
    }
}

/// The name of the method that `request` calls on the token contract.
pub open spec fn method_name(request: Request) -> Seq<char> {
    match request {
        Request::BalanceOf { .. } => "balanceOf"@,
        Request::BalanceOfId { .. } => "balanceOf"@,
        Request::OwnerOf { .. } => "ownerOf"@,
        Request::TransferId { .. } => "transfer"@,
        Request::TransferAmount { .. } => "transfer"@,
        Request::LockOep5 { .. } => "lockOep5"@,
    }
}

/// The name of the method that `request` calls on the token contract.
pub fn method_of(request: &Request) -> (name: &'static str)
    ensures
        name@ == method_name(*request),
{
    match request {
        Request::BalanceOf { .. } => "balanceOf",
        Request::BalanceOfId { .. } => "balanceOf",
        Request::OwnerOf { .. } => "ownerOf",
        Request::TransferId { .. } => "transfer",
        Request::TransferAmount { .. } => "transfer",
        Request::LockOep5 { .. } => "lockOep5",
    }
}

/// One argument of a call of a token contract.
#[derive(Clone, Copy, Debug, PartialEq, Eq)]
pub enum Param {
    Account(Address),
    Number(u128),
    Flag(bool),
}

/// What is handed to the token contract after the method's name, in order.
pub open spec fn params_of(request: Request) -> Seq<Param> {
    match request {
        Request::BalanceOf { account } => seq![Param::Account(account)],
        Request::BalanceOfId { account, token_id } => seq![
            Param::Account(account),
            Param::Number(token_id),
        ],
        Request::OwnerOf { token_id } => seq![Param::Number(token_id)],
        Request::TransferId { to, token_id } => seq![Param::Account(to), Param::Number(token_id)],
        Request::TransferAmount { from, to, token_id, amount } => seq![
            Param::Account(from),
            Param::Account(to),
            Param::Number(token_id),
            Param::Number(amount),
        ],
        Request::LockOep5 { oep5, token_id, is_neovm } => seq![
            Param::Account(oep5),
            Param::Number(token_id),
            Param::Flag(is_neovm),
        ],
    }
}

/// What is handed to the token contract after the method's name, in order.
pub fn arguments(request: &Request) -> (params: Vec<Param>)
    ensures
        params@ == params_of(*request),
{
    let mut params: Vec<Param> = Vec::new();
    match request {
        Request::BalanceOf { account } => {
            params.push(Param::Account(*account));
        },
        Request::BalanceOfId { account, token_id } => {
            params.push(Param::Account(*account));
            params.push(Param::Number(*token_id));
        },
        Request::OwnerOf { token_id } => {
            params.push(Param::Number(*token_id));
        },
        Request::TransferId { to, token_id } => {
            params.push(Param::Account(*to));
            params.push(Param::Number(*token_id));
        },
        Request::TransferAmount { from, to, token_id, amount } => {
            params.push(Param::Account(*from));
            params.push(Param::Account(*to));
            params.push(Param::Number(*token_id));
            params.push(Param::Number(*amount));
        },
        Request::LockOep5 { oep5, token_id, is_neovm } => {
            params.push(Param::Account(*oep5));
            params.push(Param::Number(*token_id));
            params.push(Param::Flag(*is_neovm));
        },
    }
    assert(params@ =~= params_of(*request));
    params
}

} // verus!
