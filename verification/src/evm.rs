use vstd::prelude::*;
use crate::address::Address;
use crate::calls::{EvmCall, HostCall, Reply};
use crate::error::BridgeError;

verus! {

/// The number that `bytes` spell when read with the most significant byte first.
pub open spec fn be_value(bytes: Seq<u8>) -> nat
    decreases bytes.len(),
{
    if bytes.len() == 0 {
        0
    } else {
        be_value(bytes.drop_last()) * 256 + bytes.last() as nat
    }
}

/// The `len` least significant bytes of `value`, most significant byte first.
pub open spec fn be_bytes(value: nat, len: nat) -> Seq<u8>
    decreases len,
{
    if len == 0 {
        Seq::empty()
    } else {
        be_bytes(value / 256, (len - 1) as nat).push((value % 256) as u8)
    }
}

/// Whether `value` can be written in `len` bytes.
pub open spec fn fits_in(value: nat, len: nat) -> bool
    decreases len,
{
    if len == 0 {
        value == 0
    } else {
        fits_in(value / 256, (len - 1) as nat)
    }
}

/// A word of call data that holds an address: twelve zero bytes, then the address.
pub open spec fn addr_word(addr: Address) -> Seq<u8> {
    Seq::new(32, |i: int| if i < 12 { 0u8 } else { addr.bytes[i - 12] })
}

/// A word of call data that holds a number: its 32 bytes, most significant first.
pub open spec fn amount_word(amt: u128) -> Seq<u8> {
    be_bytes(amt as nat, 32)
}

/// The selector of the method that mints wrapped assets and single-id tokens.
pub open spec fn mint_selector() -> Seq<u8> {
    seq![0x40u8, 0xc1u8, 0x0fu8, 0x19u8]
}

/// The selector of the method that reports a single-id balance.
pub open spec fn balance_of_erc721_selector() -> Seq<u8> {
    seq![0x70u8, 0xa0u8, 0x82u8, 0x31u8]
}

/// The selector of the method that reports a multi-id balance.
pub open spec fn balance_of_erc1155_selector() -> Seq<u8> {
    seq![0x00u8, 0xfdu8, 0xd5u8, 0x8eu8]
}

/// The selector of the method that mints multi-id tokens.
pub open spec fn mint_erc1155_selector() -> Seq<u8> {
    seq![0x15u8, 0x6eu8, 0x29u8, 0xf6u8]
}

/// The bytes that are handed to the foreign contract for `call`: the
/// method's selector, then one word for each argument.
pub open spec fn call_data(call: EvmCall) -> Seq<u8> {
    match call {
        EvmCall::MintWont { to, amount } => mint_selector() + addr_word(to) + amount_word(amount),
        EvmCall::BalanceOfErc721 { user } => balance_of_erc721_selector() + addr_word(user),
        EvmCall::MintErc721 { to, token_id } => mint_selector() + addr_word(to) + amount_word(
            token_id,
        ),
        EvmCall::BalanceOfErc1155 { user, token_id } => balance_of_erc1155_selector() + addr_word(
            user,
        ) + amount_word(token_id),
        EvmCall::MintErc1155 { to, token_id, amount } => mint_erc1155_selector() + addr_word(to)
            + amount_word(token_id) + amount_word(amount),
    }
}

/// Reading what `be_bytes` wrote gives the value back, if it fits.
pub proof fn lemma_be_round_trip(value: nat, len: nat)
    requires
        fits_in(value, len),
    ensures
        be_bytes(value, len).len() == len,
        be_value(be_bytes(value, len)) == value,
    decreases len,
{
    if len > 0 {
        let head = be_bytes(value / 256, (len - 1) as nat);
        lemma_be_round_trip(value / 256, (len - 1) as nat);
        let all = be_bytes(value, len);
        assert(all.drop_last() =~= head);
        assert(all.last() == (value % 256) as u8);
    }
}

/// Every number of 128 bits can be written in 32 bytes.
pub proof fn lemma_u128_fits(value: u128)
    ensures
        fits_in(value as nat, 32),
{
    let v0 = value as nat;
    let v1 = v0 / 256;
    let v2 = v1 / 256;
    let v3 = v2 / 256;
    let v4 = v3 / 256;
    let v5 = v4 / 256;
    let v6 = v5 / 256;
    let v7 = v6 / 256;
    let v8 = v7 / 256;
    let v9 = v8 / 256;
    let v10 = v9 / 256;
    let v11 = v10 / 256;
    let v12 = v11 / 256;
    let v13 = v12 / 256;
    let v14 = v13 / 256;
    let v15 = v14 / 256;
    let v16 = v15 / 256;
    assert(v8 < 0x1_0000_0000_0000_0000);
    assert(v16 == 0);
    lemma_zero_fits(16);
    assert(fits_in(v16, 16));
    assert(fits_in(v15, 17));
    assert(fits_in(v14, 18));
    assert(fits_in(v13, 19));
    assert(fits_in(v12, 20));
    assert(fits_in(v11, 21));
    assert(fits_in(v10, 22));
    assert(fits_in(v9, 23));
    assert(fits_in(v8, 24));
    assert(fits_in(v7, 25));
    assert(fits_in(v6, 26));
    assert(fits_in(v5, 27));
    assert(fits_in(v4, 28));
    assert(fits_in(v3, 29));
    assert(fits_in(v2, 30));
    assert(fits_in(v1, 31));
    assert(fits_in(v0, 32));
}

/// Zero can be written in any number of bytes.
pub proof fn lemma_zero_fits(len: nat)
    ensures
        fits_in(0, len),
    decreases len,
{
    if len > 0 {
        lemma_zero_fits((len - 1) as nat);
    }
}

/// A longer prefix never spells a smaller number.
pub proof fn lemma_be_value_grows(bytes: Seq<u8>, i: int, j: int)
    requires
        0 <= i <= j <= bytes.len(),
    ensures
        be_value(bytes.subrange(0, i)) <= be_value(bytes.subrange(0, j)),
    decreases j - i,
{
    if i < j {
        lemma_be_value_grows(bytes, i, j - 1);
        let longer = bytes.subrange(0, j);
        assert(longer.drop_last() =~= bytes.subrange(0, j - 1));
    }
}

/// The word of call data that holds `addr`.
pub fn format_addr(addr: &Address) -> (res: [u8; 32])
    ensures
        res@ == addr_word(*addr),
{
    let mut res = [0u8;32];
    let mut i: usize = 0;
    while i < 20
        invariant
            i <= 20,
            forall|j: int| 0 <= j < 12 ==> res@[j] == 0u8,
            forall|j: int| 12 <= j < 12 + i ==> res@[j] == addr.bytes[j - 12],
            forall|j: int| 12 + i <= j < 32 ==> res@[j] == 0u8,
        decreases 20 - i,
    {
        res[12 + i] = addr.bytes[i];
        i += 1;
    }
    assert(res@ =~= addr_word(*addr));
    res
}

/// The word of call data that holds `amt`.
pub fn format_amount(amt: u128) -> (res: [u8; 32])
    ensures
        res@ == amount_word(amt),
        be_value(res@) == amt,
{
    let mut res = [0u8;32];
    let mut rest: u128 = amt;
    let mut i: usize = 0;
    assert(res@.subrange(32, 32) =~= Seq::<u8>::empty());
    assert(be_bytes(amt as nat, 32) =~= be_bytes(amt as nat, 32) + Seq::<u8>::empty());
    while i < 32
        invariant
            i <= 32,
            be_bytes(amt as nat, 32) == be_bytes(rest as nat, (32 - i) as nat) + res@.subrange(
                32 - i,
                32,
            ),
        decreases 32 - i,
    {
        let ghost before = res@;
        let byte = (rest % 256) as u8;
        res[31 - i] = byte;
        proof {
            let head = be_bytes((rest / 256) as nat, (31 - i) as nat);
            assert(be_bytes(rest as nat, (32 - i) as nat) == head.push(byte));
            assert(res@.subrange(31 - i, 32) =~= seq![byte] + before.subrange(32 - i, 32));
            assert(head.push(byte) + before.subrange(32 - i, 32) =~= head + res@.subrange(
                31 - i,
                32,
            ));
        }
        rest = rest / 256;
        i += 1;
    }
    proof {
        assert(be_bytes(rest as nat, 0) =~= Seq::<u8>::empty());
        assert(res@.subrange(0, 32) =~= res@);
        assert(be_bytes(amt as nat, 32) =~= res@);
        lemma_u128_fits(amt);
        lemma_be_round_trip(amt as nat, 32);
    }
    res
}

/// Appends the bytes of `word` to `data`.
fn put_word(data: &mut Vec<u8>, word: &[u8; 32])
    ensures
        final(data)@ == old(data)@ + word@,
{
    let mut i: usize = 0;
    while i < 32
        invariant
            i <= 32,
            data@ == old(data)@ + word@.subrange(0, i as int),
        decreases 32 - i,
    {
        data.push(word[i]);
        assert(data@ =~= old(data)@ + word@.subrange(0, i + 1));
        i += 1;
    }
    assert(word@.subrange(0, 32) =~= word@);
}

/// A fresh buffer that holds the four bytes of a selector.
fn selector(a: u8, b: u8, c: u8, d: u8) -> (data: Vec<u8>)
    ensures
        data@ == seq![a, b, c, d],
{
    let mut data: Vec<u8> = Vec::new();
    data.push(a);
    data.push(b);
    data.push(c);
    data.push(d);
    assert(data@ =~= seq![a, b, c, d]);
    data
}

/// The call data that mints `amount` units of the wrapped asset to `to_acct`.
pub fn gen_wont_mint_data(to_acct: &Address, amount: u128) -> (data: Vec<u8>)
    ensures
        data@ == call_data(EvmCall::MintWont { to: *to_acct, amount }),
{
    let mut data = selector(0x40, 0xc1, 0x0f, 0x19);
    put_word(&mut data, &format_addr(to_acct));
    put_word(&mut data, &format_amount(amount));
    data
}

/// The call data that mints the single-id token `token_id` to `to_acct`.
pub fn gen_erc721_mint_data(to_acct: &Address, token_id: u128) -> (data: Vec<u8>)
    ensures
        data@ == call_data(EvmCall::MintErc721 { to: *to_acct, token_id }),
{
    let mut data = selector(0x40, 0xc1, 0x0f, 0x19);
    put_word(&mut data, &format_addr(to_acct));
    put_word(&mut data, &format_amount(token_id));
    data
}

/// The call data that mints `amount` of the multi-id token `token_id` to `to_acct`.
pub fn gen_erc1155_mint_data(to_acct: &Address, token_id: u128, amount: u128) -> (data: Vec<u8>)
    ensures
        data@ == call_data(EvmCall::MintErc1155 { to: *to_acct, token_id, amount }),
{
    let mut data = selector(0x15, 0x6e, 0x29, 0xf6);
    put_word(&mut data, &format_addr(to_acct));
    put_word(&mut data, &format_amount(token_id));
    put_word(&mut data, &format_amount(amount));
    data
}

/// The call data that asks how many single-id tokens `addr` holds.
pub fn gen_erc721_balance_of_data(addr: &Address) -> (data: Vec<u8>)
    ensures
        data@ == call_data(EvmCall::BalanceOfErc721 { user: *addr }),
{
    let mut data = selector(0x70, 0xa0, 0x82, 0x31);
    put_word(&mut data, &format_addr(addr));
    data
}

/// The call data that asks how much of `token_id` the account `user` holds.
pub fn gen_erc1155_balance_of_data(user: &Address, token_id: u128) -> (data: Vec<u8>)
    ensures
        data@ == call_data(EvmCall::BalanceOfErc1155 { user: *user, token_id }),
{
    let mut data = selector(0x00, 0xfd, 0xd5, 0x8e);
    put_word(&mut data, &format_addr(user));
    put_word(&mut data, &format_amount(token_id));
    data
}

/// The bytes that the host hands to the foreign contract for `call`.
pub fn encode(call: &EvmCall) -> (data: Vec<u8>)
    ensures
        data@ == call_data(*call),
{
    match call {
        EvmCall::MintWont { to, amount } => gen_wont_mint_data(to, *amount),
        EvmCall::BalanceOfErc721 { user } => gen_erc721_balance_of_data(user),
        EvmCall::MintErc721 { to, token_id } => gen_erc721_mint_data(to, *token_id),
        EvmCall::BalanceOfErc1155 { user, token_id } => gen_erc1155_balance_of_data(
            user,
            *token_id,
        ),
        EvmCall::MintErc1155 { to, token_id, amount } => gen_erc1155_mint_data(
            to,
            *token_id,
            *amount,
        ),
    }
}

/// The call that mints `amount` units of the wrapped asset on `target` to `to`.
pub fn mint_wont(caller: &Address, target: &Address, to: &Address, amount: u128) -> (call: HostCall)
    ensures
        call == (HostCall::Evm {
            caller: *caller,
            target: *target,
            call: EvmCall::MintWont { to: *to, amount },
        }),
{
    HostCall::Evm { caller: *caller, target: *target, call: EvmCall::MintWont { to: *to, amount } }
}

/// The call that asks `target` how many single-id tokens `user` holds.
pub fn balance_of_erc721(caller: &Address, target: &Address, user: &Address) -> (call: HostCall)
    ensures
        call == (HostCall::Evm {
            caller: *caller,
            target: *target,
            call: EvmCall::BalanceOfErc721 { user: *user },
        }),
{
    HostCall::Evm { caller: *caller, target: *target, call: EvmCall::BalanceOfErc721 { user: *user } }
}

/// The call that mints the single-id token `token_id` on `target` to `to`.
pub fn mint_erc721(caller: &Address, target: &Address, to: &Address, token_id: u128) -> (call:
    HostCall)
    ensures
        call == (HostCall::Evm {
            caller: *caller,
            target: *target,
            call: EvmCall::MintErc721 { to: *to, token_id },
        }),
{
    HostCall::Evm {
        caller: *caller,
        target: *target,
        call: EvmCall::MintErc721 { to: *to, token_id },
    }
}

/// The call that mints `amount` of `token_id` on `target` to `to`.
pub fn mint_erc1155(
    caller: &Address,
    target: &Address,
    to: &Address,
    token_id: u128,
    amount: u128,
) -> (call: HostCall)
    ensures
        call == (HostCall::Evm {
            caller: *caller,
            target: *target,
            call: EvmCall::MintErc1155 { to: *to, token_id, amount },
        }),
{
    HostCall::Evm {
        caller: *caller,
        target: *target,
        call: EvmCall::MintErc1155 { to: *to, token_id, amount },
    }
}

/// The call that asks `target` how much of `token_id` the account `user` holds.
pub fn balance_of_erc1155(caller: &Address, target: &Address, user: &Address, token_id: u128) -> (call:
    HostCall)
    ensures
        call == (HostCall::Evm {
            caller: *caller,
            target: *target,
            call: EvmCall::BalanceOfErc1155 { user: *user, token_id },
        }),
{
    HostCall::Evm {
        caller: *caller,
        target: *target,
        call: EvmCall::BalanceOfErc1155 { user: *user, token_id },
    }
}

/// The balance that a foreign contract reported in `res`: zero if it
/// returned nothing; else the number in the first 32 bytes, which must be
/// there and must fit in 128 bits.
pub open spec fn balance_in(res: Seq<u8>) -> Result<u128, BridgeError> {
    if res.len() == 0 {
        Ok(0u128)
    } else if res.len() < 32 || be_value(res.subrange(0, 32)) > u128::MAX {
        Err(BridgeError::MalformedNumber)
    } else {
        Ok(be_value(res.subrange(0, 32)) as u128)
    }
}

/// The balance that `reply` reports, if it holds the bytes of a foreign contract.
pub open spec fn foreign_balance_in(reply: Reply) -> Result<u128, BridgeError> {
    match reply {
        Reply::Bytes(res) => balance_in(res@),
        _ => Err(BridgeError::UnexpectedReply),
    }
}

/// Reads the balance that a foreign contract reported in `res`.
pub fn decode_balance(res: &[u8]) -> (r: Result<u128, BridgeError>)
    ensures
        r == balance_in(res@),
{
    if res.len() == 0 {
        return Ok(0);
    }
    if res.len() < 32 {
        return Err(BridgeError::MalformedNumber);
    }
    let mut acc: u128 = 0;
    let mut i: usize = 0;
    assert(res@.subrange(0, 0) =~= Seq::<u8>::empty());
    while i < 32
        invariant
            i <= 32,
            res@.len() >= 32,
            acc == be_value(res@.subrange(0, i as int)),
        decreases 32 - i,
    {
        let byte = res[i];
        proof {
            let longer = res@.subrange(0, i + 1);
            assert(longer.drop_last() =~= res@.subrange(0, i as int));
            assert(longer.last() == byte);
            assert(be_value(longer) == acc * 256 + byte);
            lemma_be_value_grows(res@.subrange(0, 32), i + 1, 32);
            assert(res@.subrange(0, 32).subrange(0, i + 1) =~= longer);
            assert(res@.subrange(0, 32).subrange(0, 32) =~= res@.subrange(0, 32));
        }
        if acc > (u128::MAX - byte as u128) / 256 {
            return Err(BridgeError::MalformedNumber);
        }
        acc = acc * 256 + byte as u128;
        i += 1;
    }
    Ok(acc)
}

/// Reads `reply` as the balance that a foreign contract reported.
pub fn foreign_balance(reply: &Reply) -> (r: Result<u128, BridgeError>)
    ensures
        r == foreign_balance_in(*reply),
{
    match reply {
        Reply::Bytes(res) => decode_balance(res.as_slice()),
        _ => Err(BridgeError::UnexpectedReply),
    }
}

/// What `format_amount` writes, `decode_balance` reads back.
pub proof fn law_amount_round_trip(amt: u128)
    ensures
        balance_in(amount_word(amt)) == Ok::<u128, BridgeError>(amt),
{
    lemma_u128_fits(amt);
    lemma_be_round_trip(amt as nat, 32);
    assert(amount_word(amt).subrange(0, 32) =~= amount_word(amt));
}

} // verus!
