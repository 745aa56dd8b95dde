use std::collections::HashMap;

use nft_bridge::address::Address;
use nft_bridge::bridge::{
    add_oep5_neovm_receiver, get_oep8_ids, initialize, register_oep5_erc721_pair,
    register_oep8_erc1155_pair, Bridge,
};
use nft_bridge::calls::{EvmCall, HostCall, Reply, Request};
use nft_bridge::error::BridgeError;
use nft_bridge::events::{Event, Field};
use nft_bridge::evm::format_amount;
use nft_bridge::invocation::Invocation;
use nft_bridge::transfer::{
    oep5_to_erc721, oep8_to_erc1155, Oep5Stage, Oep5Transfer, Oep8Stage, Oep8Transfer,
    RECEIVER_THRESHOLD,
};

/// Token contracts that do what they are asked, unless told to cheat.
struct Ledgers {
    single_balances: HashMap<(Address, Address), u128>,
    owners: HashMap<(Address, u128), Address>,
    multi_balances: HashMap<(Address, Address, u128), u128>,
    foreign_single: HashMap<(Address, Address), u128>,
    foreign_multi: HashMap<(Address, Address, u128), u128>,
    lock_moves_token: bool,
    lock_reports: bool,
    transfer_moves_tokens: bool,
    mint_delivers: Option<u128>,
    calls: Vec<HostCall>,
}

impl Ledgers {
    fn new() -> Ledgers {
        Ledgers {
            single_balances: HashMap::new(),
            owners: HashMap::new(),
            multi_balances: HashMap::new(),
            foreign_single: HashMap::new(),
            foreign_multi: HashMap::new(),
            lock_moves_token: true,
            lock_reports: true,
            transfer_moves_tokens: true,
            mint_delivers: None,
            calls: Vec::new(),
        }
    }

    fn perform(&mut self, call: &HostCall) -> Reply {
        self.calls.push(*call);
        match *call {
            HostCall::Token { contract, request, .. } => match request {
                Request::BalanceOf { account } => {
                    Reply::Number(*self.single_balances.get(&(contract, account)).unwrap_or(&0))
                }
                Request::BalanceOfId { account, token_id } => Reply::Number(
                    *self.multi_balances.get(&(contract, account, token_id)).unwrap_or(&0),
                ),
                Request::OwnerOf { token_id } => Reply::Account(
                    *self.owners.get(&(contract, token_id)).unwrap_or(&Address::zero()),
                ),
                Request::LockOep5 { oep5, token_id, .. } => {
                    if self.lock_moves_token {
                        self.owners.insert((oep5, token_id), contract);
                        *self.single_balances.entry((oep5, contract)).or_insert(0) += 1;
                    }
                    Reply::Flag(self.lock_reports)
                }
                Request::TransferAmount { from, to, token_id, amount } => {
                    if self.transfer_moves_tokens {
                        let held = self.multi_balances.entry((contract, from, token_id)).or_insert(0);
                        if *held < amount {
                            return Reply::Flag(false);
                        }
                        *held -= amount;
                        *self.multi_balances.entry((contract, to, token_id)).or_insert(0) += amount;
                    }
                    Reply::Flag(true)
                }
                Request::TransferId { .. } => Reply::Flag(false),
            },
            HostCall::Evm { target, call, .. } => match call {
                EvmCall::BalanceOfErc721 { user } => Reply::Bytes(
                    format_amount(*self.foreign_single.get(&(target, user)).unwrap_or(&0)).to_vec(),
                ),
                EvmCall::BalanceOfErc1155 { user, token_id } => Reply::Bytes(
                    format_amount(*self.foreign_multi.get(&(target, user, token_id)).unwrap_or(&0))
                        .to_vec(),
                ),
                EvmCall::MintErc721 { to, .. } => {
                    *self.foreign_single.entry((target, to)).or_insert(0) +=
                        self.mint_delivers.unwrap_or(1);
                    Reply::Bytes(vec![])
                }
                EvmCall::MintErc1155 { to, token_id, amount } => {
                    *self.foreign_multi.entry((target, to, token_id)).or_insert(0) +=
                        self.mint_delivers.unwrap_or(amount);
                    Reply::Bytes(vec![])
                }
                EvmCall::MintWont { .. } => Reply::Bytes(vec![]),
            },
            HostCall::Relocate => Reply::Account(Address::zero()),
        }
    }

    fn mints(&self) -> usize {
        self.calls
            .iter()
            .filter(|c| {
                matches!(
                    c,
                    HostCall::Evm { call: EvmCall::MintErc721 { .. }, .. }
                        | HostCall::Evm { call: EvmCall::MintErc1155 { .. }, .. }
                )
            })
            .count()
    }
}

fn t_this() -> Address {
    Address::repeat_byte(0xee)
}

fn t_admin() -> Address {
    Address::repeat_byte(1)
}

fn t_holder() -> Address {
    Address::repeat_byte(2)
}

fn t_recipient() -> Address {
    Address::repeat_byte(3)
}

fn t_oep() -> Address {
    Address::repeat_byte(0x11)
}

fn t_erc() -> Address {
    Address::repeat_byte(0x22)
}

fn t_call(signers: &[Address]) -> Invocation {
    let mut call = Invocation::new(t_this());
    for s in signers {
        call.add_witness(*s);
    }
    call
}

fn t_bridge(receivers: &[Address]) -> Bridge {
    let mut bridge = Bridge::new();
    let mut call = t_call(&[t_admin()]);
    assert_eq!(initialize(&mut bridge, &call, &t_admin()), Ok(true));
    assert_eq!(
        register_oep5_erc721_pair(&mut bridge, &mut call, b"cats", &t_oep(), &t_erc(), false),
        Ok(true)
    );
    assert_eq!(
        register_oep8_erc1155_pair(&mut bridge, &mut call, b"gems", &t_oep(), &t_erc()),
        Ok(true)
    );
    assert_eq!(add_oep5_neovm_receiver(&mut bridge, &call, receivers), Ok(()));
    bridge
}

fn run_single(
    bridge: &Bridge,
    call: &mut Invocation,
    ledgers: &mut Ledgers,
    token_id: u128,
) -> Result<Oep5Transfer, BridgeError> {
    let mut transfer = oep5_to_erc721(bridge, call, &t_holder(), &t_recipient(), token_id, b"cats")?;
    while let Some(next) = transfer.next_call() {
        let reply = ledgers.perform(&next);
        transfer = transfer.resume(bridge, call, &reply)?;
    }
    assert!(transfer.is_done());
    Ok(transfer)
}

fn run_multi(
    bridge: &mut Bridge,
    call: &mut Invocation,
    ledgers: &mut Ledgers,
    token_id: u128,
    amount: u128,
) -> Result<Oep8Transfer, BridgeError> {
    let mut transfer =
        oep8_to_erc1155(bridge, call, &t_holder(), &t_recipient(), token_id, b"gems", amount)?;
    while let Some(next) = transfer.next_call() {
        let reply = ledgers.perform(&next);
        transfer = transfer.resume(bridge, call, &reply)?;
    }
    assert!(transfer.is_done());
    Ok(transfer)
}

fn single_id_event(token_id: u128) -> Event {
    Event {
        label: "oep5ToOrc721",
        fields: vec![
            Field::Account(t_holder()),
            Field::Account(t_recipient()),
            Field::Number(token_id),
            Field::Account(t_oep()),
            Field::Account(t_erc()),
        ],
    }
}

fn multi_id_event(token_id: u128, amount: u128) -> Event {
    Event {
        label: "oep8ToOrc1155",
        fields: vec![
            Field::Account(t_holder()),
            Field::Account(t_recipient()),
            Field::Number(token_id),
            Field::Number(amount),
            Field::Account(t_oep()),
            Field::Account(t_erc()),
        ],
    }
}

#[test]
fn threshold_is_one_thousand() {
    assert_eq!(RECEIVER_THRESHOLD, 1000);
}

#[test]
fn single_id_transfer_mints_one_when_custody_moves() {
    let receiver = Address::repeat_byte(0x31);
    let bridge = t_bridge(&[receiver]);
    let mut ledgers = Ledgers::new();
    ledgers.single_balances.insert((t_oep(), receiver), 500);
    ledgers.owners.insert((t_oep(), 7), t_holder());
    ledgers.foreign_single.insert((t_erc(), t_recipient()), 4);
    let mut call = t_call(&[t_holder()]);

    let done = run_single(&bridge, &mut call, &mut ledgers, 7).unwrap();
    assert_eq!(done.stage, Oep5Stage::Done);
    assert_eq!(ledgers.single_balances[&(t_oep(), receiver)], 501);
    assert_eq!(ledgers.owners[&(t_oep(), 7)], receiver);
    assert_eq!(ledgers.foreign_single[&(t_erc(), t_recipient())], 5);
    assert_eq!(ledgers.mints(), 1);
    assert_eq!(call.events, vec![single_id_event(7)]);
    assert_eq!(
        ledgers.calls[5],
        HostCall::Evm {
            caller: t_this(),
            target: t_erc(),
            call: EvmCall::MintErc721 { to: t_recipient(), token_id: 7 }
        }
    );
    assert_eq!(ledgers.calls.len(), 7);
}

#[test]
fn single_id_transfer_without_delta_succeeds_and_mints_nothing() {
    let receiver = Address::repeat_byte(0x31);
    let bridge = t_bridge(&[receiver]);
    let mut ledgers = Ledgers::new();
    ledgers.lock_moves_token = false;
    ledgers.single_balances.insert((t_oep(), receiver), 500);
    ledgers.owners.insert((t_oep(), 7), t_holder());
    let mut call = t_call(&[t_holder()]);

    let done = run_single(&bridge, &mut call, &mut ledgers, 7).unwrap();
    assert!(done.is_done());
    assert_eq!(done.next_call(), None);
    assert_eq!(ledgers.mints(), 0);
    assert!(!ledgers.foreign_single.contains_key(&(t_erc(), t_recipient())));
    assert!(call.events.is_empty());
    assert_eq!(ledgers.calls.len(), 4);
}

#[test]
fn single_id_transfer_needs_the_holders_witness() {
    let receiver = Address::repeat_byte(0x31);
    let bridge = t_bridge(&[receiver]);
    let call = t_call(&[t_admin(), t_recipient()]);
    assert_eq!(
        oep5_to_erc721(&bridge, &call, &t_holder(), &t_recipient(), 7, b"cats"),
        Err(BridgeError::Unauthorized)
    );
}

#[test]
fn single_id_transfer_needs_a_single_id_pair() {
    let receiver = Address::repeat_byte(0x31);
    let bridge = t_bridge(&[receiver]);
    let call = t_call(&[t_holder()]);
    assert_eq!(
        oep5_to_erc721(&bridge, &call, &t_holder(), &t_recipient(), 7, b"dogs"),
        Err(BridgeError::PairNotFound)
    );
    assert_eq!(
        oep5_to_erc721(&bridge, &call, &t_holder(), &t_recipient(), 7, b"gems"),
        Err(BridgeError::PairNotFound)
    );
}

#[test]
fn single_id_transfer_needs_a_receiver() {
    let bridge = t_bridge(&[]);
    let call = t_call(&[t_holder()]);
    assert_eq!(
        oep5_to_erc721(&bridge, &call, &t_holder(), &t_recipient(), 7, b"cats"),
        Err(BridgeError::NoReceiverAvailable)
    );
}

#[test]
fn select_receiver_fails_when_all_are_full() {
    let r1 = Address::repeat_byte(0x31);
    let r2 = Address::repeat_byte(0x32);
    let bridge = t_bridge(&[r1, r2]);
    let mut ledgers = Ledgers::new();
    ledgers.single_balances.insert((t_oep(), r1), 1000);
    ledgers.single_balances.insert((t_oep(), r2), 5000);
    ledgers.owners.insert((t_oep(), 7), t_holder());
    let mut call = t_call(&[t_holder()]);
    assert_eq!(
        run_single(&bridge, &mut call, &mut ledgers, 7),
        Err(BridgeError::NoReceiverAvailable)
    );
    assert_eq!(ledgers.calls.len(), 2);
    assert_eq!(ledgers.mints(), 0);
}

#[test]
fn select_receiver_takes_first_under_threshold() {
    let r1 = Address::repeat_byte(0x31);
    let r2 = Address::repeat_byte(0x32);
    let r3 = Address::repeat_byte(0x33);
    let bridge = t_bridge(&[r1, r2, r3]);
    let call = t_call(&[t_holder()]);
    let start = oep5_to_erc721(&bridge, &call, &t_holder(), &t_recipient(), 7, b"cats").unwrap();
    assert_eq!(start.stage, Oep5Stage::Scan { index: 0, candidate: r1 });
    let mut c = t_call(&[t_holder()]);
    let second = start.resume(&bridge, &mut c, &Reply::Number(1000)).unwrap();
    assert_eq!(second.stage, Oep5Stage::Scan { index: 1, candidate: r2 });
    let chosen = second.resume(&bridge, &mut c, &Reply::Number(999)).unwrap();
    assert_eq!(chosen.stage, Oep5Stage::Owner { receiver: r2, before: 999 });

    let first = start.resume(&bridge, &mut c, &Reply::Number(0)).unwrap();
    assert_eq!(first.stage, Oep5Stage::Owner { receiver: r1, before: 0 });

    let third = second.resume(&bridge, &mut c, &Reply::Number(1000)).unwrap();
    assert_eq!(third.stage, Oep5Stage::Scan { index: 2, candidate: r3 });
    assert_eq!(
        third.resume(&bridge, &mut c, &Reply::Number(u128::MAX)),
        Err(BridgeError::NoReceiverAvailable)
    );
}

#[test]
fn single_id_transfer_checks_the_owner() {
    let receiver = Address::repeat_byte(0x31);
    let bridge = t_bridge(&[receiver]);
    let mut ledgers = Ledgers::new();
    ledgers.owners.insert((t_oep(), 7), t_recipient());
    let mut call = t_call(&[t_holder()]);
    assert_eq!(run_single(&bridge, &mut call, &mut ledgers, 7), Err(BridgeError::InvalidOwner));
    assert_eq!(ledgers.calls.len(), 2);
}

#[test]
fn single_id_transfer_aborts_when_lock_is_refused() {
    let receiver = Address::repeat_byte(0x31);
    let bridge = t_bridge(&[receiver]);
    let mut ledgers = Ledgers::new();
    ledgers.lock_reports = false;
    ledgers.owners.insert((t_oep(), 7), t_holder());
    let mut call = t_call(&[t_holder()]);
    assert_eq!(run_single(&bridge, &mut call, &mut ledgers, 7), Err(BridgeError::TransferFailed));
    assert_eq!(ledgers.mints(), 0);
}

#[test]
fn single_id_transfer_aborts_on_wrong_mint() {
    let receiver = Address::repeat_byte(0x31);
    let bridge = t_bridge(&[receiver]);
    for delivered in [0u128, 2] {
        let mut ledgers = Ledgers::new();
        ledgers.mint_delivers = Some(delivered);
        ledgers.owners.insert((t_oep(), 7), t_holder());
        let mut call = t_call(&[t_holder()]);
        assert_eq!(run_single(&bridge, &mut call, &mut ledgers, 7), Err(BridgeError::MintFailed));
        assert!(call.events.is_empty());
    }
}

#[test]
fn single_id_transfer_aborts_when_balance_shrinks() {
    let receiver = Address::repeat_byte(0x31);
    let bridge = t_bridge(&[receiver]);
    let call = t_call(&[t_holder()]);
    let mut c = t_call(&[t_holder()]);
    let t = oep5_to_erc721(&bridge, &call, &t_holder(), &t_recipient(), 7, b"cats").unwrap();
    let t = t.resume(&bridge, &mut c, &Reply::Number(10)).unwrap();
    let t = t.resume(&bridge, &mut c, &Reply::Account(t_holder())).unwrap();
    let t = t.resume(&bridge, &mut c, &Reply::Flag(true)).unwrap();
    assert_eq!(t.stage, Oep5Stage::Custody { receiver, before: 10 });
    assert_eq!(t.resume(&bridge, &mut c, &Reply::Number(9)), Err(BridgeError::BalanceDecreased));
}

#[test]
fn transfers_reject_answers_of_the_wrong_kind() {
    let receiver = Address::repeat_byte(0x31);
    let mut bridge = t_bridge(&[receiver]);
    let call = t_call(&[t_holder()]);
    let mut c = t_call(&[t_holder()]);
    let t = oep5_to_erc721(&bridge, &call, &t_holder(), &t_recipient(), 7, b"cats").unwrap();
    assert_eq!(t.resume(&bridge, &mut c, &Reply::Flag(true)), Err(BridgeError::UnexpectedReply));
    let done = Oep5Transfer { stage: Oep5Stage::Done, ..t };
    assert_eq!(done.resume(&bridge, &mut c, &Reply::Number(1)), Err(BridgeError::UnexpectedReply));
    let mint = Oep5Transfer { stage: Oep5Stage::Mint { before: 0 }, ..t };
    assert_eq!(mint.resume(&bridge, &mut c, &Reply::Number(1)), Err(BridgeError::UnexpectedReply));
    let foreign = Oep5Transfer { stage: Oep5Stage::ForeignBefore, ..t };
    assert_eq!(
        foreign.resume(&bridge, &mut c, &Reply::Bytes(vec![1, 2, 3])),
        Err(BridgeError::MalformedNumber)
    );

    let m = oep8_to_erc1155(&bridge, &call, &t_holder(), &t_recipient(), 7, b"gems", 1).unwrap();
    assert_eq!(
        m.resume(&mut bridge, &mut c, &Reply::Account(receiver)),
        Err(BridgeError::UnexpectedReply)
    );
    let done = Oep8Transfer { stage: Oep8Stage::Done, ..m };
    assert_eq!(
        done.resume(&mut bridge, &mut c, &Reply::Number(1)),
        Err(BridgeError::UnexpectedReply)
    );
    assert!(c.events.is_empty());
}

#[test]
fn multi_id_transfer_mints_exactly_the_amount() {
    let mut bridge = t_bridge(&[]);
    let mut ledgers = Ledgers::new();
    ledgers.multi_balances.insert((t_oep(), t_holder(), 42), 10);
    ledgers.multi_balances.insert((t_oep(), t_this(), 42), 100);
    ledgers.foreign_multi.insert((t_erc(), t_recipient(), 42), 1);
    let mut call = t_call(&[t_holder()]);

    let done = run_multi(&mut bridge, &mut call, &mut ledgers, 42, 7).unwrap();
    assert_eq!(done.stage, Oep8Stage::Done);
    assert_eq!(ledgers.multi_balances[&(t_oep(), t_holder(), 42)], 3);
    assert_eq!(ledgers.multi_balances[&(t_oep(), t_this(), 42)], 107);
    assert_eq!(ledgers.foreign_multi[&(t_erc(), t_recipient(), 42)], 8);
    assert_eq!(ledgers.mints(), 1);
    assert_eq!(get_oep8_ids(&bridge, &t_oep()), vec![42]);
    assert_eq!(call.events, vec![multi_id_event(42, 7)]);
    assert_eq!(
        ledgers.calls[4],
        HostCall::Evm {
            caller: t_this(),
            target: t_erc(),
            call: EvmCall::MintErc1155 { to: t_recipient(), token_id: 42, amount: 7 }
        }
    );
    assert_eq!(ledgers.calls.len(), 6);
}

#[test]
fn multi_id_transfer_aborts_when_mint_delivers_six_or_eight() {
    for delivered in [6u128, 8] {
        let mut bridge = t_bridge(&[]);
        let mut ledgers = Ledgers::new();
        ledgers.mint_delivers = Some(delivered);
        ledgers.multi_balances.insert((t_oep(), t_holder(), 42), 10);
        let mut call = t_call(&[t_holder()]);
        assert_eq!(
            run_multi(&mut bridge, &mut call, &mut ledgers, 42, 7),
            Err(BridgeError::MintFailed)
        );
        assert!(call.events.is_empty());
        assert!(get_oep8_ids(&bridge, &t_oep()).is_empty());
    }
}

#[test]
fn multi_id_transfer_without_delta_records_id_and_notifies() {
    let mut bridge = t_bridge(&[]);
    let mut ledgers = Ledgers::new();
    ledgers.transfer_moves_tokens = false;
    let mut call = t_call(&[t_holder()]);
    let done = run_multi(&mut bridge, &mut call, &mut ledgers, 42, 7).unwrap();
    assert!(done.is_done());
    assert_eq!(ledgers.mints(), 0);
    assert_eq!(ledgers.calls.len(), 3);
    assert_eq!(get_oep8_ids(&bridge, &t_oep()), vec![42]);
    assert_eq!(call.events, vec![multi_id_event(42, 7)]);
}

#[test]
fn multi_id_transfer_records_each_id_once() {
    let mut bridge = t_bridge(&[]);
    let mut ledgers = Ledgers::new();
    ledgers.multi_balances.insert((t_oep(), t_holder(), 42), 10);
    ledgers.multi_balances.insert((t_oep(), t_holder(), 5), 10);
    let mut call = t_call(&[t_holder()]);
    run_multi(&mut bridge, &mut call, &mut ledgers, 42, 1).unwrap();
    run_multi(&mut bridge, &mut call, &mut ledgers, 5, 2).unwrap();
    run_multi(&mut bridge, &mut call, &mut ledgers, 42, 3).unwrap();
    assert_eq!(get_oep8_ids(&bridge, &t_oep()), vec![42, 5]);
    assert_eq!(call.events.len(), 3);
    assert_eq!(ledgers.foreign_multi[&(t_erc(), t_recipient(), 42)], 4);
}

#[test]
fn multi_id_transfer_rejects_bad_requests() {
    let bridge = t_bridge(&[]);
    let call = t_call(&[t_holder()]);
    assert_eq!(
        oep8_to_erc1155(&bridge, &t_call(&[]), &t_holder(), &t_recipient(), 42, b"gems", 7),
        Err(BridgeError::Unauthorized)
    );
    assert_eq!(
        oep8_to_erc1155(&bridge, &call, &t_holder(), &t_recipient(), 42, b"gems", 0),
        Err(BridgeError::ZeroAmount)
    );
    assert_eq!(
        oep8_to_erc1155(&bridge, &call, &t_holder(), &t_recipient(), 42, b"cats", 7),
        Err(BridgeError::PairNotFound)
    );
    assert_eq!(
        oep8_to_erc1155(&bridge, &call, &t_holder(), &t_recipient(), 42, b"none", 7),
        Err(BridgeError::PairNotFound)
    );
}

#[test]
fn multi_id_transfer_aborts_when_escrow_is_refused() {
    let mut bridge = t_bridge(&[]);
    let mut ledgers = Ledgers::new();
    ledgers.multi_balances.insert((t_oep(), t_holder(), 42), 3);
    let mut call = t_call(&[t_holder()]);
    assert_eq!(
        run_multi(&mut bridge, &mut call, &mut ledgers, 42, 7),
        Err(BridgeError::TransferFailed)
    );
    assert!(get_oep8_ids(&bridge, &t_oep()).is_empty());
    assert!(call.events.is_empty());
}

#[test]
fn multi_id_transfer_aborts_when_escrow_shrinks() {
    let mut bridge = t_bridge(&[]);
    let call = t_call(&[t_holder()]);
    let mut c = t_call(&[t_holder()]);
    let t = oep8_to_erc1155(&bridge, &call, &t_holder(), &t_recipient(), 42, b"gems", 7).unwrap();
    let t = t.resume(&mut bridge, &mut c, &Reply::Number(10)).unwrap();
    let t = t.resume(&mut bridge, &mut c, &Reply::Flag(true)).unwrap();
    assert_eq!(t.stage, Oep8Stage::EscrowAfter { before: 10 });
    assert_eq!(
        t.resume(&mut bridge, &mut c, &Reply::Number(9)),
        Err(BridgeError::BalanceDecreased)
    );
    assert!(get_oep8_ids(&bridge, &t_oep()).is_empty());
}
