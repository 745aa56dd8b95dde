use nft_bridge::address::Address;
use nft_bridge::bridge::same_bytes;
use nft_bridge::calls::{
    arguments, balance_of_oep5, balance_of_oep8, call_neovm_address, call_neovm_bool,
    call_neovm_num, lock_oep5, method_of, ong_contract_address, ont_contract_address, owner_of,
    transfer_oep5, transfer_oep8, Decode, EvmCall, HostCall, Param, Reply, Request, Route,
};
use nft_bridge::error::{BridgeError, Failure};
use nft_bridge::events::{
    new_admin_event, new_pending_admin_event, oep5_to_erc721_event, oep8_to_erc1155_event,
    register_token_pair_evt, transfer_token_pair_owner_evt, Field,
};
use nft_bridge::evm::{
    balance_of_erc1155, balance_of_erc721, decode_balance, encode, foreign_balance, format_addr,
    format_amount, gen_erc1155_balance_of_data, gen_erc1155_mint_data, gen_erc721_balance_of_data,
    gen_erc721_mint_data, gen_wont_mint_data, mint_erc1155, mint_erc721, mint_wont,
};
use nft_bridge::order::name_lt;

#[test]
fn test() {
    let addr = &Address::repeat_byte(1);
    println!("{:?}", format_addr(&addr).as_ref());
}

#[test]
fn format_addr_pads_to_a_word() {
    let addr = Address::repeat_byte(1);
    let word = format_addr(&addr);
    assert_eq!(&word[..12], &[0u8; 12]);
    assert_eq!(&word[12..], &[1u8; 20]);
    let mut bytes = [0u8; 20];
    for (i, b) in bytes.iter_mut().enumerate() {
        *b = i as u8 + 1;
    }
    let word = format_addr(&Address::new(bytes));
    assert_eq!(word[11], 0);
    assert_eq!(word[12], 1);
    assert_eq!(word[31], 20);
}

#[test]
fn format_amount_is_big_endian() {
    assert_eq!(format_amount(0), [0u8; 32]);
    let one = format_amount(1);
    assert_eq!(one[31], 1);
    assert_eq!(&one[..31], &[0u8; 31]);
    let w = format_amount(0x0102_0304);
    assert_eq!(&w[28..], &[1, 2, 3, 4]);
    assert_eq!(&w[..28], &[0u8; 28]);
    let max = format_amount(u128::MAX);
    assert_eq!(&max[..16], &[0u8; 16]);
    assert_eq!(&max[16..], &[0xffu8; 16]);
    assert_eq!(&format_amount(1000)[30..], &[0x03, 0xe8]);
}

#[test]
fn decode_balance_reads_what_format_amount_writes() {
    for v in [0u128, 1, 255, 256, 1000, 0xdead_beef, u128::MAX - 1, u128::MAX] {
        assert_eq!(decode_balance(&format_amount(v)), Ok(v));
    }
}

#[test]
fn decode_balance_of_nothing_is_zero() {
    assert_eq!(decode_balance(&[]), Ok(0));
}

#[test]
fn decode_balance_rejects_short_and_large_answers() {
    assert_eq!(decode_balance(&[1]), Err(BridgeError::MalformedNumber));
    assert_eq!(decode_balance(&[0u8; 31]), Err(BridgeError::MalformedNumber));
    let mut big = [0u8; 32];
    big[15] = 1;
    assert_eq!(decode_balance(&big), Err(BridgeError::MalformedNumber));
    big[15] = 0;
    big[0] = 0x80;
    assert_eq!(decode_balance(&big), Err(BridgeError::MalformedNumber));
}

#[test]
fn decode_balance_reads_the_first_word_only() {
    let mut long = format_amount(7).to_vec();
    long.extend_from_slice(&[0xff; 8]);
    assert_eq!(decode_balance(&long), Ok(7));
}

#[test]
fn foreign_balance_wants_bytes() {
    assert_eq!(foreign_balance(&Reply::Bytes(format_amount(5).to_vec())), Ok(5));
    assert_eq!(foreign_balance(&Reply::Bytes(vec![])), Ok(0));
    assert_eq!(foreign_balance(&Reply::Number(5)), Err(BridgeError::UnexpectedReply));
}

#[test]
fn call_data_layouts() {
    let to = Address::repeat_byte(0xab);
    let mut expected = vec![0x40, 0xc1, 0x0f, 0x19];
    expected.extend_from_slice(&format_addr(&to));
    expected.extend_from_slice(&format_amount(42));
    assert_eq!(gen_erc721_mint_data(&to, 42), expected);
    assert_eq!(gen_wont_mint_data(&to, 42), expected);
    assert_eq!(expected.len(), 68);

    let mut expected = vec![0x70, 0xa0, 0x82, 0x31];
    expected.extend_from_slice(&format_addr(&to));
    assert_eq!(gen_erc721_balance_of_data(&to), expected);

    let mut expected = vec![0x00, 0xfd, 0xd5, 0x8e];
    expected.extend_from_slice(&format_addr(&to));
    expected.extend_from_slice(&format_amount(42));
    assert_eq!(gen_erc1155_balance_of_data(&to, 42), expected);

    let mut expected = vec![0x15, 0x6e, 0x29, 0xf6];
    expected.extend_from_slice(&format_addr(&to));
    expected.extend_from_slice(&format_amount(42));
    expected.extend_from_slice(&format_amount(7));
    assert_eq!(gen_erc1155_mint_data(&to, 42, 7), expected);
    assert_eq!(expected.len(), 100);
}

#[test]
fn encode_follows_the_call() {
    let to = Address::repeat_byte(0xab);
    assert_eq!(encode(&EvmCall::MintWont { to, amount: 3 }), gen_wont_mint_data(&to, 3));
    assert_eq!(encode(&EvmCall::BalanceOfErc721 { user: to }), gen_erc721_balance_of_data(&to));
    assert_eq!(encode(&EvmCall::MintErc721 { to, token_id: 3 }), gen_erc721_mint_data(&to, 3));
    assert_eq!(
        encode(&EvmCall::BalanceOfErc1155 { user: to, token_id: 3 }),
        gen_erc1155_balance_of_data(&to, 3)
    );
    assert_eq!(
        encode(&EvmCall::MintErc1155 { to, token_id: 3, amount: 4 }),
        gen_erc1155_mint_data(&to, 3, 4)
    );
}

#[test]
fn foreign_calls_name_caller_and_target() {
    let this = Address::repeat_byte(1);
    let erc = Address::repeat_byte(2);
    let user = Address::repeat_byte(3);
    assert_eq!(
        balance_of_erc721(&this, &erc, &user),
        HostCall::Evm { caller: this, target: erc, call: EvmCall::BalanceOfErc721 { user } }
    );
    assert_eq!(
        mint_erc721(&this, &erc, &user, 9),
        HostCall::Evm { caller: this, target: erc, call: EvmCall::MintErc721 { to: user, token_id: 9 } }
    );
    assert_eq!(
        balance_of_erc1155(&this, &erc, &user, 9),
        HostCall::Evm {
            caller: this,
            target: erc,
            call: EvmCall::BalanceOfErc1155 { user, token_id: 9 }
        }
    );
    assert_eq!(
        mint_erc1155(&this, &erc, &user, 9, 4),
        HostCall::Evm {
            caller: this,
            target: erc,
            call: EvmCall::MintErc1155 { to: user, token_id: 9, amount: 4 }
        }
    );
    assert_eq!(
        mint_wont(&this, &erc, &user, 4),
        HostCall::Evm { caller: this, target: erc, call: EvmCall::MintWont { to: user, amount: 4 } }
    );
}

#[test]
fn builtin_asset_addresses() {
    let mut bytes = [0u8; 20];
    bytes[19] = 1;
    assert_eq!(ont_contract_address(), Address::new(bytes));
    bytes[19] = 2;
    assert_eq!(ong_contract_address(), Address::new(bytes));
}

#[test]
fn single_id_balance_goes_by_contract_and_machine() {
    let account = Address::repeat_byte(3);
    let contract = Address::repeat_byte(4);
    let request = Request::BalanceOf { account };
    assert_eq!(
        balance_of_oep5(&ont_contract_address(), &account, true),
        HostCall::Token {
            contract: ont_contract_address(),
            route: Route::Ont,
            request,
            decode: Decode::Number
        }
    );
    assert_eq!(
        balance_of_oep5(&ong_contract_address(), &account, false),
        HostCall::Token {
            contract: ong_contract_address(),
            route: Route::Ong,
            request,
            decode: Decode::Number
        }
    );
    assert_eq!(
        balance_of_oep5(&contract, &account, true),
        HostCall::Token { contract, route: Route::NeoVm, request, decode: Decode::NumberInBytes }
    );
    assert_eq!(
        balance_of_oep5(&contract, &account, false),
        HostCall::Token { contract, route: Route::Wasm, request, decode: Decode::Number }
    );
}

#[test]
fn native_calls_carry_their_arguments() {
    let a = Address::repeat_byte(3);
    let b = Address::repeat_byte(5);
    let contract = Address::repeat_byte(4);
    assert_eq!(
        balance_of_oep8(&contract, &a, 8),
        HostCall::Token {
            contract,
            route: Route::Wasm,
            request: Request::BalanceOfId { account: a, token_id: 8 },
            decode: Decode::Number
        }
    );
    assert_eq!(
        owner_of(&contract, 8, true),
        HostCall::Token {
            contract,
            route: Route::NeoVm,
            request: Request::OwnerOf { token_id: 8 },
            decode: Decode::Account
        }
    );
    assert_eq!(
        owner_of(&contract, 8, false),
        HostCall::Token {
            contract,
            route: Route::Wasm,
            request: Request::OwnerOf { token_id: 8 },
            decode: Decode::Account
        }
    );
    let order = Request::TransferAmount { from: a, to: b, token_id: 8, amount: 2 };
    assert_eq!(
        transfer_oep8(&contract, &a, &b, 8, 2),
        HostCall::Token { contract, route: Route::Wasm, request: order, decode: Decode::Flag }
    );
    assert_eq!(
        transfer_oep8(&ont_contract_address(), &a, &b, 8, 2),
        HostCall::Token {
            contract: ont_contract_address(),
            route: Route::Ont,
            request: order,
            decode: Decode::Flag
        }
    );
    assert_eq!(
        transfer_oep8(&ong_contract_address(), &a, &b, 8, 2),
        HostCall::Token {
            contract: ong_contract_address(),
            route: Route::Ong,
            request: order,
            decode: Decode::Flag
        }
    );
    assert_eq!(
        transfer_oep5(&contract, &b, 8, true),
        HostCall::Token {
            contract,
            route: Route::NeoVm,
            request: Request::TransferId { to: b, token_id: 8 },
            decode: Decode::Flag
        }
    );
    assert_eq!(
        transfer_oep5(&contract, &b, 8, false),
        HostCall::Token {
            contract,
            route: Route::Wasm,
            request: Request::TransferId { to: b, token_id: 8 },
            decode: Decode::Flag
        }
    );
    assert_eq!(
        lock_oep5(&a, &contract, 8, true),
        HostCall::Token {
            contract: a,
            route: Route::Wasm,
            request: Request::LockOep5 { oep5: contract, token_id: 8, is_neovm: true },
            decode: Decode::Flag
        }
    );
}

#[test]
fn replies_are_read_by_what_they_hold() {
    let a = Address::repeat_byte(3);
    assert_eq!(call_neovm_num(&Reply::Number(4)), Ok(4));
    assert_eq!(call_neovm_num(&Reply::Flag(true)), Err(BridgeError::UnexpectedReply));
    assert_eq!(call_neovm_address(&Reply::Account(a)), Ok(a));
    assert_eq!(call_neovm_address(&Reply::Number(1)), Err(BridgeError::UnexpectedReply));
    assert_eq!(call_neovm_bool(&Reply::Flag(true)), Ok(()));
    assert_eq!(call_neovm_bool(&Reply::Flag(false)), Err(BridgeError::TransferFailed));
    assert_eq!(call_neovm_bool(&Reply::Bytes(vec![1])), Err(BridgeError::UnexpectedReply));
}

#[test]
fn events_list_their_fields_in_order() {
    let a = Address::repeat_byte(1);
    let b = Address::repeat_byte(2);
    let c = Address::repeat_byte(3);
    let d = Address::repeat_byte(4);
    let e = new_pending_admin_event(&a);
    assert_eq!((e.label, e.fields), ("setPendingAdmin", vec![Field::Account(a)]));
    let e = new_admin_event(&a, &b);
    assert_eq!((e.label, e.fields), ("acceptAdmin", vec![Field::Account(a), Field::Account(b)]));
    let e = register_token_pair_evt(b"n", &a, &b, false);
    assert_eq!(e.label, "registerTokenPair");
    assert_eq!(
        e.fields,
        vec![Field::Text(b"n".to_vec()), Field::Account(a), Field::Account(b), Field::Flag(false)]
    );
    let e = transfer_token_pair_owner_evt(&a, &b);
    assert_eq!((e.label, e.fields), ("transferTokenPairOwner", vec![Field::Account(a), Field::Account(b)]));
    let e = oep5_to_erc721_event(&a, &b, 7, &c, &d);
    assert_eq!(e.label, "oep5ToOrc721");
    assert_eq!(
        e.fields,
        vec![
            Field::Account(a),
            Field::Account(b),
            Field::Number(7),
            Field::Account(c),
            Field::Account(d)
        ]
    );
    let e = oep8_to_erc1155_event(&a, &b, 7, 9, &c, &d);
    assert_eq!(e.label, "oep8ToOrc1155");
    assert_eq!(
        e.fields,
        vec![
            Field::Account(a),
            Field::Account(b),
            Field::Number(7),
            Field::Number(9),
            Field::Account(c),
            Field::Account(d)
        ]
    );
}

#[test]
fn names_are_ordered_like_a_dictionary() {
    assert!(name_lt(b"a", b"b"));
    assert!(!name_lt(b"b", b"a"));
    assert!(name_lt(b"", b"a"));
    assert!(!name_lt(b"a", b""));
    assert!(!name_lt(b"", b""));
    assert!(name_lt(b"ab", b"abc"));
    assert!(!name_lt(b"abc", b"ab"));
    assert!(!name_lt(b"abc", b"abc"));
    assert!(name_lt(b"abd", b"b"));
    assert!(name_lt(&[0x7f], &[0x80]));
}

#[test]
fn same_bytes_compares_contents() {
    assert!(same_bytes(b"abc", b"abc"));
    assert!(!same_bytes(b"abc", b"abd"));
    assert!(!same_bytes(b"abc", b"ab"));
    assert!(same_bytes(b"", b""));
}

#[test]
fn address_basics() {
    assert!(Address::zero().is_zero());
    assert!(!Address::repeat_byte(1).is_zero());
    assert_eq!(Address::repeat_byte(0), Address::zero());
    assert_ne!(Address::repeat_byte(1), Address::repeat_byte(2));
    let mut bytes = [0u8; 20];
    bytes[19] = 1;
    assert!(!Address::new(bytes).is_zero());
    assert_eq!(Address::new(bytes).bytes, bytes);
}

#[test]
fn methods_are_named_as_the_contracts_expect() {
    let a = Address::repeat_byte(3);
    assert_eq!(method_of(&Request::BalanceOf { account: a }), "balanceOf");
    assert_eq!(method_of(&Request::BalanceOfId { account: a, token_id: 1 }), "balanceOf");
    assert_eq!(method_of(&Request::OwnerOf { token_id: 1 }), "ownerOf");
    assert_eq!(method_of(&Request::TransferId { to: a, token_id: 1 }), "transfer");
    assert_eq!(
        method_of(&Request::TransferAmount { from: a, to: a, token_id: 1, amount: 1 }),
        "transfer"
    );
    assert_eq!(method_of(&Request::LockOep5 { oep5: a, token_id: 1, is_neovm: false }), "lockOep5");
}

#[test]
fn errors_have_messages() {
    assert_eq!(BridgeError::AlreadyInitialized.message(), "has inited");
    assert_eq!(BridgeError::Unauthorized.message(), "check signature failed");
    assert_eq!(BridgeError::ZeroAdmin.message(), "new admin is zero address");
    assert_eq!(BridgeError::ZeroNativeAddress.message(), "invalid oep address");
    assert_eq!(BridgeError::ZeroForeignAddress.message(), "invalid erc address");
    assert_eq!(BridgeError::PairAlreadyRegistered.message(), "token pair name has registered");
    assert_eq!(BridgeError::PairNotFound.message(), "non-existed token pair name");
    assert_eq!(BridgeError::ReceiverNotFound.message(), "non-exist receiver");
    assert_eq!(BridgeError::NoReceiverAvailable.message(), "non-exist address");
    assert_eq!(BridgeError::InvalidOwner.message(), "invalid owner");
    assert_eq!(BridgeError::ZeroAmount.message(), "amount should be more than 0");
    assert_eq!(BridgeError::TransferFailed.message(), "transfer failed");
    assert_eq!(BridgeError::BalanceDecreased.message(), "sub overflow");
    assert_eq!(BridgeError::MintFailed.message(), "mint failed");
    assert_eq!(BridgeError::MigrateFailed.message(), "migrate failed");
    assert_eq!(BridgeError::UnexpectedReply.message(), "unexpected reply");
    assert_eq!(BridgeError::MalformedNumber.message(), "malformed number");
}

#[test]
fn every_error_has_its_failure() {
    assert_eq!(BridgeError::Unauthorized.failure(), Failure::Authorization);
    for e in [
        BridgeError::AlreadyInitialized,
        BridgeError::ZeroAdmin,
        BridgeError::ZeroNativeAddress,
        BridgeError::ZeroForeignAddress,
        BridgeError::PairAlreadyRegistered,
        BridgeError::PairNotFound,
        BridgeError::ReceiverNotFound,
        BridgeError::InvalidOwner,
        BridgeError::ZeroAmount,
    ] {
        assert_eq!(e.failure(), Failure::Precondition);
    }
    for e in [
        BridgeError::TransferFailed,
        BridgeError::BalanceDecreased,
        BridgeError::MintFailed,
        BridgeError::MigrateFailed,
        BridgeError::UnexpectedReply,
        BridgeError::MalformedNumber,
    ] {
        assert_eq!(e.failure(), Failure::InvariantViolation);
    }
    assert_eq!(BridgeError::NoReceiverAvailable.failure(), Failure::ResourceExhaustion);
}

#[test]
fn arguments_follow_the_method() {
    let a = Address::repeat_byte(3);
    let b = Address::repeat_byte(5);
    assert_eq!(arguments(&Request::BalanceOf { account: a }), vec![Param::Account(a)]);
    assert_eq!(
        arguments(&Request::BalanceOfId { account: a, token_id: 8 }),
        vec![Param::Account(a), Param::Number(8)]
    );
    assert_eq!(arguments(&Request::OwnerOf { token_id: 8 }), vec![Param::Number(8)]);
    assert_eq!(
        arguments(&Request::TransferId { to: b, token_id: 8 }),
        vec![Param::Account(b), Param::Number(8)]
    );
    assert_eq!(
        arguments(&Request::TransferAmount { from: a, to: b, token_id: 8, amount: 2 }),
        vec![Param::Account(a), Param::Account(b), Param::Number(8), Param::Number(2)]
    );
    assert_eq!(
        arguments(&Request::LockOep5 { oep5: a, token_id: 8, is_neovm: true }),
        vec![Param::Account(a), Param::Number(8), Param::Flag(true)]
    );
}
