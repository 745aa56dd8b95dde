use nft_bridge::address::Address;
use nft_bridge::bridge::{
    add_oep5_neovm_receiver, del_oep5_neovm_receiver, get_all_token_pair_name,
    get_oep5_neovm_receivers, get_oep8_ids, get_token_pair, get_token_pair_by_name,
    get_token_pair_in, initialize, push_oep8_id, receiver_at, receiver_count,
    register_oep5_erc721_pair, register_oep8_erc1155_pair, register_token_pair,
    transfer_token_pair_owner, Bridge,
};
use nft_bridge::error::BridgeError;
use nft_bridge::events::{Event, Field};
use nft_bridge::invocation::Invocation;
use nft_bridge::pair::{Category, TokenPair};

fn registry_call(signers: &[Address]) -> Invocation {
    let mut call = Invocation::new(Address::repeat_byte(0xee));
    for s in signers {
        call.add_witness(*s);
    }
    call
}

fn registry_admin() -> Address {
    Address::repeat_byte(1)
}

fn registry_bridge() -> Bridge {
    let mut bridge = Bridge::new();
    let admin = registry_admin();
    assert_eq!(initialize(&mut bridge, &registry_call(&[admin]), &admin), Ok(true));
    bridge
}

#[test]
fn register_stores_pair_with_admin_as_owner() {
    let mut bridge = registry_bridge();
    let oep = Address::repeat_byte(0x11);
    let erc = Address::repeat_byte(0x22);
    let mut call = registry_call(&[registry_admin()]);
    assert_eq!(register_oep5_erc721_pair(&mut bridge, &mut call, b"cats", &oep, &erc, true), Ok(true));
    let expected = TokenPair { owner: registry_admin(), erc, oep, is_oep5_neovm: true };
    assert_eq!(get_token_pair(&bridge, b"cats"), Ok(expected));
    assert_eq!(get_token_pair_by_name(&bridge, b"cats"), Some((Category::SingleId, expected)));
    assert_eq!(get_token_pair_in(&bridge, Category::SingleId, b"cats"), Some(expected));
    assert_eq!(get_token_pair_in(&bridge, Category::MultiId, b"cats"), None);
    assert_eq!(
        call.events,
        vec![Event {
            label: "registerTokenPair",
            fields: vec![
                Field::Text(b"cats".to_vec()),
                Field::Account(oep),
                Field::Account(erc),
                Field::Flag(true),
            ],
        }]
    );
}

#[test]
fn register_multi_id_pair_is_never_legacy() {
    let mut bridge = registry_bridge();
    let oep = Address::repeat_byte(0x11);
    let erc = Address::repeat_byte(0x22);
    let mut call = registry_call(&[registry_admin()]);
    assert_eq!(register_oep8_erc1155_pair(&mut bridge, &mut call, b"gems", &oep, &erc), Ok(true));
    let expected = TokenPair { owner: registry_admin(), erc, oep, is_oep5_neovm: false };
    assert_eq!(get_token_pair_by_name(&bridge, b"gems"), Some((Category::MultiId, expected)));
    assert_eq!(get_token_pair_in(&bridge, Category::SingleId, b"gems"), None);
    assert_eq!(call.events[0].fields[3], Field::Flag(false));
}

#[test]
fn register_same_name_twice_fails() {
    let mut bridge = registry_bridge();
    let oep = Address::repeat_byte(0x11);
    let erc = Address::repeat_byte(0x22);
    let mut call = registry_call(&[registry_admin()]);
    assert_eq!(register_oep5_erc721_pair(&mut bridge, &mut call, b"cats", &oep, &erc, false), Ok(true));
    assert_eq!(
        register_oep5_erc721_pair(&mut bridge, &mut call, b"cats", &oep, &erc, false),
        Err(BridgeError::PairAlreadyRegistered)
    );
    assert_eq!(get_all_token_pair_name(&bridge), vec![b"cats".to_vec()]);
    assert_eq!(call.events.len(), 1);
}

#[test]
fn register_same_name_in_other_family_fails() {
    let mut bridge = registry_bridge();
    let oep = Address::repeat_byte(0x11);
    let erc = Address::repeat_byte(0x22);
    let mut call = registry_call(&[registry_admin()]);
    assert_eq!(register_oep5_erc721_pair(&mut bridge, &mut call, b"cats", &oep, &erc, false), Ok(true));
    assert_eq!(
        register_oep8_erc1155_pair(&mut bridge, &mut call, b"cats", &oep, &erc),
        Err(BridgeError::PairAlreadyRegistered)
    );
}

#[test]
fn register_two_names_enumerates_in_order() {
    let mut bridge = registry_bridge();
    let oep = Address::repeat_byte(0x11);
    let erc = Address::repeat_byte(0x22);
    let mut call = registry_call(&[registry_admin()]);
    assert_eq!(register_oep5_erc721_pair(&mut bridge, &mut call, b"zebra", &oep, &erc, false), Ok(true));
    assert_eq!(register_oep5_erc721_pair(&mut bridge, &mut call, b"ant", &erc, &oep, true), Ok(true));
    assert_eq!(register_oep8_erc1155_pair(&mut bridge, &mut call, b"moth", &oep, &erc), Ok(true));
    assert_eq!(
        get_all_token_pair_name(&bridge),
        vec![b"zebra".to_vec(), b"ant".to_vec(), b"moth".to_vec()]
    );
    assert_eq!(get_token_pair(&bridge, b"ant").unwrap().oep, erc);
    assert_eq!(get_token_pair(&bridge, b"zebra").unwrap().oep, oep);
}

#[test]
fn register_rejects_in_order_of_checks() {
    let mut bridge = registry_bridge();
    let oep = Address::repeat_byte(0x11);
    let erc = Address::repeat_byte(0x22);
    let zero = Address::zero();
    let mut stranger = registry_call(&[Address::repeat_byte(9)]);
    assert_eq!(
        register_token_pair(&mut bridge, &mut stranger, b"cats", &zero, &zero, true, false),
        Err(BridgeError::Unauthorized)
    );
    let mut call = registry_call(&[registry_admin()]);
    assert_eq!(
        register_token_pair(&mut bridge, &mut call, b"cats", &zero, &zero, true, false),
        Err(BridgeError::ZeroNativeAddress)
    );
    assert_eq!(
        register_token_pair(&mut bridge, &mut call, b"cats", &oep, &zero, true, false),
        Err(BridgeError::ZeroForeignAddress)
    );
    assert_eq!(register_token_pair(&mut bridge, &mut call, b"cats", &oep, &erc, true, false), Ok(true));
    assert_eq!(
        register_token_pair(&mut bridge, &mut call, b"cats", &zero, &erc, false, false),
        Err(BridgeError::ZeroNativeAddress)
    );
    assert!(get_all_token_pair_name(&bridge) == vec![b"cats".to_vec()]);
}

#[test]
fn unknown_pair_is_not_found() {
    let bridge = registry_bridge();
    assert_eq!(get_token_pair(&bridge, b"nope"), Err(BridgeError::PairNotFound));
    assert_eq!(get_token_pair_by_name(&bridge, b"nope"), None);
    assert_eq!(get_token_pair(&bridge, b""), Err(BridgeError::PairNotFound));
}

#[test]
fn owner_or_admin_may_transfer_ownership() {
    let mut bridge = registry_bridge();
    let oep = Address::repeat_byte(0x11);
    let erc = Address::repeat_byte(0x22);
    let owner = Address::repeat_byte(5);
    let next = Address::repeat_byte(6);
    let mut call = registry_call(&[registry_admin()]);
    assert_eq!(register_oep8_erc1155_pair(&mut bridge, &mut call, b"gems", &oep, &erc), Ok(true));

    let mut by_admin = registry_call(&[registry_admin()]);
    assert_eq!(transfer_token_pair_owner(&mut bridge, &mut by_admin, b"gems", &owner), Ok(true));
    assert_eq!(get_token_pair(&bridge, b"gems").unwrap().owner, owner);
    assert_eq!(
        by_admin.events,
        vec![Event {
            label: "transferTokenPairOwner",
            fields: vec![Field::Account(registry_admin()), Field::Account(owner)],
        }]
    );

    let mut by_stranger = registry_call(&[next]);
    assert_eq!(
        transfer_token_pair_owner(&mut bridge, &mut by_stranger, b"gems", &next),
        Err(BridgeError::Unauthorized)
    );
    assert_eq!(get_token_pair(&bridge, b"gems").unwrap().owner, owner);

    let mut by_owner = registry_call(&[owner]);
    assert_eq!(transfer_token_pair_owner(&mut bridge, &mut by_owner, b"gems", &next), Ok(true));
    let pair = get_token_pair(&bridge, b"gems").unwrap();
    assert_eq!(pair, TokenPair { owner: next, erc, oep, is_oep5_neovm: false });
    assert_eq!(get_token_pair_by_name(&bridge, b"gems").unwrap().0, Category::MultiId);
}

#[test]
fn zero_owner_freezes_pair_for_all_but_admin() {
    let mut bridge = registry_bridge();
    let oep = Address::repeat_byte(0x11);
    let erc = Address::repeat_byte(0x22);
    let zero = Address::zero();
    let someone = Address::repeat_byte(7);
    let mut call = registry_call(&[registry_admin()]);
    assert_eq!(register_oep5_erc721_pair(&mut bridge, &mut call, b"cats", &oep, &erc, false), Ok(true));
    assert_eq!(transfer_token_pair_owner(&mut bridge, &mut call, b"cats", &zero), Ok(true));
    assert!(get_token_pair(&bridge, b"cats").unwrap().owner.is_zero());
    let mut by_zero = registry_call(&[zero, someone]);
    assert_eq!(
        transfer_token_pair_owner(&mut bridge, &mut by_zero, b"cats", &someone),
        Err(BridgeError::Unauthorized)
    );
    assert_eq!(transfer_token_pair_owner(&mut bridge, &mut call, b"cats", &someone), Ok(true));
    assert_eq!(get_token_pair(&bridge, b"cats").unwrap().owner, someone);
}

#[test]
fn transfer_owner_of_unknown_pair_fails() {
    let mut bridge = registry_bridge();
    let mut call = registry_call(&[registry_admin()]);
    assert_eq!(
        transfer_token_pair_owner(&mut bridge, &mut call, b"nope", &Address::repeat_byte(3)),
        Err(BridgeError::PairNotFound)
    );
    assert!(call.events.is_empty());
}

#[test]
fn add_receivers_fills_empty_pool() {
    let mut bridge = registry_bridge();
    let call = registry_call(&[registry_admin()]);
    let r1 = Address::repeat_byte(0x31);
    let r2 = Address::repeat_byte(0x32);
    assert_eq!(add_oep5_neovm_receiver(&mut bridge, &call, &[r2, r1]), Ok(()));
    assert_eq!(get_oep5_neovm_receivers(&bridge), vec![r2, r1]);
    assert_eq!(receiver_count(&bridge), 2);
    assert_eq!(receiver_at(&bridge, 0), Some(r2));
    assert_eq!(receiver_at(&bridge, 1), Some(r1));
    assert_eq!(receiver_at(&bridge, 2), None);
}

#[test]
fn add_receivers_appends_only_new_entries() {
    let mut bridge = registry_bridge();
    let call = registry_call(&[registry_admin()]);
    let r1 = Address::repeat_byte(0x31);
    let r2 = Address::repeat_byte(0x32);
    let r3 = Address::repeat_byte(0x33);
    assert_eq!(add_oep5_neovm_receiver(&mut bridge, &call, &[r1, r2]), Ok(()));
    assert_eq!(add_oep5_neovm_receiver(&mut bridge, &call, &[r2, r3, r1, r3]), Ok(()));
    assert_eq!(get_oep5_neovm_receivers(&bridge), vec![r1, r2, r3]);
    assert_eq!(add_oep5_neovm_receiver(&mut bridge, &call, &[]), Ok(()));
    assert_eq!(get_oep5_neovm_receivers(&bridge), vec![r1, r2, r3]);
}

#[test]
fn add_receivers_keeps_each_address_once() {
    let mut bridge = registry_bridge();
    let call = registry_call(&[registry_admin()]);
    let r1 = Address::repeat_byte(0x31);
    assert_eq!(add_oep5_neovm_receiver(&mut bridge, &call, &[r1, r1, r1]), Ok(()));
    assert_eq!(get_oep5_neovm_receivers(&bridge), vec![r1]);
}

#[test]
fn receivers_need_the_admins_witness() {
    let mut bridge = registry_bridge();
    let r1 = Address::repeat_byte(0x31);
    let stranger = registry_call(&[r1]);
    assert_eq!(add_oep5_neovm_receiver(&mut bridge, &stranger, &[r1]), Err(BridgeError::Unauthorized));
    assert!(get_oep5_neovm_receivers(&bridge).is_empty());
    assert_eq!(
        add_oep5_neovm_receiver(&mut bridge, &registry_call(&[registry_admin()]), &[r1]),
        Ok(())
    );
    assert_eq!(del_oep5_neovm_receiver(&mut bridge, &stranger, &r1), Err(BridgeError::Unauthorized));
    assert_eq!(get_oep5_neovm_receivers(&bridge), vec![r1]);
}

#[test]
fn del_receiver_removes_member_and_keeps_order() {
    let mut bridge = registry_bridge();
    let call = registry_call(&[registry_admin()]);
    let r1 = Address::repeat_byte(0x31);
    let r2 = Address::repeat_byte(0x32);
    let r3 = Address::repeat_byte(0x33);
    assert_eq!(add_oep5_neovm_receiver(&mut bridge, &call, &[r1, r2, r3]), Ok(()));
    assert_eq!(del_oep5_neovm_receiver(&mut bridge, &call, &r2), Ok(()));
    assert_eq!(get_oep5_neovm_receivers(&bridge), vec![r1, r3]);
    assert_eq!(del_oep5_neovm_receiver(&mut bridge, &call, &r2), Err(BridgeError::ReceiverNotFound));
    assert_eq!(get_oep5_neovm_receivers(&bridge), vec![r1, r3]);
    assert_eq!(del_oep5_neovm_receiver(&mut bridge, &call, &r1), Ok(()));
    assert_eq!(del_oep5_neovm_receiver(&mut bridge, &call, &r3), Ok(()));
    assert!(get_oep5_neovm_receivers(&bridge).is_empty());
}

#[test]
fn escrow_ids_grow_without_duplicates() {
    let mut bridge = registry_bridge();
    let c1 = Address::repeat_byte(0x41);
    let c2 = Address::repeat_byte(0x42);
    assert!(get_oep8_ids(&bridge, &c1).is_empty());
    push_oep8_id(&mut bridge, 3, &c1);
    push_oep8_id(&mut bridge, 1, &c1);
    push_oep8_id(&mut bridge, 3, &c1);
    push_oep8_id(&mut bridge, 9, &c2);
    assert_eq!(get_oep8_ids(&bridge, &c1), vec![3, 1]);
    assert_eq!(get_oep8_ids(&bridge, &c2), vec![9]);
    assert!(get_oep8_ids(&bridge, &Address::zero()).is_empty());
}

#[test]
fn restore_accepts_sound_parts() {
    let oep = Address::repeat_byte(0x11);
    let erc = Address::repeat_byte(0x22);
    let admin = registry_admin();
    let pair = TokenPair { owner: admin, erc, oep, is_oep5_neovm: false };
    let entries = vec![
        nft_bridge::bridge::PairEntry { name: b"cats".to_vec(), category: Category::SingleId, pair },
        nft_bridge::bridge::PairEntry { name: b"gems".to_vec(), category: Category::MultiId, pair },
    ];
    let receivers = vec![Address::repeat_byte(0x31), Address::repeat_byte(0x32)];
    let escrow = vec![nft_bridge::bridge::EscrowSet { contract: oep, ids: vec![4, 2] }];
    let bridge =
        nft_bridge::bridge::restore(admin, Address::zero(), entries, receivers.clone(), escrow)
            .unwrap();
    assert_eq!(nft_bridge::bridge::get_admin(&bridge), admin);
    assert_eq!(get_all_token_pair_name(&bridge), vec![b"cats".to_vec(), b"gems".to_vec()]);
    assert_eq!(get_token_pair_by_name(&bridge, b"gems"), Some((Category::MultiId, pair)));
    assert_eq!(get_oep5_neovm_receivers(&bridge), receivers);
    assert_eq!(get_oep8_ids(&bridge, &oep), vec![4, 2]);
}

#[test]
fn restore_refuses_unsound_parts() {
    let oep = Address::repeat_byte(0x11);
    let erc = Address::repeat_byte(0x22);
    let admin = registry_admin();
    let zero = Address::zero();
    let pair = TokenPair { owner: admin, erc, oep, is_oep5_neovm: false };
    let entry = |name: &[u8], category| nft_bridge::bridge::PairEntry {
        name: name.to_vec(),
        category,
        pair,
    };
    let set = |ids: Vec<u128>| nft_bridge::bridge::EscrowSet { contract: oep, ids };
    let twice = vec![entry(b"a", Category::SingleId), entry(b"a", Category::MultiId)];
    assert!(nft_bridge::bridge::restore(admin, zero, twice, vec![], vec![]).is_none());
    let r = Address::repeat_byte(0x31);
    assert!(nft_bridge::bridge::restore(admin, zero, vec![], vec![r, r], vec![]).is_none());
    assert!(nft_bridge::bridge::restore(admin, zero, vec![], vec![], vec![set(vec![])]).is_none());
    assert!(nft_bridge::bridge::restore(admin, zero, vec![], vec![], vec![set(vec![1, 1])]).is_none());
    assert!(nft_bridge::bridge::restore(admin, zero, vec![], vec![], vec![set(vec![1]), set(vec![2])])
        .is_none());
    assert!(nft_bridge::bridge::restore(zero, zero, vec![], vec![], vec![]).is_some());
}

#[test]
fn escrow_contracts_lists_each_multi_id_contract_once() {
    let admin = registry_admin();
    let erc = Address::repeat_byte(0x22);
    let c1 = Address::repeat_byte(0x41);
    let c2 = Address::repeat_byte(0x42);
    let c3 = Address::repeat_byte(0x43);
    let entry = |name: &[u8], category, oep| nft_bridge::bridge::PairEntry {
        name: name.to_vec(),
        category,
        pair: TokenPair { owner: admin, erc, oep, is_oep5_neovm: false },
    };
    let entries = vec![
        entry(b"a", Category::MultiId, c2),
        entry(b"b", Category::SingleId, c3),
        entry(b"c", Category::MultiId, c1),
        entry(b"d", Category::MultiId, c2),
    ];
    assert_eq!(nft_bridge::bridge::escrow_contracts(&entries), vec![c2, c1]);
    assert!(nft_bridge::bridge::escrow_contracts(&vec![]).is_empty());
}
