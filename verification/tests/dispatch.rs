use nft_bridge::dispatch::{action_of, Action};

#[test]
fn actions_go_by_their_names() {
    let table: [(&str, Action); 21] = [
        ("init", Action::Init),
        ("getAdmin", Action::GetAdmin),
        ("setPendingAdmin", Action::SetPendingAdmin),
        ("getPendingAdmin", Action::GetPendingAdmin),
        ("acceptAdmin", Action::AcceptAdmin),
        ("migrate", Action::Migrate),
        ("addOep5NeovmReceiver", Action::AddOep5NeovmReceiver),
        ("delOep5NeovmReceiver", Action::DelOep5NeovmReceiver),
        ("getOep5NeovmReceivers", Action::GetOep5NeovmReceivers),
        ("registerOep5Erc721Pair", Action::RegisterOep5Erc721Pair),
        ("registerOep8Erc1155Pair", Action::RegisterOep8Erc1155Pair),
        ("transferTokenPairOwner", Action::TransferTokenPairOwner),
        ("getAllTokenPairName", Action::GetAllTokenPairName),
        ("getTokenPair", Action::GetTokenPair),
        ("oep5ToErc721", Action::Oep5ToErc721),
        ("mintErc721", Action::MintErc721),
        ("balanceOfOep5", Action::BalanceOfOep5),
        ("balanceOfErc721", Action::BalanceOfErc721),
        ("balanceOfErc1155", Action::BalanceOfErc1155),
        ("mintErc1155", Action::MintErc1155),
        ("oep8ToErc1155", Action::Oep8ToErc1155),
    ];
    for (name, action) in table.iter() {
        assert_eq!(action_of(name.as_bytes()), Some(*action));
    }
}

#[test]
fn unknown_actions_are_refused() {
    assert_eq!(action_of(b""), None);
    assert_eq!(action_of(b"Init"), None);
    assert_eq!(action_of(b"init "), None);
    assert_eq!(action_of(b"ini"), None);
    assert_eq!(action_of(b"withdrawOep5"), None);
    assert_eq!(action_of(&[0xff, 0xfe]), None);
}
