use vstd::prelude::*;
use vstd::string::StringSliceAdditionalSpecFns;
use crate::bridge::same_bytes;

verus! {

/// What a caller can ask of the bridge.
#[derive(Clone, Copy, Debug, PartialEq, Eq, Structural)]
pub enum Action {
    /// Sets the admin.
    Init,
    /// Reports the admin.
    GetAdmin,
    /// Nominates an admin.
    SetPendingAdmin,
    /// Reports the nominee.
    GetPendingAdmin,
    /// Makes the nominee the admin.
    AcceptAdmin,
    /// Relocates the bridge.
    Migrate,
    /// Adds receivers to the pool.
    AddOep5NeovmReceiver,
    /// Takes a receiver out of the pool.
    DelOep5NeovmReceiver,
    /// Reports the pool.
    GetOep5NeovmReceivers,
    /// Registers a single-id pair.
    RegisterOep5Erc721Pair,
    /// Registers a multi-id pair.
    RegisterOep8Erc1155Pair,
    /// Hands a pair to another owner.
    TransferTokenPairOwner,
    /// Reports the names of all pairs.
    GetAllTokenPairName,
    /// Reports a pair.
    GetTokenPair,
    /// Transfers a single-id token.
    Oep5ToErc721,
    /// Mints a single-id token on a foreign contract.
    MintErc721,
    /// Reports a balance on a native single-id contract.
    BalanceOfOep5,
    /// Reports a balance on a foreign single-id contract.
    BalanceOfErc721,
    /// Reports a balance on a foreign multi-id contract.
    BalanceOfErc1155,
    /// Mints multi-id tokens on a foreign contract.
    MintErc1155,
    /// Transfers multi-id tokens.
    Oep8ToErc1155,
}

/// The name by which a caller asks for `action`.
pub open spec fn label(action: Action) -> Seq<u8> {
    match action {
        Action::Init => "init".spec_bytes(),
        Action::GetAdmin => "getAdmin".spec_bytes(),
        Action::SetPendingAdmin => "setPendingAdmin".spec_bytes(),
        Action::GetPendingAdmin => "getPendingAdmin".spec_bytes(),
        Action::AcceptAdmin => "acceptAdmin".spec_bytes(),
        Action::Migrate => "migrate".spec_bytes(),
        Action::AddOep5NeovmReceiver => "addOep5NeovmReceiver".spec_bytes(),
        Action::DelOep5NeovmReceiver => "delOep5NeovmReceiver".spec_bytes(),
        Action::GetOep5NeovmReceivers => "getOep5NeovmReceivers".spec_bytes(),
        Action::RegisterOep5Erc721Pair => "registerOep5Erc721Pair".spec_bytes(),
        Action::RegisterOep8Erc1155Pair => "registerOep8Erc1155Pair".spec_bytes(),
        Action::TransferTokenPairOwner => "transferTokenPairOwner".spec_bytes(),
        Action::GetAllTokenPairName => "getAllTokenPairName".spec_bytes(),
        Action::GetTokenPair => "getTokenPair".spec_bytes(),
        Action::Oep5ToErc721 => "oep5ToErc721".spec_bytes(),
        Action::MintErc721 => "mintErc721".spec_bytes(),
        Action::BalanceOfOep5 => "balanceOfOep5".spec_bytes(),
        Action::BalanceOfErc721 => "balanceOfErc721".spec_bytes(),
        Action::BalanceOfErc1155 => "balanceOfErc1155".spec_bytes(),
        Action::MintErc1155 => "mintErc1155".spec_bytes(),
        Action::Oep8ToErc1155 => "oep8ToErc1155".spec_bytes(),
    }
}

/// The action that goes by `name`, if any.
pub open spec fn action_named(name: Seq<u8>) -> Option<Action> {
    if name == label(Action::Init) {
        Some(Action::Init)
    } else if name == label(Action::GetAdmin) {
        Some(Action::GetAdmin)
    } else if name == label(Action::SetPendingAdmin) {
        Some(Action::SetPendingAdmin)
    } else if name == label(Action::GetPendingAdmin) {
        Some(Action::GetPendingAdmin)
    } else if name == label(Action::AcceptAdmin) {
        Some(Action::AcceptAdmin)
    } else if name == label(Action::Migrate) {
        Some(Action::Migrate)
    } else if name == label(Action::AddOep5NeovmReceiver) {
        Some(Action::AddOep5NeovmReceiver)
    } else if name == label(Action::DelOep5NeovmReceiver) {
        Some(Action::DelOep5NeovmReceiver)
    } else if name == label(Action::GetOep5NeovmReceivers) {
        Some(Action::GetOep5NeovmReceivers)
    } else if name == label(Action::RegisterOep5Erc721Pair) {
        Some(Action::RegisterOep5Erc721Pair)
    } else if name == label(Action::RegisterOep8Erc1155Pair) {
        Some(Action::RegisterOep8Erc1155Pair)
    } else if name == label(Action::TransferTokenPairOwner) {
        Some(Action::TransferTokenPairOwner)
    } else if name == label(Action::GetAllTokenPairName) {
        Some(Action::GetAllTokenPairName)
    } else if name == label(Action::GetTokenPair) {
        Some(Action::GetTokenPair)
    } else if name == label(Action::Oep5ToErc721) {
        Some(Action::Oep5ToErc721)
    } else if name == label(Action::MintErc721) {
        Some(Action::MintErc721)
    } else if name == label(Action::BalanceOfOep5) {
        Some(Action::BalanceOfOep5)
    } else if name == label(Action::BalanceOfErc721) {
        Some(Action::BalanceOfErc721)
    } else if name == label(Action::BalanceOfErc1155) {
        Some(Action::BalanceOfErc1155)
    } else if name == label(Action::MintErc1155) {
        Some(Action::MintErc1155)
    } else if name == label(Action::Oep8ToErc1155) {
        Some(Action::Oep8ToErc1155)
    } else {
        None
    }
}

/// The action that a caller asks for by `name`; none, if the bridge has no such action.
pub fn action_of(name: &[u8]) -> (r: Option<Action>)
    ensures
        r == action_named(name@),
        r matches Some(action) ==> name@ == label(action),
        r.is_none() ==> forall|action: Action| name@ != label(action),
{
    if same_bytes(name, "init".as_bytes()) {
        Some(Action::Init)
    } else if same_bytes(name, "getAdmin".as_bytes()) {
        Some(Action::GetAdmin)
    } else if same_bytes(name, "setPendingAdmin".as_bytes()) {
        Some(Action::SetPendingAdmin)
    } else if same_bytes(name, "getPendingAdmin".as_bytes()) {
        Some(Action::GetPendingAdmin)
    } else if same_bytes(name, "acceptAdmin".as_bytes()) {
        Some(Action::AcceptAdmin)
    } else if same_bytes(name, "migrate".as_bytes()) {
        Some(Action::Migrate)
    } else if same_bytes(name, "addOep5NeovmReceiver".as_bytes()) {
        Some(Action::AddOep5NeovmReceiver)
    } else if same_bytes(name, "delOep5NeovmReceiver".as_bytes()) {
        Some(Action::DelOep5NeovmReceiver)
    } else if same_bytes(name, "getOep5NeovmReceivers".as_bytes()) {
        Some(Action::GetOep5NeovmReceivers)
    } else if same_bytes(name, "registerOep5Erc721Pair".as_bytes()) {
        Some(Action::RegisterOep5Erc721Pair)
    } else if same_bytes(name, "registerOep8Erc1155Pair".as_bytes()) {
        Some(Action::RegisterOep8Erc1155Pair)
    } else if same_bytes(name, "transferTokenPairOwner".as_bytes()) {
        Some(Action::TransferTokenPairOwner)
    } else if same_bytes(name, "getAllTokenPairName".as_bytes()) {
        Some(Action::GetAllTokenPairName)
    } else if same_bytes(name, "getTokenPair".as_bytes()) {
        Some(Action::GetTokenPair)
    } else if same_bytes(name, "oep5ToErc721".as_bytes()) {
        Some(Action::Oep5ToErc721)
    } else if same_bytes(name, "mintErc721".as_bytes()) {
        Some(Action::MintErc721)
    } else if same_bytes(name, "balanceOfOep5".as_bytes()) {
        Some(Action::BalanceOfOep5)
    } else if same_bytes(name, "balanceOfErc721".as_bytes()) {
        Some(Action::BalanceOfErc721)
    } else if same_bytes(name, "balanceOfErc1155".as_bytes()) {
        Some(Action::BalanceOfErc1155)
    } else if same_bytes(name, "mintErc1155".as_bytes()) {
        Some(Action::MintErc1155)
    } else if same_bytes(name, "oep8ToErc1155".as_bytes()) {
        Some(Action::Oep8ToErc1155)
    } else {
        None
    }
}

/// The bytes of `label(action)`, written out.
proof fn lemma_label_bytes(action: Action)
    ensures
        label(action) == match action {
            Action::Init => seq![105u8, 110u8, 105u8, 116u8],
            Action::GetAdmin => seq![103u8, 101u8, 116u8, 65u8, 100u8, 109u8, 105u8, 110u8],
            Action::SetPendingAdmin => seq![
                115u8, 101u8, 116u8, 80u8, 101u8, 110u8, 100u8, 105u8, 110u8, 103u8, 65u8, 100u8,
                109u8, 105u8, 110u8,
            ],
            Action::GetPendingAdmin => seq![
                103u8, 101u8, 116u8, 80u8, 101u8, 110u8, 100u8, 105u8, 110u8, 103u8, 65u8, 100u8,
                109u8, 105u8, 110u8,
            ],
            Action::AcceptAdmin => seq![
                97u8, 99u8, 99u8, 101u8, 112u8, 116u8, 65u8, 100u8, 109u8, 105u8, 110u8,
            ],
            Action::Migrate => seq![109u8, 105u8, 103u8, 114u8, 97u8, 116u8, 101u8],
            Action::AddOep5NeovmReceiver => seq![
                97u8, 100u8, 100u8, 79u8, 101u8, 112u8, 53u8, 78u8, 101u8, 111u8, 118u8, 109u8,
                82u8, 101u8, 99u8, 101u8, 105u8, 118u8, 101u8, 114u8,
            ],
            Action::DelOep5NeovmReceiver => seq![
                100u8, 101u8, 108u8, 79u8, 101u8, 112u8, 53u8, 78u8, 101u8, 111u8, 118u8, 109u8,
                82u8, 101u8, 99u8, 101u8, 105u8, 118u8, 101u8, 114u8,
            ],
            Action::GetOep5NeovmReceivers => seq![
                103u8, 101u8, 116u8, 79u8, 101u8, 112u8, 53u8, 78u8, 101u8, 111u8, 118u8, 109u8,
                82u8, 101u8, 99u8, 101u8, 105u8, 118u8, 101u8, 114u8, 115u8,
            ],
            Action::RegisterOep5Erc721Pair => seq![
                114u8, 101u8, 103u8, 105u8, 115u8, 116u8, 101u8, 114u8, 79u8, 101u8, 112u8, 53u8,
                69u8, 114u8, 99u8, 55u8, 50u8, 49u8, 80u8, 97u8, 105u8, 114u8,
            ],
            Action::RegisterOep8Erc1155Pair => seq![
                114u8, 101u8, 103u8, 105u8, 115u8, 116u8, 101u8, 114u8, 79u8, 101u8, 112u8, 56u8,
                69u8, 114u8, 99u8, 49u8, 49u8, 53u8, 53u8, 80u8, 97u8, 105u8, 114u8,
            ],
            Action::TransferTokenPairOwner => seq![
                116u8, 114u8, 97u8, 110u8, 115u8, 102u8, 101u8, 114u8, 84u8, 111u8, 107u8, 101u8,
                110u8, 80u8, 97u8, 105u8, 114u8, 79u8, 119u8, 110u8, 101u8, 114u8,
            ],
            Action::GetAllTokenPairName => seq![
                103u8, 101u8, 116u8, 65u8, 108u8, 108u8, 84u8, 111u8, 107u8, 101u8, 110u8, 80u8,
                97u8, 105u8, 114u8, 78u8, 97u8, 109u8, 101u8,
            ],
            Action::GetTokenPair => seq![
                103u8, 101u8, 116u8, 84u8, 111u8, 107u8, 101u8, 110u8, 80u8, 97u8, 105u8, 114u8,
            ],
            Action::Oep5ToErc721 => seq![
                111u8, 101u8, 112u8, 53u8, 84u8, 111u8, 69u8, 114u8, 99u8, 55u8, 50u8, 49u8,
            ],
            Action::MintErc721 => seq![
                109u8, 105u8, 110u8, 116u8, 69u8, 114u8, 99u8, 55u8, 50u8, 49u8,
            ],
            Action::BalanceOfOep5 => seq![
                98u8, 97u8, 108u8, 97u8, 110u8, 99u8, 101u8, 79u8, 102u8, 79u8, 101u8, 112u8, 53u8,
            ],
            Action::BalanceOfErc721 => seq![
                98u8, 97u8, 108u8, 97u8, 110u8, 99u8, 101u8, 79u8, 102u8, 69u8, 114u8, 99u8, 55u8,
                50u8, 49u8,
            ],
            Action::BalanceOfErc1155 => seq![
                98u8, 97u8, 108u8, 97u8, 110u8, 99u8, 101u8, 79u8, 102u8, 69u8, 114u8, 99u8, 49u8,
                49u8, 53u8, 53u8,
            ],
            Action::MintErc1155 => seq![
                109u8, 105u8, 110u8, 116u8, 69u8, 114u8, 99u8, 49u8, 49u8, 53u8, 53u8,
            ],
            Action::Oep8ToErc1155 => seq![
                111u8, 101u8, 112u8, 56u8, 84u8, 111u8, 69u8, 114u8, 99u8, 49u8, 49u8, 53u8, 53u8,
            ],
        },
{
    broadcast use vstd::string::is_ascii_spec_bytes;

    match action {
        Action::Init => {
            reveal_strlit("init");
            assert("init".is_ascii());
            assert("init".spec_bytes() =~= seq![105u8, 110u8, 105u8, 116u8]);
        },
        Action::GetAdmin => {
            reveal_strlit("getAdmin");
            assert("getAdmin".is_ascii());
            assert("getAdmin".spec_bytes() =~= seq![
                103u8, 101u8, 116u8, 65u8, 100u8, 109u8, 105u8, 110u8,
            ]);
        },
        Action::SetPendingAdmin => {
            reveal_strlit("setPendingAdmin");
            assert("setPendingAdmin".is_ascii());
            assert("setPendingAdmin".spec_bytes() =~= seq![
                115u8, 101u8, 116u8, 80u8, 101u8, 110u8, 100u8, 105u8, 110u8, 103u8, 65u8, 100u8,
                109u8, 105u8, 110u8,
            ]);
        },
        Action::GetPendingAdmin => {
            reveal_strlit("getPendingAdmin");
            assert("getPendingAdmin".is_ascii());
            assert("getPendingAdmin".spec_bytes() =~= seq![
                103u8, 101u8, 116u8, 80u8, 101u8, 110u8, 100u8, 105u8, 110u8, 103u8, 65u8, 100u8,
                109u8, 105u8, 110u8,
            ]);
        },
        Action::AcceptAdmin => {
            reveal_strlit("acceptAdmin");
            assert("acceptAdmin".is_ascii());
            assert("acceptAdmin".spec_bytes() =~= seq![
                97u8, 99u8, 99u8, 101u8, 112u8, 116u8, 65u8, 100u8, 109u8, 105u8, 110u8,
            ]);
        },
        Action::Migrate => {
            reveal_strlit("migrate");
            assert("migrate".is_ascii());
            assert("migrate".spec_bytes() =~= seq![109u8, 105u8, 103u8, 114u8, 97u8, 116u8, 101u8]);
        },
        Action::AddOep5NeovmReceiver => {
            reveal_strlit("addOep5NeovmReceiver");
            assert("addOep5NeovmReceiver".is_ascii());
            assert("addOep5NeovmReceiver".spec_bytes() =~= seq![
                97u8, 100u8, 100u8, 79u8, 101u8, 112u8, 53u8, 78u8, 101u8, 111u8, 118u8, 109u8,
                82u8, 101u8, 99u8, 101u8, 105u8, 118u8, 101u8, 114u8,
            ]);
        },
        Action::DelOep5NeovmReceiver => {
            reveal_strlit("delOep5NeovmReceiver");
            assert("delOep5NeovmReceiver".is_ascii());
            assert("delOep5NeovmReceiver".spec_bytes() =~= seq![
                100u8, 101u8, 108u8, 79u8, 101u8, 112u8, 53u8, 78u8, 101u8, 111u8, 118u8, 109u8,
                82u8, 101u8, 99u8, 101u8, 105u8, 118u8, 101u8, 114u8,
            ]);
        },
        Action::GetOep5NeovmReceivers => {
            reveal_strlit("getOep5NeovmReceivers");
            assert("getOep5NeovmReceivers".is_ascii());
            assert("getOep5NeovmReceivers".spec_bytes() =~= seq![
                103u8, 101u8, 116u8, 79u8, 101u8, 112u8, 53u8, 78u8, 101u8, 111u8, 118u8, 109u8,
                82u8, 101u8, 99u8, 101u8, 105u8, 118u8, 101u8, 114u8, 115u8,
            ]);
        },
        Action::RegisterOep5Erc721Pair => {
            reveal_strlit("registerOep5Erc721Pair");
            assert("registerOep5Erc721Pair".is_ascii());
            assert("registerOep5Erc721Pair".spec_bytes() =~= seq![
                114u8, 101u8, 103u8, 105u8, 115u8, 116u8, 101u8, 114u8, 79u8, 101u8, 112u8, 53u8,
                69u8, 114u8, 99u8, 55u8, 50u8, 49u8, 80u8, 97u8, 105u8, 114u8,
            ]);
        },
        Action::RegisterOep8Erc1155Pair => {
            reveal_strlit("registerOep8Erc1155Pair");
            assert("registerOep8Erc1155Pair".is_ascii());
            assert("registerOep8Erc1155Pair".spec_bytes() =~= seq![
                114u8, 101u8, 103u8, 105u8, 115u8, 116u8, 101u8, 114u8, 79u8, 101u8, 112u8, 56u8,
                69u8, 114u8, 99u8, 49u8, 49u8, 53u8, 53u8, 80u8, 97u8, 105u8, 114u8,
            ]);
        },
        Action::TransferTokenPairOwner => {
            reveal_strlit("transferTokenPairOwner");
            assert("transferTokenPairOwner".is_ascii());
            assert("transferTokenPairOwner".spec_bytes() =~= seq![
                116u8, 114u8, 97u8, 110u8, 115u8, 102u8, 101u8, 114u8, 84u8, 111u8, 107u8, 101u8,
                110u8, 80u8, 97u8, 105u8, 114u8, 79u8, 119u8, 110u8, 101u8, 114u8,
            ]);
        },
        Action::GetAllTokenPairName => {
            reveal_strlit("getAllTokenPairName");
            assert("getAllTokenPairName".is_ascii());
            assert("getAllTokenPairName".spec_bytes() =~= seq![
                103u8, 101u8, 116u8, 65u8, 108u8, 108u8, 84u8, 111u8, 107u8, 101u8, 110u8, 80u8,
                97u8, 105u8, 114u8, 78u8, 97u8, 109u8, 101u8,
            ]);
        },
        Action::GetTokenPair => {
            reveal_strlit("getTokenPair");
            assert("getTokenPair".is_ascii());
            assert("getTokenPair".spec_bytes() =~= seq![
                103u8, 101u8, 116u8, 84u8, 111u8, 107u8, 101u8, 110u8, 80u8, 97u8, 105u8, 114u8,
            ]);
        },
        Action::Oep5ToErc721 => {
            reveal_strlit("oep5ToErc721");
            assert("oep5ToErc721".is_ascii());
            assert("oep5ToErc721".spec_bytes() =~= seq![
                111u8, 101u8, 112u8, 53u8, 84u8, 111u8, 69u8, 114u8, 99u8, 55u8, 50u8, 49u8,
            ]);
        },
        Action::MintErc721 => {
            reveal_strlit("mintErc721");
            assert("mintErc721".is_ascii());
            assert("mintErc721".spec_bytes() =~= seq![
                109u8, 105u8, 110u8, 116u8, 69u8, 114u8, 99u8, 55u8, 50u8, 49u8,
            ]);
        },
        Action::BalanceOfOep5 => {
            reveal_strlit("balanceOfOep5");
            assert("balanceOfOep5".is_ascii());
            assert("balanceOfOep5".spec_bytes() =~= seq![
                98u8, 97u8, 108u8, 97u8, 110u8, 99u8, 101u8, 79u8, 102u8, 79u8, 101u8, 112u8, 53u8,
            ]);
        },
        Action::BalanceOfErc721 => {
            reveal_strlit("balanceOfErc721");
            assert("balanceOfErc721".is_ascii());
            assert("balanceOfErc721".spec_bytes() =~= seq![
                98u8, 97u8, 108u8, 97u8, 110u8, 99u8, 101u8, 79u8, 102u8, 69u8, 114u8, 99u8, 55u8,
                50u8, 49u8,
            ]);
        },
        Action::BalanceOfErc1155 => {
            reveal_strlit("balanceOfErc1155");
            assert("balanceOfErc1155".is_ascii());
            assert("balanceOfErc1155".spec_bytes() =~= seq![
                98u8, 97u8, 108u8, 97u8, 110u8, 99u8, 101u8, 79u8, 102u8, 69u8, 114u8, 99u8, 49u8,
                49u8, 53u8, 53u8,
            ]);
        },
        Action::MintErc1155 => {
            reveal_strlit("mintErc1155");
            assert("mintErc1155".is_ascii());
            assert("mintErc1155".spec_bytes() =~= seq![
                109u8, 105u8, 110u8, 116u8, 69u8, 114u8, 99u8, 49u8, 49u8, 53u8, 53u8,
            ]);
        },
        Action::Oep8ToErc1155 => {
            reveal_strlit("oep8ToErc1155");
            assert("oep8ToErc1155".is_ascii());
            assert("oep8ToErc1155".spec_bytes() =~= seq![
                111u8, 101u8, 112u8, 56u8, 84u8, 111u8, 69u8, 114u8, 99u8, 49u8, 49u8, 53u8, 53u8,
            ]);
        },
    }
}

/// No two actions go by the same name.
pub proof fn law_labels_differ(a: Action, b: Action)
    ensures
        label(a) == label(b) ==> a == b,
        action_named(label(a)) == Some(a),
{
    lemma_label_bytes(a);
    lemma_label_bytes(b);
    lemma_names_tell_actions_apart(a);
    if label(a) == label(b) {
        lemma_names_tell_actions_apart(b);
    }
}

/// The length and two bytes of a name tell which action it is.
proof fn lemma_names_tell_actions_apart(a: Action)
    ensures
        action_named(label(a)) == Some(a),
{
    lemma_label_bytes(a);
    lemma_label_bytes(Action::Init);
    lemma_label_bytes(Action::GetAdmin);
    lemma_label_bytes(Action::SetPendingAdmin);
    lemma_label_bytes(Action::GetPendingAdmin);
    lemma_label_bytes(Action::AcceptAdmin);
    lemma_label_bytes(Action::Migrate);
    lemma_label_bytes(Action::AddOep5NeovmReceiver);
    lemma_label_bytes(Action::DelOep5NeovmReceiver);
    lemma_label_bytes(Action::GetOep5NeovmReceivers);
    lemma_label_bytes(Action::RegisterOep5Erc721Pair);
    lemma_label_bytes(Action::RegisterOep8Erc1155Pair);
    lemma_label_bytes(Action::TransferTokenPairOwner);
    lemma_label_bytes(Action::GetAllTokenPairName);
    lemma_label_bytes(Action::GetTokenPair);
    lemma_label_bytes(Action::Oep5ToErc721);
    lemma_label_bytes(Action::MintErc721);
    lemma_label_bytes(Action::BalanceOfOep5);
    lemma_label_bytes(Action::BalanceOfErc721);
    lemma_label_bytes(Action::BalanceOfErc1155);
    lemma_label_bytes(Action::MintErc1155);
    lemma_label_bytes(Action::Oep8ToErc1155);
}

} // verus!
