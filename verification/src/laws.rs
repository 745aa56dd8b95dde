use vstd::prelude::*;
use crate::address::Address;
use crate::bridge::{held_by, names_holding, snapshot_of, Holding};
use crate::calls::{multi_balance_query, multi_transfer_order, HostCall, Reply};
use crate::error::BridgeError;
use crate::evm::foreign_balance_in;
use crate::invocation::authorizes;
use crate::migration::{Migration, MigrationStage};
use crate::model::{lemma_with_new_members, BridgeView};
use crate::order::{lemma_lex_total, lemma_lex_transitive, lex_lt};
use crate::pair::{Category, TokenPair};
use crate::transfer::{Oep5Stage, Oep5Transfer, Oep8Stage, Oep8Transfer, RECEIVER_THRESHOLD};

verus! {

/// A bridge that has never been called is in a sound state without an admin.
pub proof fn law_fresh_bridge()
    ensures
        BridgeView::fresh().wf(),
        !BridgeView::fresh().initialized(),
        BridgeView::fresh().pending_admin.is_zero(),
{
    let s = BridgeView::fresh();
    assert(Address::zero().is_zero());
}

/// The three operations on the admin keep a sound state sound, and once the
/// admin is set it is never the zero address again.
pub proof fn law_admin_operations_keep_state(
    s: BridgeView,
    who: Address,
    signers: Set<Address>,
)
    requires
        s.wf(),
    ensures
        s.initialize(who, signers) matches Ok(next) ==> next.wf() && next.initialized(),
        s.set_pending_admin(who, signers) matches Ok(next) ==> next.wf() && (s.initialized()
            ==> next.initialized()),
        s.accept_admin(signers) matches Ok(next) ==> next.wf() && next.initialized(),
{
}

/// Nothing but the handover changes the admin: registering a pair, handing a
/// pair on, nominating an admin, changing the pool and noting an escrowed id
/// all leave the admin as it is.
pub proof fn law_admin_is_kept(
    s: BridgeView,
    category: Category,
    name: Seq<u8>,
    who: Address,
    other: Address,
    flag: bool,
    addrs: Seq<Address>,
    id: u128,
    signers: Set<Address>,
)
    ensures
        s.set_pending_admin(who, signers) matches Ok(next) ==> next.admin == s.admin,
        s.register(category, name, who, other, flag, signers) matches Ok(next) ==> next.admin
            == s.admin && next.pending_admin == s.pending_admin,
        s.transfer_owner(name, who, signers) matches Ok(next) ==> next.admin == s.admin
            && next.pending_admin == s.pending_admin,
        s.add_receivers(addrs, signers) matches Ok(next) ==> next.admin == s.admin
            && next.pending_admin == s.pending_admin,
        s.del_receiver(who, signers) matches Ok(next) ==> next.admin == s.admin
            && next.pending_admin == s.pending_admin,
        s.record_escrow_id(who, id).admin == s.admin,
        s.record_escrow_id(who, id).pending_admin == s.pending_admin,
{
}

/// The admin can be set once only.
pub proof fn law_initialize_once(
    s: BridgeView,
    first: Address,
    first_signers: Set<Address>,
    second: Address,
    second_signers: Set<Address>,
)
    ensures
        s.initialize(first, first_signers) matches Ok(next) ==> next.initialize(
            second,
            second_signers,
        ) == Err::<BridgeView, BridgeError>(BridgeError::AlreadyInitialized),
{
}

/// While nobody is nominated, nobody can take the admin's place, whoever
/// witnesses the call. This holds right after the admin has been set.
pub proof fn law_no_acceptance_without_nominee(
    s: BridgeView,
    admin: Address,
    admin_signers: Set<Address>,
    signers: Set<Address>,
)
    ensures
        s.pending_admin.is_zero() ==> s.accept_admin(signers) == Err::<BridgeView, BridgeError>(
            BridgeError::Unauthorized,
        ),
        BridgeView::fresh().initialize(admin, admin_signers) matches Ok(next)
            ==> next.accept_admin(signers) == Err::<BridgeView, BridgeError>(
            BridgeError::Unauthorized,
        ),
{
    assert(Address::zero().is_zero());
}

/// Once `nominee` has been nominated, a call takes the admin's place exactly
/// if the nominee witnessed it; the admin's own witness does not count. After
/// that the nominee is the admin and nobody is nominated.
pub proof fn law_two_phase_handover(
    s: BridgeView,
    nominee: Address,
    admin_signers: Set<Address>,
    signers: Set<Address>,
)
    ensures
        s.set_pending_admin(nominee, admin_signers) matches Ok(nominated) ==> {
            &&& nominated.accept_admin(signers).is_ok() <==> signers.contains(nominee)
            &&& nominated.accept_admin(signers) matches Ok(accepted) ==> accepted.admin == nominee
                && accepted.pending_admin.is_zero() && accepted.accept_admin(signers).is_err()
        },
{
    assert(Address::zero().is_zero());
}

/// Registering a pair keeps a sound state sound and keeps the admin.
pub proof fn law_register_keeps_state(
    s: BridgeView,
    category: Category,
    name: Seq<u8>,
    oep: Address,
    erc: Address,
    is_neovm: bool,
    signers: Set<Address>,
)
    requires
        s.wf(),
    ensures
        s.register(category, name, oep, erc, is_neovm, signers) matches Ok(next) ==> {
            &&& next.wf()
            &&& next.admin == s.admin
            &&& !next.pairs[(category, name)].oep.is_zero()
            &&& !next.pairs[(category, name)].erc.is_zero()
        },
{
    if let Ok(next) = s.register(category, name, oep, erc, is_neovm, signers) {
        assert(next.names.no_duplicates()) by {
            assert forall|i: int, j: int|
                0 <= i < next.names.len() && 0 <= j < next.names.len() && i != j implies next.names[i]
                != next.names[j] by {
                if i < s.names.len() {
                    assert(s.names.contains(next.names[i]));
                }
                if j < s.names.len() {
                    assert(s.names.contains(next.names[j]));
                }
            }
        }
        assert forall|c: Category, n: Seq<u8>| #[trigger]
            next.pairs.contains_key((c, n)) implies next.names.contains(n) by {
            if n == name {
                assert(next.names[s.names.len() as int] == name);
            } else {
                assert(s.pairs.contains_key((c, n)));
                let i = choose|i: int| 0 <= i < s.names.len() && s.names[i] == n;
                assert(next.names[i] == n);
            }
        }
        assert forall|n: Seq<u8>| next.names.contains(n) implies (
        #[trigger] next.pairs.contains_key((Category::SingleId, n)) != next.pairs.contains_key(
            (Category::MultiId, n),
        )) by {
            if n == name {
                assert(!s.pairs.contains_key((Category::SingleId, n)));
                assert(!s.pairs.contains_key((Category::MultiId, n)));
            } else {
                let i = choose|i: int| 0 <= i < next.names.len() && next.names[i] == n;
                assert(s.names[i] == n);
                assert(s.names.contains(n));
            }
        }
    }
}

/// A name can be registered once only, in whichever family: every later
/// registration under it fails, and fails for the name's sake if nothing else
/// is wrong with it.
pub proof fn law_register_twice_fails(
    s: BridgeView,
    category: Category,
    name: Seq<u8>,
    oep: Address,
    erc: Address,
    is_neovm: bool,
    signers: Set<Address>,
    category2: Category,
    oep2: Address,
    erc2: Address,
    is_neovm2: bool,
    signers2: Set<Address>,
)
    ensures
        s.register(category, name, oep, erc, is_neovm, signers) matches Ok(next) ==> {
            &&& next.register(category2, name, oep2, erc2, is_neovm2, signers2).is_err()
            &&& authorizes(signers2, next.admin) && !oep2.is_zero() && !erc2.is_zero()
                ==> next.register(category2, name, oep2, erc2, is_neovm2, signers2) == Err::<
                BridgeView,
                BridgeError,
            >(BridgeError::PairAlreadyRegistered)
        },
{
    if let Ok(next) = s.register(category, name, oep, erc, is_neovm, signers) {
        assert(next.names[s.names.len() as int] == name);
    }
}

/// Two registrations under different names, the second of which would have
/// succeeded on its own, both succeed. Both names are then enumerated, after
/// the older names and in the order of registration, and each name leads to
/// its own pair.
pub proof fn law_register_two_names(
    s: BridgeView,
    category: Category,
    name1: Seq<u8>,
    oep1: Address,
    erc1: Address,
    neovm1: bool,
    name2: Seq<u8>,
    oep2: Address,
    erc2: Address,
    neovm2: bool,
    signers: Set<Address>,
)
    requires
        s.wf(),
        name1 != name2,
        s.register(category, name1, oep1, erc1, neovm1, signers).is_ok(),
        s.register(category, name2, oep2, erc2, neovm2, signers).is_ok(),
    ensures
        s.register(category, name1, oep1, erc1, neovm1, signers) matches Ok(first)
            && first.register(category, name2, oep2, erc2, neovm2, signers) matches Ok(second) && {
            &&& second.names == s.names.push(name1).push(name2)
            &&& second.pair_by_name(name1) == Some(
                TokenPair { owner: s.admin, erc: erc1, oep: oep1, is_oep5_neovm: neovm1 },
            )
            &&& second.pair_by_name(name2) == Some(
                TokenPair { owner: s.admin, erc: erc2, oep: oep2, is_oep5_neovm: neovm2 },
            )
        },
{
    let first = s.register(category, name1, oep1, erc1, neovm1, signers).unwrap();
    law_register_keeps_state(s, category, name1, oep1, erc1, neovm1, signers);
    assert(!first.names.contains(name2)) by {
        if first.names.contains(name2) {
            let i = choose|i: int| 0 <= i < first.names.len() && first.names[i] == name2;
            if i < s.names.len() {
                assert(s.names[i] == name2);
            }
        }
    }
    let second = first.register(category, name2, oep2, erc2, neovm2, signers).unwrap();
    law_register_keeps_state(first, category, name2, oep2, erc2, neovm2, signers);
    assert(second.names[s.names.len() as int] == name1);
    assert(second.names.contains(name1));
    assert(second.names[s.names.len() as int + 1] == name2);
    assert(second.names.contains(name2));
    assert(second.pairs.contains_key((category, name1)));
    assert(second.pairs.contains_key((category, name2)));
}

/// Handing a pair to another owner keeps a sound state sound and changes
/// nothing but that pair's owner.
pub proof fn law_transfer_owner_keeps_state(
    s: BridgeView,
    name: Seq<u8>,
    new_owner: Address,
    signers: Set<Address>,
)
    requires
        s.wf(),
    ensures
        s.transfer_owner(name, new_owner, signers) matches Ok(next) ==> {
            &&& next.wf()
            &&& next.names == s.names
            &&& next.admin == s.admin
            &&& next.pair_by_name(name) == Some(
                TokenPair { owner: new_owner, ..s.pair_by_name(name).unwrap() },
            )
            &&& forall|other: Seq<u8>|
                other != name ==> next.pair_by_name(other) == s.pair_by_name(other)
        },
{
    if let Ok(next) = s.transfer_owner(name, new_owner, signers) {
        let c = s.category_of(name).unwrap();
        assert(s.pairs.contains_key((c, name)));
        assert(s.names.contains(name));
        assert forall|n: Seq<u8>| next.names.contains(n) implies (
        #[trigger] next.pairs.contains_key((Category::SingleId, n)) != next.pairs.contains_key(
            (Category::MultiId, n),
        )) by {
            assert(s.pairs.contains_key((Category::SingleId, n)) != s.pairs.contains_key(
                (Category::MultiId, n),
            ));
        }
        assert forall|c2: Category, n: Seq<u8>| #[trigger]
            next.pairs.contains_key((c2, n)) implies next.names.contains(n) by {
            if n != name {
                assert(s.pairs.contains_key((c2, n)));
            }
        }
    }
}

/// A pair whose owner is the zero address can be reassigned by the admin only.
pub proof fn law_frozen_pair(
    s: BridgeView,
    name: Seq<u8>,
    new_owner: Address,
    signers: Set<Address>,
)
    ensures
        s.pair_by_name(name) matches Some(pair) && pair.owner.is_zero() && !authorizes(
            signers,
            s.admin,
        ) ==> s.transfer_owner(name, new_owner, signers) == Err::<BridgeView, BridgeError>(
            BridgeError::Unauthorized,
        ),
{
}

/// Adding receivers keeps a sound state sound: the pool stays in front and in
/// order, no receiver is in it twice, and its members are the old ones and
/// the ones given.
pub proof fn law_add_receivers(s: BridgeView, addrs: Seq<Address>, signers: Set<Address>)
    requires
        s.wf(),
    ensures
        s.add_receivers(addrs, signers) matches Ok(next) ==> {
            &&& next.wf()
            &&& next.receivers.subrange(0, s.receivers.len() as int) == s.receivers
            &&& forall|a: Address|
                next.receivers.contains(a) <==> s.receivers.contains(a) || addrs.contains(a)
            &&& s.receivers.len() == 0 && addrs.no_duplicates() ==> next.receivers == addrs
        },
{
    lemma_with_new_members(s.receivers, addrs);
    if s.receivers.len() == 0 && addrs.no_duplicates() {
        lemma_fills_empty_pool(Seq::empty(), addrs);
        assert(s.receivers =~= Seq::<Address>::empty());
        assert(Seq::<Address>::empty() + addrs =~= addrs);
    }
}

/// Members that are all new and all different are appended as they stand.
proof fn lemma_fills_empty_pool(pool: Seq<Address>, addrs: Seq<Address>)
    requires
        addrs.no_duplicates(),
        forall|i: int| 0 <= i < addrs.len() ==> !pool.contains(addrs[i]),
    ensures
        crate::model::with_new_members(pool, addrs) == pool + addrs,
    decreases addrs.len(),
{
    if addrs.len() == 0 {
        assert(pool + addrs =~= pool);
    } else {
        let next = pool.push(addrs[0]);
        let rest = addrs.skip(1);
        assert forall|i: int| 0 <= i < rest.len() implies !next.contains(rest[i]) by {
            assert(rest[i] == addrs[i + 1]);
            if next.contains(rest[i]) {
                let k = choose|k: int| 0 <= k < next.len() && next[k] == rest[i];
                if k < pool.len() {
                    assert(pool.contains(pool[k]));
                }
            }
        }
        lemma_fills_empty_pool(next, rest);
        assert(next + rest =~= pool + addrs);
    }
}

/// Removing a receiver keeps a sound state sound: the receiver is gone, all
/// others are left, and a second removal fails.
pub proof fn law_del_receiver(s: BridgeView, receiver: Address, signers: Set<Address>)
    requires
        s.wf(),
    ensures
        s.del_receiver(receiver, signers) matches Ok(next) ==> {
            &&& next.wf()
            &&& !next.receivers.contains(receiver)
            &&& forall|a: Address|
                a != receiver ==> (next.receivers.contains(a) <==> s.receivers.contains(a))
            &&& next.del_receiver(receiver, signers) == Err::<BridgeView, BridgeError>(
                BridgeError::ReceiverNotFound,
            )
        },
{
    if let Ok(next) = s.del_receiver(receiver, signers) {
        let pool = s.receivers;
        let at = pool.index_of(receiver);
        let rest = next.receivers;
        assert(rest =~= pool.remove(at));
        assert forall|k: int| 0 <= k < rest.len() implies rest[k] == pool[if k < at {
            k
        } else {
            k + 1
        }] by {}
        assert(rest.no_duplicates());
        assert forall|a: Address| a != receiver && pool.contains(a) implies rest.contains(a) by {
            let k = choose|k: int| 0 <= k < pool.len() && pool[k] == a;
            let k2 = if k < at {
                k
            } else {
                k - 1
            };
            assert(rest[k2] == a);
        }
        if rest.contains(receiver) {
            let k = choose|k: int| 0 <= k < rest.len() && rest[k] == receiver;
        }
    }
}

/// Noting an escrowed id keeps a sound state sound. The id is then noted,
/// everything noted before stays noted in its order, and noting it again
/// changes nothing.
pub proof fn law_record_escrow_id(s: BridgeView, contract: Address, id: u128)
    requires
        s.wf(),
    ensures
        s.record_escrow_id(contract, id).wf(),
        s.record_escrow_id(contract, id).ids_of(contract).contains(id),
        s.record_escrow_id(contract, id).ids_of(contract).subrange(
            0,
            s.ids_of(contract).len() as int,
        ) == s.ids_of(contract),
        forall|other: Address|
            other != contract ==> s.record_escrow_id(contract, id).ids_of(other) == s.ids_of(
                other,
            ),
        s.record_escrow_id(contract, id).record_escrow_id(contract, id) == s.record_escrow_id(
            contract,
            id,
        ),
{
    let next = s.record_escrow_id(contract, id);
    let before = s.ids_of(contract);
    if before.contains(id) {
        assert(before.subrange(0, before.len() as int) =~= before);
    } else {
        let ids = before.push(id);
        assert(ids[before.len() as int] == id);
        assert(ids.subrange(0, before.len() as int) =~= before);
        assert(ids.no_duplicates()) by {
            assert forall|i: int, j: int|
                0 <= i < ids.len() && 0 <= j < ids.len() && i != j implies ids[i] != ids[j] by {
                if i < before.len() {
                    assert(before.contains(ids[i]));
                }
                if j < before.len() {
                    assert(before.contains(ids[j]));
                }
            }
        }
        assert(next.ids_of(contract) == ids);
    }
}

/// The answers `balances`, each as a number.
pub open spec fn numbers(balances: Seq<u128>) -> Seq<Reply> {
    balances.map_values(|b: u128| Reply::Number(b))
}

/// A transfer that asks the receivers from the `from`-th on for their
/// balances, and gets `balances` for answers, chooses the first of them that
/// holds less than the threshold, together with the balance it reported, and
/// asks none after it. If none holds less, the transfer is aborted.
pub proof fn law_first_receiver_under_threshold(
    transfer: Oep5Transfer,
    receivers: Seq<Address>,
    balances: Seq<u128>,
    from: int,
    chosen: int,
)
    requires
        0 <= from <= chosen <= receivers.len(),
        from < receivers.len(),
        receivers.len() <= usize::MAX,
        balances.len() == receivers.len(),
        transfer.stage == (Oep5Stage::Scan { index: from as usize, candidate: receivers[from] }),
        forall|i: int| from <= i < chosen ==> balances[i] >= RECEIVER_THRESHOLD,
        chosen < receivers.len() ==> balances[chosen] < RECEIVER_THRESHOLD,
    ensures
        chosen < receivers.len() ==> transfer.run(
            receivers,
            numbers(balances.subrange(from, chosen + 1)),
        ) == Ok::<Oep5Transfer, BridgeError>(
            transfer.at(
                Oep5Stage::Owner { receiver: receivers[chosen], before: balances[chosen] },
            ),
        ),
        chosen == receivers.len() ==> transfer.run(
            receivers,
            numbers(balances.subrange(from, chosen)),
        ) == Err::<Oep5Transfer, BridgeError>(BridgeError::NoReceiverAvailable),
    decreases chosen - from,
{
    let upto = if chosen < receivers.len() {
        chosen + 1
    } else {
        chosen
    };
    let replies = numbers(balances.subrange(from, upto));
    assert(replies.len() > 0);
    assert(replies[0] == Reply::Number(balances[from]));
    if from == chosen {
        assert(replies.skip(1) =~= Seq::<Reply>::empty());
        let next = transfer.after(receivers, replies[0]).unwrap();
        assert(next.run(receivers, replies.skip(1)) == Ok::<Oep5Transfer, BridgeError>(next));
    } else if from + 1 < receivers.len() {
        let next = transfer.at(
            Oep5Stage::Scan { index: (from + 1) as usize, candidate: receivers[from + 1] },
        );
        assert(transfer.after(receivers, replies[0]) == Ok::<Oep5Transfer, BridgeError>(next));
        law_first_receiver_under_threshold(next, receivers, balances, from + 1, chosen);
        assert(replies.skip(1) =~= numbers(balances.subrange(from + 1, upto)));
        assert(next.at(
            Oep5Stage::Owner { receiver: receivers[chosen], before: balances[chosen] },
        ) == transfer.at(
            Oep5Stage::Owner { receiver: receivers[chosen], before: balances[chosen] },
        ));
    } else {
        assert(replies.skip(1) =~= Seq::<Reply>::empty());
    }
}

/// A single-id transfer mints only after it has seen the receiver's balance
/// grow. If the balance is unchanged, the transfer is done at once: it asks
/// for no mint and notifies nothing. If the balance has grown, the transfer
/// goes on to the mint, and is done exactly if the recipient's foreign
/// balance is then one more than before; else it is aborted.
pub proof fn law_single_id_mint_is_gated(
    transfer: Oep5Transfer,
    receivers: Seq<Address>,
    receiver: Address,
    before: u128,
    now: u128,
    foreign_before: Reply,
    minted: Reply,
    foreign_after: Reply,
)
    requires
        transfer.stage == (Oep5Stage::Custody { receiver, before }),
        minted is Bytes,
    ensures
        now == before ==> {
            &&& transfer.after(receivers, Reply::Number(now)) == Ok::<Oep5Transfer, BridgeError>(
                transfer.at(Oep5Stage::Done),
            )
            &&& transfer.at(Oep5Stage::Done).pending().is_none()
            &&& transfer.notices(receivers, Reply::Number(now)) == Seq::<
                crate::events::EventView,
            >::empty()
        },
        now > before ==> {
            let replies = seq![Reply::Number(now), foreign_before, minted, foreign_after];
            match (foreign_balance_in(foreign_before), foreign_balance_in(foreign_after)) {
                (Ok(b), Ok(a)) => transfer.run(receivers, replies) == if a - b == 1 {
                    Ok::<Oep5Transfer, BridgeError>(transfer.at(Oep5Stage::Done))
                } else {
                    Err::<Oep5Transfer, BridgeError>(BridgeError::MintFailed)
                },
                _ => transfer.run(receivers, replies).is_err(),
            }
        },
{
    if now > before {
        let replies = seq![Reply::Number(now), foreign_before, minted, foreign_after];
        let r1 = replies.skip(1);
        let r2 = r1.skip(1);
        let r3 = r2.skip(1);
        assert(r1[0] == foreign_before && r2[0] == minted && r3[0] == foreign_after);
        assert(r3.skip(1) =~= Seq::<Reply>::empty());
        let t1 = transfer.at(Oep5Stage::ForeignBefore);
        assert(transfer.after(receivers, replies[0]) == Ok::<Oep5Transfer, BridgeError>(t1));
        assert(transfer.run(receivers, replies) == t1.run(receivers, r1));
        if let Ok(b) = foreign_balance_in(foreign_before) {
            let t2 = t1.at(Oep5Stage::Mint { before: b });
            assert(t1.run(receivers, r1) == t2.run(receivers, r2));
            let t3 = t2.at(Oep5Stage::ForeignAfter { before: b });
            assert(t2.after(receivers, minted) == Ok::<Oep5Transfer, BridgeError>(t3));
            assert(t2.run(receivers, r2) == t3.run(receivers, r3));
            if let Ok(a) = foreign_balance_in(foreign_after) {
                if a - b == 1 {
                    let t4 = t3.at(Oep5Stage::Done);
                    assert(t3.after(receivers, foreign_after) == Ok::<Oep5Transfer, BridgeError>(
                        t4,
                    ));
                    assert(t4.run(receivers, r3.skip(1)) == Ok::<Oep5Transfer, BridgeError>(t4));
                }
            }
        }
    }
}

/// A multi-id transfer is done only if the escrow did not grow, or grew and
/// the recipient's foreign balance then grew by exactly the amount of the
/// transfer. A mint that delivers more or less aborts the transfer, and an
/// aborted transfer leaves the bridge as it was.
pub proof fn law_multi_id_mint_is_exact(
    transfer: Oep8Transfer,
    bridge: BridgeView,
    escrow_before: u128,
    escrow_now: u128,
    foreign_before: u128,
    reply: Reply,
)
    ensures
        transfer.stage == (Oep8Stage::EscrowAfter { before: escrow_before }) ==> {
            let answer = Reply::Number(escrow_now);
            &&& escrow_now == escrow_before ==> transfer.completes(answer)
            &&& escrow_now > escrow_before ==> transfer.after(answer) == Ok::<
                Oep8Transfer,
                BridgeError,
            >(transfer.at(Oep8Stage::ForeignBefore)) && !transfer.completes(answer)
        },
        transfer.stage == (Oep8Stage::ForeignAfter { before: foreign_before }) ==> (
        match foreign_balance_in(reply) {
            Ok(now) => transfer.after(reply) == if now - foreign_before == transfer.amount {
                Ok::<Oep8Transfer, BridgeError>(transfer.at(Oep8Stage::Done))
            } else {
                Err::<Oep8Transfer, BridgeError>(BridgeError::MintFailed)
            },
            Err(e) => transfer.after(reply) == Err::<Oep8Transfer, BridgeError>(e),
        }),
        transfer.after(reply).is_err() ==> transfer.bridge_after(bridge, reply) == bridge,
        transfer.completes(reply) ==> transfer.bridge_after(bridge, reply).ids_of(
            transfer.pair.oep,
        ).contains(transfer.token_id),
{
    if transfer.completes(reply) {
        let ids = bridge.ids_of(transfer.pair.oep);
        if !ids.contains(transfer.token_id) {
            assert(ids.push(transfer.token_id)[ids.len() as int] == transfer.token_id);
        }
    }
}

/// A multi-id transfer from its first call to its last. It is aborted if the
/// native contract refuses the escrow or the bridge's balance shrinks. If the
/// balance is unchanged, the transfer is done after three answers, without a
/// mint. If the balance has grown, the transfer is done exactly if the
/// recipient's foreign balance grows by the amount of the transfer.
pub proof fn law_multi_id_transfer_runs(
    transfer: Oep8Transfer,
    escrow_before: u128,
    escrowed: bool,
    escrow_now: u128,
    foreign_before: Reply,
    minted: Reply,
    foreign_after: Reply,
)
    requires
        transfer.stage == Oep8Stage::EscrowBefore,
        minted is Bytes,
    ensures
        ({
            let escrow = seq![
                Reply::Number(escrow_before),
                Reply::Flag(escrowed),
                Reply::Number(escrow_now),
            ];
            let mint = seq![foreign_before, minted, foreign_after];
            &&& !escrowed ==> transfer.run(escrow.take(2)) == Err::<Oep8Transfer, BridgeError>(
                BridgeError::TransferFailed,
            )
            &&& escrowed && escrow_now < escrow_before ==> transfer.run(escrow) == Err::<
                Oep8Transfer,
                BridgeError,
            >(BridgeError::BalanceDecreased)
            &&& escrowed && escrow_now == escrow_before ==> transfer.run(escrow) == Ok::<
                Oep8Transfer,
                BridgeError,
            >(transfer.at(Oep8Stage::Done))
            &&& escrowed && escrow_now > escrow_before ==> (match (
                foreign_balance_in(foreign_before),
                foreign_balance_in(foreign_after),
            ) {
                (Ok(b), Ok(a)) => transfer.run(escrow + mint) == if a - b == transfer.amount {
                    Ok::<Oep8Transfer, BridgeError>(transfer.at(Oep8Stage::Done))
                } else {
                    Err::<Oep8Transfer, BridgeError>(BridgeError::MintFailed)
                },
                _ => transfer.run(escrow + mint).is_err(),
            })
        }),
{
    let r0 = Reply::Number(escrow_before);
    let r1 = Reply::Flag(escrowed);
    let r2 = Reply::Number(escrow_now);
    let escrow = seq![r0, r1, r2];
    let mint = seq![foreign_before, minted, foreign_after];
    let t1 = transfer.at(Oep8Stage::Escrow { before: escrow_before });
    let t2 = transfer.at(Oep8Stage::EscrowAfter { before: escrow_before });
    assert(transfer.after(r0) == Ok::<Oep8Transfer, BridgeError>(t1));
    if !escrowed {
        let two = escrow.take(2);
        assert(two[0] == r0 && two.skip(1)[0] == r1);
        assert(transfer.run(two) == t1.run(two.skip(1)));
    } else {
        assert(t1.after(r1) == Ok::<Oep8Transfer, BridgeError>(t2));
        if escrow_now <= escrow_before {
            let a1 = escrow.skip(1);
            let a2 = a1.skip(1);
            assert(a1[0] == r1 && a2[0] == r2);
            assert(a2.skip(1) =~= Seq::<Reply>::empty());
            assert(transfer.run(escrow) == t1.run(a1));
            assert(t1.run(a1) == t2.run(a2));
            if escrow_now == escrow_before {
                let t3 = transfer.at(Oep8Stage::Done);
                assert(t2.after(r2) == Ok::<Oep8Transfer, BridgeError>(t3));
                assert(t3.run(a2.skip(1)) == Ok::<Oep8Transfer, BridgeError>(t3));
            }
        } else {
            let all = escrow + mint;
            let a1 = all.skip(1);
            let a2 = a1.skip(1);
            let a3 = a2.skip(1);
            let a4 = a3.skip(1);
            let a5 = a4.skip(1);
            assert(all[0] == r0 && a1[0] == r1 && a2[0] == r2 && a3[0] == foreign_before && a4[0]
                == minted && a5[0] == foreign_after);
            assert(a5.skip(1) =~= Seq::<Reply>::empty());
            let t3 = transfer.at(Oep8Stage::ForeignBefore);
            assert(t2.after(r2) == Ok::<Oep8Transfer, BridgeError>(t3));
            assert(transfer.run(all) == t1.run(a1));
            assert(t1.run(a1) == t2.run(a2));
            assert(t2.run(a2) == t3.run(a3));
            if let Ok(b) = foreign_balance_in(foreign_before) {
                let t4 = transfer.at(Oep8Stage::Mint { before: b });
                let t5 = transfer.at(Oep8Stage::ForeignAfter { before: b });
                assert(t3.after(foreign_before) == Ok::<Oep8Transfer, BridgeError>(t4));
                assert(t4.after(minted) == Ok::<Oep8Transfer, BridgeError>(t5));
                assert(t3.run(a3) == t4.run(a4));
                assert(t4.run(a4) == t5.run(a5));
                if let Ok(a) = foreign_balance_in(foreign_after) {
                    if a - b == transfer.amount {
                        let t6 = transfer.at(Oep8Stage::Done);
                        assert(t5.after(foreign_after) == Ok::<Oep8Transfer, BridgeError>(t6));
                        assert(t6.run(a5.skip(1)) == Ok::<Oep8Transfer, BridgeError>(t6));
                    }
                }
            }
        }
    }
}

/// The calls that `migration` asks for while the answers `replies` come in,
/// in this order: the pending call, and after each answer that does not abort
/// the migration the call that is pending then.
pub open spec fn asked(migration: Migration, replies: Seq<Reply>) -> Seq<HostCall>
    decreases replies.len(),
{
    match migration.pending() {
        None => Seq::empty(),
        Some(call) => if replies.len() == 0 {
            seq![call]
        } else {
            match migration.stage_after(replies[0]) {
                Err(_) => seq![call],
                Ok(stage) => seq![call] + asked(migration.at(stage), replies.skip(1)),
            }
        },
    }
}

/// The stage that `migration` has reached once the answers `replies` have
/// come in, in this order, or why it is aborted.
pub open spec fn reached(migration: Migration, replies: Seq<Reply>) -> Result<
    MigrationStage,
    BridgeError,
>
    decreases replies.len(),
{
    if replies.len() == 0 {
        Ok(migration.stage)
    } else {
        match migration.stage_after(replies[0]) {
            Err(e) => Err(e),
            Ok(stage) => reached(migration.at(stage), replies.skip(1)),
        }
    }
}

/// Whether `balances` holds one balance for every id of the plan.
pub open spec fn shaped_like_plan(migration: Migration, balances: Seq<Seq<u128>>) -> bool {
    &&& balances.len() == migration.plan@.len()
    &&& forall|k: int|
        0 <= k < balances.len() ==> (#[trigger] balances[k]).len() == migration.plan@[k].ids@.len()
}

/// What honest token contracts answer from the `id`-th id of the `set`-th
/// holding on, when the bridge holds `balances`: for each id its balance, and
/// after a balance that is not zero the confirmation of its transfer.
pub open spec fn honest_answers(
    migration: Migration,
    balances: Seq<Seq<u128>>,
    set: int,
    id: int,
) -> Seq<Reply>
    decreases migration.plan@.len() - set, migration.plan@[set].ids@.len() - id,
{
    if set < 0 || id < 0 || set >= migration.plan@.len() {
        Seq::empty()
    } else if id >= migration.plan@[set].ids@.len() {
        honest_answers(migration, balances, set + 1, 0)
    } else if balances[set][id] == 0 {
        seq![Reply::Number(0)] + honest_answers(migration, balances, set, id + 1)
    } else {
        seq![Reply::Number(balances[set][id]), Reply::Flag(true)] + honest_answers(
            migration,
            balances,
            set,
            id + 1,
        )
    }
}

/// The calls that carry the escrow over from the `id`-th id of the `set`-th
/// holding on, when the bridge holds `balances`: for each id of the plan, in
/// the plan's order, the query for the bridge's balance, and after a balance
/// that is not zero the order to move all of it to `new_addr`.
pub open spec fn carrying_calls(
    migration: Migration,
    new_addr: Address,
    balances: Seq<Seq<u128>>,
    set: int,
    id: int,
) -> Seq<HostCall>
    decreases migration.plan@.len() - set, migration.plan@[set].ids@.len() - id,
{
    if set < 0 || id < 0 || set >= migration.plan@.len() {
        Seq::empty()
    } else if id >= migration.plan@[set].ids@.len() {
        carrying_calls(migration, new_addr, balances, set + 1, 0)
    } else {
        let contract = migration.plan@[set].contract;
        let token_id = migration.plan@[set].ids@[id];
        let query = multi_balance_query(contract, migration.this, token_id);
        let rest = carrying_calls(migration, new_addr, balances, set, id + 1);
        if balances[set][id] == 0 {
            seq![query] + rest
        } else {
            seq![
                query,
                multi_transfer_order(
                    contract,
                    migration.this,
                    new_addr,
                    token_id,
                    balances[set][id],
                ),
            ] + rest
        }
    }
}

/// With honest token contracts a migration that looks at an id of its plan
/// runs to its end. On its way it asks for the balance of every id of the
/// plan that is still to come, in the plan's order, and moves every balance
/// that is not zero whole to the new address. It makes no other call: an id
/// that was never escrowed is not touched.
pub proof fn law_migration_carries_escrow(
    migration: Migration,
    new_addr: Address,
    balances: Seq<Seq<u128>>,
    set: usize,
    id: usize,
)
    requires
        migration.wf(),
        shaped_like_plan(migration, balances),
        migration.stage == (MigrationStage::Balance { new_addr, set, id }),
    ensures
        reached(migration, honest_answers(migration, balances, set as int, id as int)) == Ok::<
            MigrationStage,
            BridgeError,
        >(MigrationStage::Done),
        asked(migration, honest_answers(migration, balances, set as int, id as int))
            == carrying_calls(migration, new_addr, balances, set as int, id as int),
    decreases migration.plan@.len() - set, migration.plan@[set as int].ids@.len() - id, 1int,
{
    let s = set as int;
    let i = id as int;
    let balance = balances[s][i];
    let rest = honest_answers(migration, balances, s, i + 1);
    let all = honest_answers(migration, balances, s, i);
    let contract = migration.plan@[s].contract;
    let token_id = migration.plan@[s].ids@[i];
    let query = multi_balance_query(contract, migration.this, token_id);
    let next = migration.at(migration.following(new_addr, set, id));
    lemma_migration_goes_on(migration, new_addr, balances, set, id);
    assert(next.plan == migration.plan && next.this == migration.this);
    assert(honest_answers(next, balances, s, i + 1) == rest) by {
        lemma_same_plan(migration, next, new_addr, balances, s, i + 1);
    }
    assert(carrying_calls(next, new_addr, balances, s, i + 1) == carrying_calls(
        migration,
        new_addr,
        balances,
        s,
        i + 1,
    )) by {
        lemma_same_plan(migration, next, new_addr, balances, s, i + 1);
    }
    if balance == 0 {
        assert(all == seq![Reply::Number(0)] + rest);
        assert(all[0] == Reply::Number(0));
        assert(all.skip(1) =~= rest);
        assert(migration.stage_after(all[0]) == Ok::<MigrationStage, BridgeError>(next.stage));
        assert(seq![query] + carrying_calls(migration, new_addr, balances, s, i + 1)
            == carrying_calls(migration, new_addr, balances, s, i));
    } else {
        let order = multi_transfer_order(contract, migration.this, new_addr, token_id, balance);
        let moving = migration.at(MigrationStage::Transfer { new_addr, set, id, balance });
        assert(all == seq![Reply::Number(balance), Reply::Flag(true)] + rest);
        assert(all[0] == Reply::Number(balance));
        let tail = all.skip(1);
        assert(tail[0] == Reply::Flag(true));
        assert(tail.skip(1) =~= rest);
        assert(migration.stage_after(all[0]) == Ok::<MigrationStage, BridgeError>(moving.stage));
        assert(moving.pending() == Some(order));
        assert(moving.stage_after(tail[0]) == Ok::<MigrationStage, BridgeError>(next.stage));
        assert(moving.at(next.stage) == next);
        assert(reached(migration, all) == reached(moving, tail));
        assert(reached(moving, tail) == reached(next, rest));
        assert(asked(moving, tail) == seq![order] + asked(next, rest));
        assert(asked(migration, all) == seq![query] + asked(moving, tail));
        assert(seq![query] + (seq![order] + asked(next, rest)) =~= seq![query, order] + asked(
            next,
            rest,
        ));
        assert(seq![query, order] + carrying_calls(migration, new_addr, balances, s, i + 1)
            == carrying_calls(migration, new_addr, balances, s, i));
    }
}

/// The answers and the calls depend on the plan and the bridge's address, not on the stage.
proof fn lemma_same_plan(
    a: Migration,
    b: Migration,
    new_addr: Address,
    balances: Seq<Seq<u128>>,
    set: int,
    id: int,
)
    requires
        a.plan == b.plan,
        a.this == b.this,
    ensures
        honest_answers(a, balances, set, id) == honest_answers(b, balances, set, id),
        carrying_calls(a, new_addr, balances, set, id) == carrying_calls(
            b,
            new_addr,
            balances,
            set,
            id,
        ),
    decreases a.plan@.len() - set, a.plan@[set].ids@.len() - id,
{
    if set < 0 || id < 0 || set >= a.plan@.len() {
    } else if id >= a.plan@[set].ids@.len() {
        lemma_same_plan(a, b, new_addr, balances, set + 1, 0);
    } else {
        lemma_same_plan(a, b, new_addr, balances, set, id + 1);
    }
}

/// Once the `id`-th id of the `set`-th holding is dealt with, the migration
/// deals with the ids after it and is done.
proof fn lemma_migration_goes_on(
    migration: Migration,
    new_addr: Address,
    balances: Seq<Seq<u128>>,
    set: usize,
    id: usize,
)
    requires
        migration.wf(),
        shaped_like_plan(migration, balances),
        set < migration.plan@.len(),
        id < migration.plan@[set as int].ids@.len(),
    ensures
        ({
            let next = migration.at(migration.following(new_addr, set, id));
            let rest = honest_answers(next, balances, set as int, id + 1);
            &&& reached(next, rest) == Ok::<MigrationStage, BridgeError>(MigrationStage::Done)
            &&& asked(next, rest) == carrying_calls(next, new_addr, balances, set as int, id + 1)
        }),
    decreases migration.plan@.len() - set, migration.plan@[set as int].ids@.len() - id, 0int,
{
    let s = set as int;
    let i = id as int;
    let next = migration.at(migration.following(new_addr, set, id));
    let rest = honest_answers(next, balances, s, i + 1);
    assert(next.plan == migration.plan);
    assert(migration.plan@[s].ids@.len() == migration.plan@[s].ids.len() && migration.plan@.len()
        == migration.plan.len()) by {
        vstd::std_specs::vec::axiom_spec_len(&migration.plan@[s].ids);
        vstd::std_specs::vec::axiom_spec_len(&migration.plan);
    }
    if i + 1 < migration.plan@[s].ids@.len() {
        law_migration_carries_escrow(next, new_addr, balances, set, (id + 1) as usize);
    } else if s + 1 < migration.plan@.len() {
        assert(migration.plan@[s + 1].ids@.len() > 0);
        assert(rest == honest_answers(next, balances, s + 1, 0));
        assert(carrying_calls(next, new_addr, balances, s, i + 1) == carrying_calls(
            next,
            new_addr,
            balances,
            s + 1,
            0,
        ));
        law_migration_carries_escrow(next, new_addr, balances, (set + 1) as usize, 0);
    } else {
        assert(honest_answers(next, balances, s + 1, 0) =~= Seq::<Reply>::empty());
        assert(carrying_calls(next, new_addr, balances, s + 1, 0) =~= Seq::<HostCall>::empty());
        assert(rest =~= Seq::<Reply>::empty());
    }
}

/// A migration begins with the relocation and nothing else. If the host
/// names the zero address, the migration is aborted before any token moves;
/// else it goes on to the first id of the plan, bound for the address named.
pub proof fn law_migration_begins_with_relocation(migration: Migration, new_addr: Address)
    requires
        migration.wf(),
        migration.stage == MigrationStage::Relocate,
    ensures
        migration.pending() == Some(HostCall::Relocate),
        new_addr.is_zero() ==> asked(migration, seq![Reply::Account(new_addr)]) == seq![
            HostCall::Relocate,
        ] && reached(migration, seq![Reply::Account(new_addr)]) == Err::<
            MigrationStage,
            BridgeError,
        >(BridgeError::MigrateFailed),
        !new_addr.is_zero() ==> migration.stage_after(Reply::Account(new_addr)) == Ok::<
            MigrationStage,
            BridgeError,
        >(
            if migration.plan@.len() > 0 {
                MigrationStage::Balance { new_addr, set: 0, id: 0 }
            } else {
                MigrationStage::Done
            },
        ),
{
    let replies = seq![Reply::Account(new_addr)];
    assert(replies[0] == Reply::Account(new_addr));
}

/// The names stand in the order of a dictionary, each before the next.
pub open spec fn ascending(names: Seq<Seq<u8>>) -> bool {
    forall|a: int, b: int| 0 <= a < b < names.len() ==> lex_lt(names[a], names[b])
}

/// Two ascending lists of the same names are the same list.
proof fn lemma_ascending_is_unique(a: Seq<Seq<u8>>, b: Seq<Seq<u8>>)
    requires
        ascending(a),
        ascending(b),
        forall|x: Seq<u8>| a.contains(x) <==> b.contains(x),
    ensures
        a == b,
    decreases a.len(),
{
    if a.len() == 0 {
        if b.len() > 0 {
            assert(b.contains(b[0]));
        }
        assert(a =~= b);
    } else {
        assert(a.contains(a[0]));
        let j = choose|j: int| 0 <= j < b.len() && b[j] == a[0];
        assert(b.contains(b[0]));
        let i = choose|i: int| 0 <= i < a.len() && a[i] == b[0];
        lemma_lex_total(a[0], a[0]);
        if j > 0 {
            // b[0] comes before a[0], yet it is one of a's names
            if i > 0 {
                lemma_lex_transitive(a[0], a[i], b[j]);
            }
        }
        assert(a[0] == b[0]);
        let ta = a.skip(1);
        let tb = b.skip(1);
        assert forall|x: Seq<u8>| ta.contains(x) <==> tb.contains(x) by {
            if ta.contains(x) {
                let k = choose|k: int| 0 <= k < ta.len() && ta[k] == x;
                assert(a[k + 1] == x);
                assert(a.contains(x));
                let m = choose|m: int| 0 <= m < b.len() && b[m] == x;
                lemma_lex_total(x, x);
                assert(m > 0);
                assert(tb[m - 1] == x);
            }
            if tb.contains(x) {
                let k = choose|k: int| 0 <= k < tb.len() && tb[k] == x;
                assert(b[k + 1] == x);
                assert(b.contains(x));
                let m = choose|m: int| 0 <= m < a.len() && a[m] == x;
                lemma_lex_total(x, x);
                assert(m > 0);
                assert(ta[m - 1] == x);
            }
        }
        assert(ascending(ta)) by {
            assert forall|x: int, y: int| 0 <= x < y < ta.len() implies lex_lt(ta[x], ta[y]) by {
                assert(lex_lt(a[x + 1], a[y + 1]));
            }
        }
        assert(ascending(tb)) by {
            assert forall|x: int, y: int| 0 <= x < y < tb.len() implies lex_lt(tb[x], tb[y]) by {
                assert(lex_lt(b[x + 1], b[y + 1]));
            }
        }
        lemma_ascending_is_unique(ta, tb);
        assert(a =~= b) by {
            assert(a.len() == b.len());
            assert forall|k: int| 0 <= k < a.len() implies a[k] == b[k] by {
                if k > 0 {
                    assert(ta[k - 1] == a[k]);
                    assert(tb[k - 1] == b[k]);
                }
            }
        }
    }
}

/// The names of `plan`, in order.
pub open spec fn plan_names(plan: Seq<Holding>) -> Seq<Seq<u8>> {
    Seq::new(plan.len(), |k: int| plan[k].name@)
}

/// A bridge has one escrow: two plans that both are the escrow of `bridge`
/// hold the same names, contracts and ids in the same order.
pub proof fn law_snapshot_is_unique(bridge: BridgeView, p: Seq<Holding>, q: Seq<Holding>)
    requires
        snapshot_of(bridge, p),
        snapshot_of(bridge, q),
    ensures
        p.len() == q.len(),
        forall|k: int|
            0 <= k < p.len() ==> (#[trigger] p[k]).name@ == q[k].name@ && p[k].contract
                == q[k].contract && p[k].ids@ == q[k].ids@,
{
    let a = plan_names(p);
    let b = plan_names(q);
    assert(ascending(a)) by {
        assert forall|x: int, y: int| 0 <= x < y < a.len() implies lex_lt(a[x], a[y]) by {
            assert(lex_lt(p[x].name@, p[y].name@));
        }
    }
    assert(ascending(b)) by {
        assert forall|x: int, y: int| 0 <= x < y < b.len() implies lex_lt(b[x], b[y]) by {
            assert(lex_lt(q[x].name@, q[y].name@));
        }
    }
    assert forall|x: Seq<u8>| a.contains(x) <==> b.contains(x) by {
        if a.contains(x) {
            let k = choose|k: int| 0 <= k < a.len() && a[k] == x;
            assert(held_by(bridge, p[k]));
            assert(names_holding(q, x));
            let m = choose|m: int| 0 <= m < q.len() && (#[trigger] q[m]).name@ == x;
            assert(b[m] == x);
        }
        if b.contains(x) {
            let k = choose|k: int| 0 <= k < b.len() && b[k] == x;
            assert(held_by(bridge, q[k]));
            assert(names_holding(p, x));
            let m = choose|m: int| 0 <= m < p.len() && (#[trigger] p[m]).name@ == x;
            assert(a[m] == x);
        }
    }
    lemma_ascending_is_unique(a, b);
    assert forall|k: int| 0 <= k < p.len() implies (#[trigger] p[k]).name@ == q[k].name@
        && p[k].contract == q[k].contract && p[k].ids@ == q[k].ids@ by {
        assert(a[k] == b[k]);
        assert(held_by(bridge, p[k]));
        assert(held_by(bridge, q[k]));
    }
}

} // verus!
