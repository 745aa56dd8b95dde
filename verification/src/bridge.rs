use vstd::prelude::*;
use vstd::slice::slice_to_vec;
use crate::address::Address;
use crate::error::BridgeError;
use crate::events::{
    admin_notice, new_admin_event, new_pending_admin_event, owner_notice, pending_admin_notice,
    register_notice, register_token_pair_evt, transfer_token_pair_owner_evt,
};
use crate::invocation::Invocation;
use crate::model::{lemma_with_new_members, with_new_members, BridgeView};
use crate::order::{lemma_lex_total, lemma_lex_transitive, lex_lt, name_lt};
use crate::pair::{Category, TokenPair};

verus! {

/// A registered pair with the name and the family under which it is filed.
#[derive(Clone, Debug, PartialEq, Eq)]
pub struct PairEntry {
    pub name: Vec<u8>,
    pub category: Category,
    pub pair: TokenPair,
}

/// The ids ever escrowed on one native multi-id contract, oldest first.
#[derive(Clone, Debug, PartialEq, Eq)]
pub struct EscrowSet {
    pub contract: Address,
    pub ids: Vec<u128>,
}

/// The state of one deployed bridge: who governs it, which pairs it serves,
/// which receivers hold single-id tokens for it, and which multi-id tokens it
/// has ever held itself.
#[derive(Debug)]
pub struct Bridge {
    admin: Address,
    pending_admin: Address,
    entries: Vec<PairEntry>,
    receivers: Vec<Address>,
    escrow: Vec<EscrowSet>,
}

/// The names of `entries`, in order.
pub open spec fn entry_names(entries: Seq<PairEntry>) -> Seq<Seq<u8>> {
    Seq::new(entries.len(), |i: int| entries[i].name@)
}

/// Whether `entries` files a pair under `name` in the family `category`.
pub open spec fn has_entry(entries: Seq<PairEntry>, category: Category, name: Seq<u8>) -> bool {
    exists|i: int|
        0 <= i < entries.len() && (#[trigger] entries[i]).category == category && entries[i].name@
            == name
}

/// Where `entries` files the pair `name` of the family `category`.
pub open spec fn entry_at(entries: Seq<PairEntry>, category: Category, name: Seq<u8>) -> int {
    choose|i: int|
        0 <= i < entries.len() && (#[trigger] entries[i]).category == category && entries[i].name@
            == name
}

/// The pairs of `entries`, keyed by family and name.
pub open spec fn pair_map(entries: Seq<PairEntry>) -> Map<(Category, Seq<u8>), TokenPair> {
    Map::new(
        |k: (Category, Seq<u8>)| has_entry(entries, k.0, k.1),
        |k: (Category, Seq<u8>)| entries[entry_at(entries, k.0, k.1)].pair,
    )
}

/// Whether `escrow` keeps ids for `contract`.
pub open spec fn has_set(escrow: Seq<EscrowSet>, contract: Address) -> bool {
    exists|i: int| 0 <= i < escrow.len() && (#[trigger] escrow[i]).contract == contract
}

/// Where `escrow` keeps the ids of `contract`.
pub open spec fn set_at(escrow: Seq<EscrowSet>, contract: Address) -> int {
    choose|i: int| 0 <= i < escrow.len() && (#[trigger] escrow[i]).contract == contract
}

/// The id sets of `escrow`, keyed by contract.
pub open spec fn escrow_map(escrow: Seq<EscrowSet>) -> Map<Address, Seq<u128>> {
    Map::new(
        |c: Address| has_set(escrow, c),
        |c: Address| escrow[set_at(escrow, c)].ids@,
    )
}

/// No two entries share a name.
pub open spec fn distinct_names(entries: Seq<PairEntry>) -> bool {
    forall|i: int, j: int|
        0 <= i < entries.len() && 0 <= j < entries.len() && i != j ==> (#[trigger] entries[i]).name@
            != (#[trigger] entries[j]).name@
}

/// No two sets belong to one contract, and each set holds at least one id and none twice.
pub open spec fn sound_escrow(escrow: Seq<EscrowSet>) -> bool {
    &&& forall|i: int, j: int|
        0 <= i < escrow.len() && 0 <= j < escrow.len() && i != j ==> (#[trigger] escrow[i]).contract
            != (#[trigger] escrow[j]).contract
    &&& forall|i: int|
        0 <= i < escrow.len() ==> (#[trigger] escrow[i]).ids@.len() > 0
            && escrow[i].ids@.no_duplicates()
}

proof fn lemma_entry_found(entries: Seq<PairEntry>, i: int)
    requires
        distinct_names(entries),
        0 <= i < entries.len(),
    ensures
        has_entry(entries, entries[i].category, entries[i].name@),
        entry_at(entries, entries[i].category, entries[i].name@) == i,
        forall|c: Category| has_entry(entries, c, entries[i].name@) ==> c == entries[i].category,
{
    let e = entries[i];
    assert(has_entry(entries, e.category, e.name@));
    let k = entry_at(entries, e.category, e.name@);
    assert(entries[k].name@ == entries[i].name@);
    assert forall|c: Category| has_entry(entries, c, e.name@) implies c == e.category by {
        let j = entry_at(entries, c, e.name@);
        assert(entries[j].name@ == entries[i].name@);
    }
}

proof fn lemma_names_contain(entries: Seq<PairEntry>, name: Seq<u8>)
    ensures
        entry_names(entries).contains(name) <==> exists|i: int|
            0 <= i < entries.len() && (#[trigger] entries[i]).name@ == name,
{
    let names = entry_names(entries);
    if names.contains(name) {
        let i = choose|i: int| 0 <= i < names.len() && names[i] == name;
        assert(entries[i].name@ == name);
    }
    if exists|i: int| 0 <= i < entries.len() && (#[trigger] entries[i]).name@ == name {
        let i = choose|i: int| 0 <= i < entries.len() && (#[trigger] entries[i]).name@ == name;
        assert(names[i] == name);
    }
}

proof fn lemma_set_found(escrow: Seq<EscrowSet>, i: int)
    requires
        sound_escrow(escrow),
        0 <= i < escrow.len(),
    ensures
        has_set(escrow, escrow[i].contract),
        set_at(escrow, escrow[i].contract) == i,
{
    assert(has_set(escrow, escrow[i].contract));
    let k = set_at(escrow, escrow[i].contract);
    assert(escrow[k].contract == escrow[i].contract);
}

/// Filing a pair under a name that is not in use adds the name and the pair, and nothing else.
proof fn lemma_push_entry(entries: Seq<PairEntry>, e: PairEntry)
    requires
        distinct_names(entries),
        !entry_names(entries).contains(e.name@),
    ensures
        distinct_names(entries.push(e)),
        entry_names(entries.push(e)) == entry_names(entries).push(e.name@),
        pair_map(entries.push(e)) == pair_map(entries).insert((e.category, e.name@), e.pair),
{
    let after = entries.push(e);
    lemma_names_contain(entries, e.name@);
    assert(entry_names(after) =~= entry_names(entries).push(e.name@));
    assert(distinct_names(after));
    let m0 = pair_map(entries).insert((e.category, e.name@), e.pair);
    let m1 = pair_map(after);
    assert forall|k: (Category, Seq<u8>)| m1.contains_key(k) <==> m0.contains_key(k) by {
        if has_entry(entries, k.0, k.1) {
            let i = entry_at(entries, k.0, k.1);
            assert(after[i] == entries[i]);
        }
        if has_entry(after, k.0, k.1) {
            let i = entry_at(after, k.0, k.1);
            if i < entries.len() {
                assert(entries[i] == after[i]);
            }
        }
        if k == (e.category, e.name@) {
            assert(after[entries.len() as int] == e);
        }
    }
    assert forall|k: (Category, Seq<u8>)| m1.contains_key(k) implies m1[k] == m0[k] by {
        let i = entry_at(after, k.0, k.1);
        lemma_entry_found(after, i);
        if i < entries.len() {
            assert(entries[i] == after[i]);
            lemma_entry_found(entries, i);
        }
    }
    assert(m1 =~= m0);
}

/// Changing the pair of an entry changes that pair, and nothing else.
proof fn lemma_update_entry(entries: Seq<PairEntry>, i: int, e: PairEntry)
    requires
        distinct_names(entries),
        0 <= i < entries.len(),
        e.name@ == entries[i].name@,
        e.category == entries[i].category,
    ensures
        distinct_names(entries.update(i, e)),
        entry_names(entries.update(i, e)) == entry_names(entries),
        pair_map(entries.update(i, e)) == pair_map(entries).insert((e.category, e.name@), e.pair),
{
    let after = entries.update(i, e);
    assert(entry_names(after) =~= entry_names(entries));
    assert(distinct_names(after)) by {
        assert forall|a: int, b: int|
            0 <= a < after.len() && 0 <= b < after.len() && a != b implies (#[trigger] after[a]).name@
            != (#[trigger] after[b]).name@ by {
            assert(after[a].name@ == entries[a].name@);
            assert(after[b].name@ == entries[b].name@);
        }
    }
    let m0 = pair_map(entries).insert((e.category, e.name@), e.pair);
    let m1 = pair_map(after);
    assert forall|k: (Category, Seq<u8>)| m1.contains_key(k) <==> m0.contains_key(k) by {
        if has_entry(entries, k.0, k.1) {
            let j = entry_at(entries, k.0, k.1);
            assert(after[j].name@ == entries[j].name@ && after[j].category
                == entries[j].category);
        }
        if has_entry(after, k.0, k.1) {
            let j = entry_at(after, k.0, k.1);
            assert(after[j].name@ == entries[j].name@ && after[j].category
                == entries[j].category);
        }
        if k == (e.category, e.name@) {
            assert(after[i] == e);
        }
    }
    assert forall|k: (Category, Seq<u8>)| m1.contains_key(k) implies m1[k] == m0[k] by {
        let j = entry_at(after, k.0, k.1);
        lemma_entry_found(after, j);
        if j != i {
            assert(entries[j] == after[j]);
            lemma_entry_found(entries, j);
        }
    }
    assert(m1 =~= m0);
}

/// Opening a set for a contract that has none adds that set, and nothing else.
proof fn lemma_push_set(escrow: Seq<EscrowSet>, s: EscrowSet)
    requires
        sound_escrow(escrow),
        !has_set(escrow, s.contract),
        s.ids@.len() > 0,
        s.ids@.no_duplicates(),
    ensures
        sound_escrow(escrow.push(s)),
        escrow_map(escrow.push(s)) == escrow_map(escrow).insert(s.contract, s.ids@),
{
    let after = escrow.push(s);
    assert(sound_escrow(after)) by {
        assert forall|i: int, j: int|
            0 <= i < after.len() && 0 <= j < after.len() && i != j implies (#[trigger] after[i]).contract
            != (#[trigger] after[j]).contract by {
            if i < escrow.len() {
                assert(after[i] == escrow[i]);
            }
            if j < escrow.len() {
                assert(after[j] == escrow[j]);
            }
        }
        assert forall|i: int| 0 <= i < after.len() implies (#[trigger] after[i]).ids@.len() > 0
            && after[i].ids@.no_duplicates() by {
            if i < escrow.len() {
                assert(after[i] == escrow[i]);
            }
        }
    }
    let m0 = escrow_map(escrow).insert(s.contract, s.ids@);
    let m1 = escrow_map(after);
    assert forall|c: Address| m1.contains_key(c) <==> m0.contains_key(c) by {
        if has_set(escrow, c) {
            let i = set_at(escrow, c);
            assert(after[i] == escrow[i]);
        }
        if has_set(after, c) {
            let i = set_at(after, c);
            if i < escrow.len() {
                assert(escrow[i] == after[i]);
            }
        }
        if c == s.contract {
            assert(after[escrow.len() as int] == s);
        }
    }
    assert forall|c: Address| m1.contains_key(c) implies m1[c] == m0[c] by {
        let i = set_at(after, c);
        lemma_set_found(after, i);
        if i < escrow.len() {
            assert(escrow[i] == after[i]);
            lemma_set_found(escrow, i);
        }
    }
    assert(m1 =~= m0);
}

/// Replacing the ids of a set replaces those ids, and nothing else.
proof fn lemma_update_set(escrow: Seq<EscrowSet>, i: int, s: EscrowSet)
    requires
        sound_escrow(escrow),
        0 <= i < escrow.len(),
        s.contract == escrow[i].contract,
        s.ids@.len() > 0,
        s.ids@.no_duplicates(),
    ensures
        sound_escrow(escrow.update(i, s)),
        escrow_map(escrow.update(i, s)) == escrow_map(escrow).insert(s.contract, s.ids@),
{
    let after = escrow.update(i, s);
    assert(sound_escrow(after)) by {
        assert forall|a: int, b: int|
            0 <= a < after.len() && 0 <= b < after.len() && a != b implies (#[trigger] after[a]).contract
            != (#[trigger] after[b]).contract by {
            assert(after[a].contract == escrow[a].contract);
            assert(after[b].contract == escrow[b].contract);
        }
        assert forall|a: int| 0 <= a < after.len() implies (#[trigger] after[a]).ids@.len() > 0
            && after[a].ids@.no_duplicates() by {
            if a != i {
                assert(after[a] == escrow[a]);
            }
        }
    }
    let m0 = escrow_map(escrow).insert(s.contract, s.ids@);
    let m1 = escrow_map(after);
    assert forall|c: Address| m1.contains_key(c) <==> m0.contains_key(c) by {
        if has_set(escrow, c) {
            let j = set_at(escrow, c);
            assert(after[j].contract == escrow[j].contract);
        }
        if has_set(after, c) {
            let j = set_at(after, c);
            assert(after[j].contract == escrow[j].contract);
        }
        if c == s.contract {
            assert(after[i] == s);
        }
    }
    assert forall|c: Address| m1.contains_key(c) implies m1[c] == m0[c] by {
        let j = set_at(after, c);
        lemma_set_found(after, j);
        if j != i {
            assert(escrow[j] == after[j]);
            lemma_set_found(escrow, j);
        }
    }
    assert(m1 =~= m0);
}

impl View for Bridge {
    type V = BridgeView;

    closed spec fn view(&self) -> BridgeView {
        BridgeView {
            admin: self.admin,
            pending_admin: self.pending_admin,
            names: entry_names(self.entries@),
            pairs: pair_map(self.entries@),
            receivers: self.receivers@,
            escrow_ids: escrow_map(self.escrow@),
        }
    }
}

/// Whether `a` and `b` hold the same bytes.
pub fn same_bytes(a: &[u8], b: &[u8]) -> (r: bool)
    ensures
        r == (a@ == b@),
{
    if a.len() != b.len() {
        return false;
    }
    let n = a.len();
    let mut i: usize = 0;
    while i < n
        invariant
            i <= n,
            n == a.len(),
            n == b.len(),
            forall|j: int| 0 <= j < i ==> a@[j] == b@[j],
        decreases n - i,
    {
        if a[i] != b[i] {
            return false;
        }
        i += 1;
    }
    assert(a@ =~= b@);
    true
}

impl Bridge {
    /// The representation is sound: no name, receiver or escrow contract is
    /// kept twice, and no id twice in one set.
    pub closed spec fn wf(&self) -> bool {
        &&& distinct_names(self.entries@)
        &&& self.receivers@.no_duplicates()
        &&& sound_escrow(self.escrow@)
    }

    /// A sound representation stands for a state that the model accepts.
    pub proof fn lemma_view_wf(&self)
        requires
            self.wf(),
        ensures
            self@.wf(),
    {
        let entries = self.entries@;
        let v = self@;
        assert(v.names.no_duplicates()) by {
            assert forall|i: int, j: int|
                0 <= i < v.names.len() && 0 <= j < v.names.len() && i != j implies v.names[i]
                != v.names[j] by {
                assert(entries[i].name@ == v.names[i]);
                assert(entries[j].name@ == v.names[j]);
            }
        }
        assert forall|c: Category, n: Seq<u8>| #[trigger]
            v.pairs.contains_key((c, n)) implies v.names.contains(n) by {
            let i = entry_at(entries, c, n);
            assert(v.names[i] == n);
        }
        assert forall|n: Seq<u8>| v.names.contains(n) implies (#[trigger] v.pairs.contains_key(
            (Category::SingleId, n),
        ) != v.pairs.contains_key((Category::MultiId, n))) by {
            let i = choose|i: int| 0 <= i < v.names.len() && v.names[i] == n;
            lemma_entry_found(entries, i);
        }
        assert forall|c: Address| #[trigger]
            v.escrow_ids.contains_key(c) implies v.escrow_ids[c].len() > 0
            && v.escrow_ids[c].no_duplicates() by {
            let i = set_at(self.escrow@, c);
            assert(self.escrow@[i].ids@.len() > 0);
        }
    }

    /// The state of a bridge that has never been called.
    pub fn new() -> (bridge: Bridge)
        ensures
            bridge.wf(),
            bridge@ == BridgeView::fresh(),
    {
        let bridge = Bridge {
            admin: Address::zero(),
            pending_admin: Address::zero(),
            entries: Vec::new(),
            receivers: Vec::new(),
            escrow: Vec::new(),
        };
        assert(bridge@.names =~= Seq::<Seq<u8>>::empty());
        assert(bridge@.pairs =~= Map::<(Category, Seq<u8>), TokenPair>::empty());
        assert(bridge@.escrow_ids =~= Map::<Address, Seq<u128>>::empty());
        bridge
    }

    /// Where the pair `name` is filed, if anywhere.
    fn find_entry(&self, name: &[u8]) -> (r: Option<usize>)
        requires
            self.wf(),
        ensures
            match r {
                Some(i) => i < self.entries@.len() && self.entries@[i as int].name@ == name@
                    && self@.category_of(name@) == Some(self.entries@[i as int].category)
                    && self@.pair_by_name(name@) == Some(self.entries@[i as int].pair),
                None => !self@.names.contains(name@) && self@.category_of(name@).is_none(),
            },
    {
        let n = self.entries.len();
        let mut i: usize = 0;
        while i < n
            invariant
                i <= n,
                n == self.entries.len(),
                self.wf(),
                forall|j: int| 0 <= j < i ==> (#[trigger] self.entries@[j]).name@ != name@,
            decreases n - i,
        {
            if same_bytes(self.entries[i].name.as_slice(), name) {
                proof {
                    lemma_entry_found(self.entries@, i as int);
                }
                return Some(i);
            }
            i += 1;
        }
        proof {
            lemma_names_contain(self.entries@, name@);
            assert forall|c: Category| !has_entry(self.entries@, c, name@) by {
                if has_entry(self.entries@, c, name@) {
                    let k = entry_at(self.entries@, c, name@);
                    assert(self.entries@[k].name@ == name@);
                }
            }
        }
        None
    }

    /// Where the ids of `contract` are kept, if anywhere.
    fn find_set(&self, contract: &Address) -> (r: Option<usize>)
        requires
            self.wf(),
        ensures
            match r {
                Some(i) => i < self.escrow@.len() && self.escrow@[i as int].contract == *contract
                    && self@.escrow_ids.contains_key(*contract) && self@.escrow_ids[*contract]
                    == self.escrow@[i as int].ids@,
                None => !self@.escrow_ids.contains_key(*contract),
            },
    {
        let n = self.escrow.len();
        let mut i: usize = 0;
        while i < n
            invariant
                i <= n,
                n == self.escrow.len(),
                self.wf(),
                forall|j: int| 0 <= j < i ==> (#[trigger] self.escrow@[j]).contract != *contract,
            decreases n - i,
        {
            if self.escrow[i].contract == *contract {
                proof {
                    lemma_set_found(self.escrow@, i as int);
                }
                return Some(i);
            }
            i += 1;
        }
        proof {
            if has_set(self.escrow@, *contract) {
                let k = set_at(self.escrow@, *contract);
                assert(self.escrow@[k].contract == *contract);
            }
        }
        None
    }
}


/// The current admin; the zero address while the bridge is not initialized.
pub fn get_admin(bridge: &Bridge) -> (admin: Address)
    ensures
        admin == bridge@.admin,
{
    bridge.admin
}

/// The nominated admin; the zero address when there is none.
pub fn get_pending_admin(bridge: &Bridge) -> (pending: Address)
    ensures
        pending == bridge@.pending_admin,
{
    bridge.pending_admin
}

/// Succeeds exactly if the admin witnessed the call.
pub fn check_admin(bridge: &Bridge, call: &Invocation) -> (r: Result<(), BridgeError>)
    ensures
        r == if call.attests(bridge@.admin) {
            Ok::<(), BridgeError>(())
        } else {
            Err::<(), BridgeError>(BridgeError::Unauthorized)
        },
{
    if call.check_witness(&bridge.admin) {
        Ok(())
    } else {
        Err(BridgeError::Unauthorized)
    }
}

/// Sets the admin of a bridge that has none. The admin must have witnessed the call.
pub fn initialize(bridge: &mut Bridge, call: &Invocation, admin: &Address) -> (r: Result<
    bool,
    BridgeError,
>)
    requires
        old(bridge).wf(),
    ensures
        final(bridge).wf(),
        match old(bridge)@.initialize(*admin, call.signers()) {
            Ok(next) => r == Ok::<bool, BridgeError>(true) && final(bridge)@ == next,
            Err(e) => r == Err::<bool, BridgeError>(e) && final(bridge)@ == old(bridge)@,
        },
{
    if !bridge.admin.is_zero() {
        return Err(BridgeError::AlreadyInitialized);
    }
    if !call.check_witness(admin) {
        return Err(BridgeError::Unauthorized);
    }
    bridge.admin = *admin;
    Ok(true)
}

/// Nominates `new_admin`, which must not be the zero address. The admin must
/// have witnessed the call. The nomination is notified.
pub fn set_pending_admin(bridge: &mut Bridge, call: &mut Invocation, new_admin: &Address) -> (r:
    Result<bool, BridgeError>)
    requires
        old(bridge).wf(),
    ensures
        final(bridge).wf(),
        match old(bridge)@.set_pending_admin(*new_admin, old(call).signers()) {
            Ok(next) => {
                &&& r == Ok::<bool, BridgeError>(true)
                &&& final(bridge)@ == next
                &&& final(call).this == old(call).this
                &&& final(call).witnesses == old(call).witnesses
                &&& final(call).log() == old(call).log().push(pending_admin_notice(*new_admin))
            },
            Err(e) => {
                &&& r == Err::<bool, BridgeError>(e)
                &&& final(bridge)@ == old(bridge)@
                &&& *final(call) == *old(call)
            },
        },
{
    if new_admin.is_zero() {
        return Err(BridgeError::ZeroAdmin);
    }
    if !call.check_witness(&bridge.admin) {
        return Err(BridgeError::Unauthorized);
    }
    bridge.pending_admin = *new_admin;
    call.notify(new_pending_admin_event(new_admin));
    Ok(true)
}

/// Makes the nominee the admin and clears the nomination. The nominee, not
/// the admin, must have witnessed the call. The handover is notified.
pub fn accept_admin(bridge: &mut Bridge, call: &mut Invocation) -> (r: Result<bool, BridgeError>)
    requires
        old(bridge).wf(),
    ensures
        final(bridge).wf(),
        match old(bridge)@.accept_admin(old(call).signers()) {
            Ok(next) => {
                &&& r == Ok::<bool, BridgeError>(true)
                &&& final(bridge)@ == next
                &&& final(call).this == old(call).this
                &&& final(call).witnesses == old(call).witnesses
                &&& final(call).log() == old(call).log().push(
                    admin_notice(old(bridge)@.admin, old(bridge)@.pending_admin),
                )
            },
            Err(e) => {
                &&& r == Err::<bool, BridgeError>(e)
                &&& final(bridge)@ == old(bridge)@
                &&& *final(call) == *old(call)
            },
        },
{
    let pending_admin = bridge.pending_admin;
    if !call.check_witness(&pending_admin) {
        return Err(BridgeError::Unauthorized);
    }
    let old_admin = bridge.admin;
    bridge.admin = pending_admin;
    bridge.pending_admin = Address::zero();
    call.notify(new_admin_event(&old_admin, &pending_admin));
    Ok(true)
}

/// Every registered pair name, of both families, oldest first.
pub fn get_all_token_pair_name(bridge: &Bridge) -> (names: Vec<Vec<u8>>)
    ensures
        names.deep_view() == bridge@.names,
{
    let n = bridge.entries.len();
    let mut names: Vec<Vec<u8>> = Vec::new();
    let mut i: usize = 0;
    while i < n
        invariant
            i <= n,
            n == bridge.entries.len(),
            names.len() == i,
            forall|j: int| 0 <= j < i ==> (#[trigger] names@[j])@ == bridge.entries@[j].name@,
        decreases n - i,
    {
        names.push(slice_to_vec(bridge.entries[i].name.as_slice()));
        i += 1;
    }
    assert(names.deep_view() =~= bridge@.names) by {
        assert forall|j: int| 0 <= j < n implies names.deep_view()[j] == bridge@.names[j] by {
            assert(names@[j].deep_view() =~= names@[j]@);
        }
    }
    names
}

/// Registers a single-id pair; see [`register_token_pair`].
pub fn register_oep5_erc721_pair(
    bridge: &mut Bridge,
    call: &mut Invocation,
    token_pair_name: &[u8],
    oep5_addr: &Address,
    erc721_addr: &Address,
    is_neovm: bool,
) -> (r: Result<bool, BridgeError>)
    requires
        old(bridge).wf(),
    ensures
        final(bridge).wf(),
        match old(bridge)@.register(
            Category::SingleId,
            token_pair_name@,
            *oep5_addr,
            *erc721_addr,
            is_neovm,
            old(call).signers(),
        ) {
            Ok(next) => {
                &&& r == Ok::<bool, BridgeError>(true)
                &&& final(bridge)@ == next
                &&& final(call).this == old(call).this
                &&& final(call).witnesses == old(call).witnesses
                &&& final(call).log() == old(call).log().push(
                    register_notice(token_pair_name@, *oep5_addr, *erc721_addr, true),
                )
            },
            Err(e) => {
                &&& r == Err::<bool, BridgeError>(e)
                &&& final(bridge)@ == old(bridge)@
                &&& *final(call) == *old(call)
            },
        },
{
    register_token_pair(bridge, call, token_pair_name, oep5_addr, erc721_addr, true, is_neovm)
}

/// Registers a multi-id pair; see [`register_token_pair`].
pub fn register_oep8_erc1155_pair(
    bridge: &mut Bridge,
    call: &mut Invocation,
    token_pair_name: &[u8],
    oep8_addr: &Address,
    erc1155_addr: &Address,
) -> (r: Result<bool, BridgeError>)
    requires
        old(bridge).wf(),
    ensures
        final(bridge).wf(),
        match old(bridge)@.register(
            Category::MultiId,
            token_pair_name@,
            *oep8_addr,
            *erc1155_addr,
            false,
            old(call).signers(),
        ) {
            Ok(next) => {
                &&& r == Ok::<bool, BridgeError>(true)
                &&& final(bridge)@ == next
                &&& final(call).this == old(call).this
                &&& final(call).witnesses == old(call).witnesses
                &&& final(call).log() == old(call).log().push(
                    register_notice(token_pair_name@, *oep8_addr, *erc1155_addr, false),
                )
            },
            Err(e) => {
                &&& r == Err::<bool, BridgeError>(e)
                &&& final(bridge)@ == old(bridge)@
                &&& *final(call) == *old(call)
            },
        },
{
    register_token_pair(bridge, call, token_pair_name, oep8_addr, erc1155_addr, false, false)
}

/// The family that `is_oep5` stands for.
pub open spec fn family(is_oep5: bool) -> Category {
    if is_oep5 {
        Category::SingleId
    } else {
        Category::MultiId
    }
}

/// Registers the pair of `oep_addr` and `erc_addr` under `token_pair_name`,
/// with the admin as its owner. The admin must have witnessed the call, both
/// addresses must be nonzero and the name must be new to both families. The
/// registration is notified.
pub fn register_token_pair(
    bridge: &mut Bridge,
    call: &mut Invocation,
    token_pair_name: &[u8],
    oep_addr: &Address,
    erc_addr: &Address,
    is_oep5: bool,
    is_neovm: bool,
) -> (r: Result<bool, BridgeError>)
    requires
        old(bridge).wf(),
    ensures
        final(bridge).wf(),
        match old(bridge)@.register(
            family(is_oep5),
            token_pair_name@,
            *oep_addr,
            *erc_addr,
            is_neovm,
            old(call).signers(),
        ) {
            Ok(next) => {
                &&& r == Ok::<bool, BridgeError>(true)
                &&& final(bridge)@ == next
                &&& final(call).this == old(call).this
                &&& final(call).witnesses == old(call).witnesses
                &&& final(call).log() == old(call).log().push(
                    register_notice(token_pair_name@, *oep_addr, *erc_addr, is_oep5),
                )
            },
            Err(e) => {
                &&& r == Err::<bool, BridgeError>(e)
                &&& final(bridge)@ == old(bridge)@
                &&& *final(call) == *old(call)
            },
        },
{
    let admin = bridge.admin;
    if !call.check_witness(&admin) {
        return Err(BridgeError::Unauthorized);
    }
    if oep_addr.is_zero() {
        return Err(BridgeError::ZeroNativeAddress);
    }
    if erc_addr.is_zero() {
        return Err(BridgeError::ZeroForeignAddress);
    }
    if bridge.find_entry(token_pair_name).is_some() {
        proof {
            lemma_names_contain(bridge.entries@, token_pair_name@);
        }
        return Err(BridgeError::PairAlreadyRegistered);
    }
    let category = if is_oep5 {
        Category::SingleId
    } else {
        Category::MultiId
    };
    let entry = PairEntry {
        name: slice_to_vec(token_pair_name),
        category,
        pair: TokenPair { owner: admin, erc: *erc_addr, oep: *oep_addr, is_oep5_neovm: is_neovm },
    };
    proof {
        lemma_push_entry(bridge.entries@, entry);
    }
    bridge.entries.push(entry);
    call.notify(register_token_pair_evt(token_pair_name, oep_addr, erc_addr, is_oep5));
    Ok(true)
}

/// The pair registered under `token_name` and its family. The single-id
/// family is tried first, then the multi-id family.
pub fn get_token_pair_by_name(bridge: &Bridge, token_name: &[u8]) -> (r: Option<
    (Category, TokenPair),
>)
    requires
        bridge.wf(),
    ensures
        r == match bridge@.category_of(token_name@) {
            Some(c) => Some((c, bridge@.pairs[(c, token_name@)])),
            None => None,
        },
{
    match bridge.find_entry(token_name) {
        Some(i) => Some((bridge.entries[i].category, bridge.entries[i].pair)),
        None => None,
    }
}

/// The pair registered under `token_name`, whatever its family.
pub fn get_token_pair(bridge: &Bridge, token_name: &[u8]) -> (r: Result<TokenPair, BridgeError>)
    requires
        bridge.wf(),
    ensures
        r == match bridge@.pair_by_name(token_name@) {
            Some(pair) => Ok::<TokenPair, BridgeError>(pair),
            None => Err::<TokenPair, BridgeError>(BridgeError::PairNotFound),
        },
{
    match bridge.find_entry(token_name) {
        Some(i) => Ok(bridge.entries[i].pair),
        None => Err(BridgeError::PairNotFound),
    }
}

/// The pair registered under `token_name` in the family `category`, if any.
pub fn get_token_pair_in(bridge: &Bridge, category: Category, token_name: &[u8]) -> (r: Option<
    TokenPair,
>)
    requires
        bridge.wf(),
    ensures
        r == bridge@.pair_in(category, token_name@),
{
    proof {
        bridge.lemma_view_wf();
    }
    match bridge.find_entry(token_name) {
        Some(i) => {
            let found = match (bridge.entries[i].category, category) {
                (Category::SingleId, Category::SingleId) => true,
                (Category::MultiId, Category::MultiId) => true,
                _ => false,
            };
            proof {
                lemma_entry_found(bridge.entries@, i as int);
            }
            if found {
                Some(bridge.entries[i].pair)
            } else {
                None
            }
        },
        None => None,
    }
}

/// Hands the pair `token_pair_name` to `new_owner`, which may be the zero
/// address: the pair then has no owner who could reassign it. The admin or
/// the pair's owner must have witnessed the call. The handover is notified.
pub fn transfer_token_pair_owner(
    bridge: &mut Bridge,
    call: &mut Invocation,
    token_pair_name: &[u8],
    new_owner: &Address,
) -> (r: Result<bool, BridgeError>)
    requires
        old(bridge).wf(),
    ensures
        final(bridge).wf(),
        match old(bridge)@.transfer_owner(token_pair_name@, *new_owner, old(call).signers()) {
            Ok(next) => {
                &&& r == Ok::<bool, BridgeError>(true)
                &&& final(bridge)@ == next
                &&& final(call).this == old(call).this
                &&& final(call).witnesses == old(call).witnesses
                &&& final(call).log() == old(call).log().push(
                    owner_notice(old(bridge)@.pair_by_name(token_pair_name@).unwrap().owner, *new_owner),
                )
            },
            Err(e) => {
                &&& r == Err::<bool, BridgeError>(e)
                &&& final(bridge)@ == old(bridge)@
                &&& *final(call) == *old(call)
            },
        },
{
    let i = match bridge.find_entry(token_pair_name) {
        Some(i) => i,
        None => {
            return Err(BridgeError::PairNotFound);
        },
    };
    let old_owner = bridge.entries[i].pair.owner;
    if !call.check_witness(&bridge.admin) && !call.check_witness(&old_owner) {
        return Err(BridgeError::Unauthorized);
    }
    let pair = bridge.entries[i].pair;
    let entry = PairEntry {
        name: slice_to_vec(token_pair_name),
        category: bridge.entries[i].category,
        pair: TokenPair { owner: *new_owner, ..pair },
    };
    proof {
        lemma_update_entry(bridge.entries@, i as int, entry);
    }
    bridge.entries[i] = entry;
    call.notify(transfer_token_pair_owner_evt(&old_owner, new_owner));
    Ok(true)
}

/// The receiver pool, in the order in which its members were added.
pub fn get_oep5_neovm_receivers(bridge: &Bridge) -> (receivers: Vec<Address>)
    ensures
        receivers@ == bridge@.receivers,
{
    slice_to_vec(bridge.receivers.as_slice())
}

/// Whether `list` holds `item`.
fn holds(list: &Vec<Address>, item: &Address) -> (r: bool)
    ensures
        r == list@.contains(*item),
{
    let n = list.len();
    let mut i: usize = 0;
    while i < n
        invariant
            i <= n,
            n == list.len(),
            forall|j: int| 0 <= j < i ==> list@[j] != *item,
        decreases n - i,
    {
        if list[i] == *item {
            assert(list@[i as int] == *item);
            return true;
        }
        i += 1;
    }
    false
}

/// Adds to the pool the members of `receivers` that it lacks, each once and
/// in the order given. The admin must have witnessed the call.
pub fn add_oep5_neovm_receiver(bridge: &mut Bridge, call: &Invocation, receivers: &[Address]) -> (r:
    Result<(), BridgeError>)
    requires
        old(bridge).wf(),
    ensures
        final(bridge).wf(),
        match old(bridge)@.add_receivers(receivers@, call.signers()) {
            Ok(next) => r == Ok::<(), BridgeError>(()) && final(bridge)@ == next,
            Err(e) => r == Err::<(), BridgeError>(e) && final(bridge)@ == old(bridge)@,
        },
{
    if !call.check_witness(&bridge.admin) {
        return Err(BridgeError::Unauthorized);
    }
    let n = receivers.len();
    let mut i: usize = 0;
    assert(receivers@.skip(0) =~= receivers@);
    while i < n
        invariant
            i <= n,
            n == receivers.len(),
            bridge.wf(),
            bridge.admin == old(bridge).admin,
            bridge.pending_admin == old(bridge).pending_admin,
            bridge.entries == old(bridge).entries,
            bridge.escrow == old(bridge).escrow,
            with_new_members(bridge.receivers@, receivers@.skip(i as int)) == with_new_members(
                old(bridge).receivers@,
                receivers@,
            ),
        decreases n - i,
    {
        let item = receivers[i];
        proof {
            let rest = receivers@.skip(i as int);
            assert(rest[0] == item);
            assert(rest.skip(1) =~= receivers@.skip(i + 1));
            lemma_with_new_members(bridge.receivers@, seq![item]);
            assert(seq![item].skip(1) =~= Seq::<Address>::empty());
        }
        if !holds(&bridge.receivers, &item) {
            bridge.receivers.push(item);
        }
        i += 1;
    }
    assert(receivers@.skip(n as int) =~= Seq::<Address>::empty());
    Ok(())
}

/// Takes `receiver` out of the pool; the others keep their order. The admin
/// must have witnessed the call, and `receiver` must be in the pool.
pub fn del_oep5_neovm_receiver(bridge: &mut Bridge, call: &Invocation, receiver: &Address) -> (r:
    Result<(), BridgeError>)
    requires
        old(bridge).wf(),
    ensures
        final(bridge).wf(),
        match old(bridge)@.del_receiver(*receiver, call.signers()) {
            Ok(next) => r == Ok::<(), BridgeError>(()) && final(bridge)@ == next,
            Err(e) => r == Err::<(), BridgeError>(e) && final(bridge)@ == old(bridge)@,
        },
{
    if !call.check_witness(&bridge.admin) {
        return Err(BridgeError::Unauthorized);
    }
    let n = bridge.receivers.len();
    let mut i: usize = 0;
    while i < n
        invariant
            i <= n,
            n == bridge.receivers.len(),
            *bridge == *old(bridge),
            bridge.wf(),
            call.attests(bridge.admin),
            forall|j: int| 0 <= j < i ==> bridge.receivers@[j] != *receiver,
        decreases n - i,
    {
        if bridge.receivers[i] == *receiver {
            proof {
                let pool = bridge.receivers@;
                assert(pool[i as int] == *receiver);
                let k = pool.index_of(*receiver);
                assert(pool[k] == pool[i as int]);
                assert(k == i);
                let after = pool.remove(i as int);
                assert forall|a: int, b: int|
                    0 <= a < after.len() && 0 <= b < after.len() && a != b implies after[a]
                    != after[b] by {
                    let a0 = if a < i { a } else { a + 1 };
                    let b0 = if b < i { b } else { b + 1 };
                    assert(after[a] == pool[a0]);
                    assert(after[b] == pool[b0]);
                }
            }
            bridge.receivers.remove(i);
            return Ok(());
        }
        i += 1;
    }
    Err(BridgeError::ReceiverNotFound)
}

/// The ids ever escrowed on the native contract `oep8`, oldest first.
pub fn get_oep8_ids(bridge: &Bridge, oep8: &Address) -> (ids: Vec<u128>)
    requires
        bridge.wf(),
    ensures
        ids@ == bridge@.ids_of(*oep8),
{
    match bridge.find_set(oep8) {
        Some(i) => slice_to_vec(bridge.escrow[i].ids.as_slice()),
        None => Vec::new(),
    }
}

/// Whether `ids` holds `id`.
fn holds_id(ids: &Vec<u128>, id: u128) -> (r: bool)
    ensures
        r == ids@.contains(id),
{
    let n = ids.len();
    let mut i: usize = 0;
    while i < n
        invariant
            i <= n,
            n == ids.len(),
            forall|j: int| 0 <= j < i ==> ids@[j] != id,
        decreases n - i,
    {
        if ids[i] == id {
            assert(ids@[i as int] == id);
            return true;
        }
        i += 1;
    }
    false
}

/// Notes that `id` has been escrowed on the native contract `oep8`. Nothing
/// changes if it was noted before.
pub fn push_oep8_id(bridge: &mut Bridge, id: u128, oep8: &Address)
    requires
        old(bridge).wf(),
    ensures
        final(bridge).wf(),
        final(bridge)@ == old(bridge)@.record_escrow_id(*oep8, id),
{
    match bridge.find_set(oep8) {
        Some(i) => {
            if !holds_id(&bridge.escrow[i].ids, id) {
                let mut ids = slice_to_vec(bridge.escrow[i].ids.as_slice());
                ids.push(id);
                let set = EscrowSet { contract: *oep8, ids };
                proof {
                    let before = bridge.escrow@[i as int].ids@;
                    assert(set.ids@ == before.push(id));
                    assert forall|a: int, b: int|
                        0 <= a < set.ids@.len() && 0 <= b < set.ids@.len() && a
                        != b implies set.ids@[a] != set.ids@[b] by {
                        if a < before.len() {
                            assert(before.contains(set.ids@[a]));
                        }
                        if b < before.len() {
                            assert(before.contains(set.ids@[b]));
                        }
                    }
                    lemma_update_set(bridge.escrow@, i as int, set);
                }
                bridge.escrow[i] = set;
            }
        },
        None => {
            let mut ids: Vec<u128> = Vec::new();
            ids.push(id);
            let set = EscrowSet { contract: *oep8, ids };
            proof {
                assert(set.ids@ =~= Seq::<u128>::empty().push(id));
                lemma_push_set(bridge.escrow@, set);
            }
            bridge.escrow.push(set);
        },
    }
}

/// The number of receivers in the pool.
pub fn receiver_count(bridge: &Bridge) -> (n: usize)
    ensures
        n == bridge@.receivers.len(),
{
    bridge.receivers.len()
}

/// The receiver that was added to the pool as the `index`-th, counted from zero.
pub fn receiver_at(bridge: &Bridge, index: usize) -> (r: Option<Address>)
    ensures
        r == if index < bridge@.receivers.len() {
            Some(bridge@.receivers[index as int])
        } else {
            None
        },
{
    if index < bridge.receivers.len() {
        Some(bridge.receivers[index])
    } else {
        None
    }
}

/// The ids that the bridge holds in escrow for one multi-id pair.
#[derive(Clone, Debug, PartialEq, Eq)]
pub struct Holding {
    /// The name of the pair.
    pub name: Vec<u8>,
    /// The native contract of the pair.
    pub contract: Address,
    /// The ids ever escrowed on that contract, oldest first.
    pub ids: Vec<u128>,
}

/// The holdings stand in the dictionary order of their names.
pub open spec fn sorted_by_name(plan: Seq<Holding>) -> bool {
    forall|a: int, b: int|
        0 <= a < b < plan.len() ==> lex_lt((#[trigger] plan[a]).name@, (#[trigger] plan[b]).name@)
}

/// Whether `holding` is what `bridge` holds for a multi-id pair: the pair is
/// registered under the holding's name, and the ids are those of the pair's
/// native contract, of which there is at least one.
pub open spec fn held_by(bridge: BridgeView, holding: Holding) -> bool {
    &&& bridge.pairs.contains_key((Category::MultiId, holding.name@))
    &&& bridge.pairs[(Category::MultiId, holding.name@)].oep == holding.contract
    &&& bridge.ids_of(holding.contract) == holding.ids@
    &&& holding.ids@.len() > 0
}

/// Whether `plan` has a holding under `name`.
pub open spec fn names_holding(plan: Seq<Holding>, name: Seq<u8>) -> bool {
    exists|k: int| 0 <= k < plan.len() && (#[trigger] plan[k]).name@ == name
}

/// Whether `plan` is the escrow of `bridge`: one holding for every multi-id
/// pair on whose native contract an id was ever escrowed, no other holding,
/// in the dictionary order of the pairs' names.
pub open spec fn snapshot_of(bridge: BridgeView, plan: Seq<Holding>) -> bool {
    &&& sorted_by_name(plan)
    &&& forall|k: int| 0 <= k < plan.len() ==> held_by(bridge, #[trigger] plan[k])
    &&& forall|name: Seq<u8>|
        bridge.pairs.contains_key((Category::MultiId, name)) && bridge.ids_of(
            bridge.pairs[(Category::MultiId, name)].oep,
        ).len() > 0 ==> #[trigger] names_holding(plan, name)
}

/// Whether one of the first `upto` entries has the name `name`.
pub open spec fn filed_before(entries: Seq<PairEntry>, upto: int, name: Seq<u8>) -> bool {
    exists|j: int| 0 <= j < upto && j < entries.len() && (#[trigger] entries[j]).name@ == name
}

/// Puts `holding` where its name belongs.
fn insert_sorted(plan: &mut Vec<Holding>, holding: Holding)
    requires
        sorted_by_name(old(plan)@),
        !names_holding(old(plan)@, holding.name@),
    ensures
        sorted_by_name(final(plan)@),
        exists|p: int|
            0 <= p <= old(plan)@.len() && final(plan)@ == #[trigger] old(plan)@.insert(p, holding),
{
    let n = plan.len();
    let mut p: usize = 0;
    while p < n && name_lt(plan[p].name.as_slice(), holding.name.as_slice())
        invariant
            p <= n,
            n == plan.len(),
            *plan == *old(plan),
            forall|j: int| 0 <= j < p ==> lex_lt((#[trigger] plan@[j]).name@, holding.name@),
        decreases n - p,
    {
        p += 1;
    }
    proof {
        let before = plan@;
        let after = before.insert(p as int, holding);
        assert forall|a: int, b: int| 0 <= a < b < after.len() implies lex_lt(
            (#[trigger] after[a]).name@,
            (#[trigger] after[b]).name@,
        ) by {
            if p < n {
                assert(before[p as int].name@ != holding.name@);
                lemma_lex_total(before[p as int].name@, holding.name@);
            }
            if a == p {
                // after[b] is before[b - 1] with b - 1 >= p
                assert(after[b] == before[b - 1]);
                if b - 1 > p {
                    lemma_lex_transitive(
                        holding.name@,
                        before[p as int].name@,
                        before[b - 1].name@,
                    );
                }
            } else if b == p {
                assert(after[a] == before[a]);
            } else if a < p && b < p {
                assert(after[a] == before[a] && after[b] == before[b]);
            } else if a < p && b > p {
                assert(after[a] == before[a] && after[b] == before[b - 1]);
            } else {
                assert(after[a] == before[a - 1] && after[b] == before[b - 1]);
            }
        }
    }
    plan.insert(p, holding);
}

/// What the bridge holds in escrow: one holding for every multi-id pair on
/// whose native contract an id was ever escrowed, in the dictionary order of
/// the pairs' names.
pub fn escrow_snapshot(bridge: &Bridge) -> (plan: Vec<Holding>)
    requires
        bridge.wf(),
    ensures
        snapshot_of(bridge@, plan@),
{
    let n = bridge.entries.len();
    let mut plan: Vec<Holding> = Vec::new();
    let mut i: usize = 0;
    while i < n
        invariant
            i <= n,
            n == bridge.entries.len(),
            bridge.wf(),
            sorted_by_name(plan@),
            forall|k: int| 0 <= k < plan@.len() ==> held_by(bridge@, #[trigger] plan@[k]),
            forall|k: int|
                0 <= k < plan@.len() ==> filed_before(
                    bridge.entries@,
                    i as int,
                    (#[trigger] plan@[k]).name@,
                ),
            forall|j: int|
                0 <= j < i && (#[trigger] bridge.entries@[j]).category == Category::MultiId
                    && bridge@.ids_of(bridge.entries@[j].pair.oep).len() > 0 ==> names_holding(
                    plan@,
                    bridge.entries@[j].name@,
                ),
        decreases n - i,
    {
        let is_multi = match bridge.entries[i].category {
            Category::MultiId => true,
            Category::SingleId => false,
        };
        if is_multi {
            let contract = bridge.entries[i].pair.oep;
            match bridge.find_set(&contract) {
                Some(k) => {
                    let holding = Holding {
                        name: slice_to_vec(bridge.entries[i].name.as_slice()),
                        contract,
                        ids: slice_to_vec(bridge.escrow[k].ids.as_slice()),
                    };
                    let ghost before = plan@;
                    proof {
                        bridge.lemma_view_wf();
                        lemma_entry_found(bridge.entries@, i as int);
                        assert(held_by(bridge@, holding));
                        if names_holding(before, holding.name@) {
                            let k2 = choose|k2: int|
                                0 <= k2 < before.len() && (#[trigger] before[k2]).name@
                                    == holding.name@;
                            assert(filed_before(bridge.entries@, i as int, before[k2].name@));
                            let j = choose|j: int|
                                0 <= j < i && j < bridge.entries@.len()
                                    && (#[trigger] bridge.entries@[j]).name@ == before[k2].name@;
                            assert(bridge.entries@[j].name@ == bridge.entries@[i as int].name@);
                        }
                    }
                    insert_sorted(&mut plan, holding);
                    proof {
                        let p = choose|p: int|
                            0 <= p <= before.len() && plan@ == #[trigger] before.insert(
                                p,
                                holding,
                            );
                        assert forall|k: int| 0 <= k < plan@.len() implies held_by(
                            bridge@,
                            #[trigger] plan@[k],
                        ) && filed_before(bridge.entries@, i + 1, plan@[k].name@) by {
                            if k < p {
                                assert(plan@[k] == before[k]);
                                assert(filed_before(bridge.entries@, i as int, before[k].name@));
                            } else if k == p {
                                assert(plan@[k] == holding);
                                assert(bridge.entries@[i as int].name@ == plan@[k].name@);
                            } else {
                                assert(plan@[k] == before[k - 1]);
                                assert(filed_before(
                                    bridge.entries@,
                                    i as int,
                                    before[k - 1].name@,
                                ));
                            }
                        }
                        assert forall|j: int|
                            0 <= j < i + 1 && (#[trigger] bridge.entries@[j]).category
                                == Category::MultiId && bridge@.ids_of(
                                bridge.entries@[j].pair.oep,
                            ).len() > 0 implies names_holding(plan@, bridge.entries@[j].name@) by {
                            if j < i {
                                let k0 = choose|k0: int|
                                    0 <= k0 < before.len() && (#[trigger] before[k0]).name@
                                        == bridge.entries@[j].name@;
                                let k1 = if k0 < p {
                                    k0
                                } else {
                                    k0 + 1
                                };
                                assert(plan@[k1] == before[k0]);
                            } else {
                                assert(plan@[p] == holding);
                            }
                        }
                    }
                },
                None => {},
            }
        }
        i += 1;
    }
    proof {
        bridge.lemma_view_wf();
        assert forall|name: Seq<u8>|
            bridge@.pairs.contains_key((Category::MultiId, name)) && bridge@.ids_of(
                bridge@.pairs[(Category::MultiId, name)].oep,
            ).len() > 0 implies #[trigger] names_holding(plan@, name) by {
            let j = entry_at(bridge.entries@, Category::MultiId, name);
            lemma_entry_found(bridge.entries@, j);
        }
    }
    plan
}

/// Whether no address occurs twice in `list`.
fn all_different(list: &Vec<Address>) -> (r: bool)
    ensures
        r == list@.no_duplicates(),
{
    let n = list.len();
    let mut i: usize = 0;
    while i < n
        invariant
            i <= n,
            n == list.len(),
            forall|a: int, b: int| 0 <= a < b < i ==> list@[a] != list@[b],
        decreases n - i,
    {
        let mut j: usize = 0;
        while j < i
            invariant
                j <= i,
                i < n,
                n == list.len(),
                forall|a: int| 0 <= a < j ==> list@[a] != list@[i as int],
            decreases i - j,
        {
            if list[j] == list[i] {
                return false;
            }
            j += 1;
        }
        i += 1;
    }
    true
}

/// Whether no id occurs twice in `ids`.
fn all_different_ids(ids: &Vec<u128>) -> (r: bool)
    ensures
        r == ids@.no_duplicates(),
{
    let n = ids.len();
    let mut i: usize = 0;
    while i < n
        invariant
            i <= n,
            n == ids.len(),
            forall|a: int, b: int| 0 <= a < b < i ==> ids@[a] != ids@[b],
        decreases n - i,
    {
        let mut j: usize = 0;
        while j < i
            invariant
                j <= i,
                i < n,
                n == ids.len(),
                forall|a: int| 0 <= a < j ==> ids@[a] != ids@[i as int],
            decreases i - j,
        {
            if ids[j] == ids[i] {
                return false;
            }
            j += 1;
        }
        i += 1;
    }
    true
}

/// Whether no two of `entries` share a name.
fn names_differ(entries: &Vec<PairEntry>) -> (r: bool)
    ensures
        r == distinct_names(entries@),
{
    let n = entries.len();
    let mut i: usize = 0;
    while i < n
        invariant
            i <= n,
            n == entries.len(),
            forall|a: int, b: int|
                0 <= a < b < i ==> (#[trigger] entries@[a]).name@ != (#[trigger] entries@[b]).name@,
        decreases n - i,
    {
        let mut j: usize = 0;
        while j < i
            invariant
                j <= i,
                i < n,
                n == entries.len(),
                forall|a: int|
                    0 <= a < j ==> (#[trigger] entries@[a]).name@ != entries@[i as int].name@,
            decreases i - j,
        {
            if same_bytes(entries[j].name.as_slice(), entries[i].name.as_slice()) {
                assert(entries@[j as int].name@ == entries@[i as int].name@);
                return false;
            }
            j += 1;
        }
        i += 1;
    }
    assert forall|a: int, b: int| 0 <= a < n && 0 <= b < n && a != b implies (
    #[trigger] entries@[a]).name@ != (#[trigger] entries@[b]).name@ by {
        if a < b {
        } else {
            assert(entries@[b].name@ != entries@[a].name@);
        }
    }
    true
}

/// Whether `escrow` keeps one set for each contract, with at least one id and none twice.
fn escrow_is_sound(escrow: &Vec<EscrowSet>) -> (r: bool)
    ensures
        r == sound_escrow(escrow@),
{
    let n = escrow.len();
    let mut i: usize = 0;
    while i < n
        invariant
            i <= n,
            n == escrow.len(),
            forall|a: int, b: int|
                0 <= a < b < i ==> (#[trigger] escrow@[a]).contract != (
                #[trigger] escrow@[b]).contract,
            forall|a: int|
                0 <= a < i ==> (#[trigger] escrow@[a]).ids@.len() > 0
                    && escrow@[a].ids@.no_duplicates(),
        decreases n - i,
    {
        if escrow[i].ids.len() == 0 || !all_different_ids(&escrow[i].ids) {
            assert(!(escrow@[i as int].ids@.len() > 0 && escrow@[i as int].ids@.no_duplicates()));
            return false;
        }
        let mut j: usize = 0;
        while j < i
            invariant
                j <= i,
                i < n,
                n == escrow.len(),
                forall|a: int|
                    0 <= a < j ==> (#[trigger] escrow@[a]).contract != escrow@[i as int].contract,
            decreases i - j,
        {
            if escrow[j].contract == escrow[i].contract {
                assert(escrow@[j as int].contract == escrow@[i as int].contract);
                return false;
            }
            j += 1;
        }
        i += 1;
    }
    assert forall|a: int, b: int| 0 <= a < n && 0 <= b < n && a != b implies (
    #[trigger] escrow@[a]).contract != (#[trigger] escrow@[b]).contract by {
        if a < b {
        } else {
            assert(escrow@[b].contract != escrow@[a].contract);
        }
    }
    true
}

/// The state that the parts of a stored bridge stand for.
pub open spec fn state_of(
    admin: Address,
    pending_admin: Address,
    entries: Seq<PairEntry>,
    receivers: Seq<Address>,
    escrow: Seq<EscrowSet>,
) -> BridgeView {
    BridgeView {
        admin,
        pending_admin,
        names: entry_names(entries),
        pairs: pair_map(entries),
        receivers,
        escrow_ids: escrow_map(escrow),
    }
}

/// Puts a bridge together from its stored parts. The parts are refused if
/// two pairs share a name, a receiver or an escrow contract occurs twice, or
/// an escrow set is empty or holds an id twice.
pub fn restore(
    admin: Address,
    pending_admin: Address,
    entries: Vec<PairEntry>,
    receivers: Vec<Address>,
    escrow: Vec<EscrowSet>,
) -> (r: Option<Bridge>)
    ensures
        r.is_some() == (distinct_names(entries@) && receivers@.no_duplicates() && sound_escrow(
            escrow@,
        )),
        r matches Some(bridge) ==> bridge.wf() && bridge@ == state_of(
            admin,
            pending_admin,
            entries@,
            receivers@,
            escrow@,
        ),
{
    if !names_differ(&entries) || !all_different(&receivers) || !escrow_is_sound(&escrow) {
        return None;
    }
    Some(Bridge { admin, pending_admin, entries, receivers, escrow })
}

/// Whether one of the first `upto` entries is a multi-id pair on `contract`.
pub open spec fn escrows_on(entries: Seq<PairEntry>, upto: int, contract: Address) -> bool {
    exists|j: int|
        0 <= j < upto && j < entries.len() && (#[trigger] entries[j]).category == Category::MultiId
            && entries[j].pair.oep == contract
}

/// The native contracts on which `entries` may hold escrow: the contract of
/// every multi-id pair, each once, in the order of the entries.
pub fn escrow_contracts(entries: &Vec<PairEntry>) -> (contracts: Vec<Address>)
    ensures
        contracts@.no_duplicates(),
        forall|c: Address| contracts@.contains(c) <==> escrows_on(entries@, entries@.len() as int, c),
{
    let n = entries.len();
    let mut contracts: Vec<Address> = Vec::new();
    let mut i: usize = 0;
    while i < n
        invariant
            i <= n,
            n == entries.len(),
            contracts@.no_duplicates(),
            forall|c: Address| contracts@.contains(c) <==> escrows_on(entries@, i as int, c),
        decreases n - i,
    {
        let is_multi = match entries[i].category {
            Category::MultiId => true,
            Category::SingleId => false,
        };
        let contract = entries[i].pair.oep;
        let ghost before = contracts@;
        if is_multi && !holds(&contracts, &contract) {
            contracts.push(contract);
            proof {
                assert forall|a: int, b: int|
                    0 <= a < contracts@.len() && 0 <= b < contracts@.len() && a
                    != b implies contracts@[a] != contracts@[b] by {
                    if a < before.len() {
                        assert(before.contains(contracts@[a]));
                    }
                    if b < before.len() {
                        assert(before.contains(contracts@[b]));
                    }
                }
            }
        }
        proof {
            assert forall|c: Address| contracts@.contains(c) <==> escrows_on(
                entries@,
                i + 1,
                c,
            ) by {
                if contracts@.contains(c) {
                    let k = choose|k: int| 0 <= k < contracts@.len() && contracts@[k] == c;
                    if k < before.len() {
                        assert(before.contains(c));
                        let j = choose|j: int|
                            0 <= j < i && j < entries@.len() && (#[trigger] entries@[j]).category
                                == Category::MultiId && entries@[j].pair.oep == c;
                        assert(entries@[j].category == Category::MultiId);
                    } else {
                        assert(entries@[i as int].category == Category::MultiId);
                    }
                }
                if escrows_on(entries@, i + 1, c) {
                    let j = choose|j: int|
                        0 <= j < i + 1 && j < entries@.len() && (#[trigger] entries@[j]).category
                            == Category::MultiId && entries@[j].pair.oep == c;
                    if j < i {
                        assert(escrows_on(entries@, i as int, c)) by {
                            assert(0 <= j < i && j < entries@.len() && entries@[j].category
                                == Category::MultiId && entries@[j].pair.oep == c);
                        }
                        assert(before.contains(c));
                        let k = choose|k: int| 0 <= k < before.len() && before[k] == c;
                        assert(contracts@[k] == c);
                    } else if before.contains(c) {
                        let k = choose|k: int| 0 <= k < before.len() && before[k] == c;
                        assert(contracts@[k] == c);
                    } else {
                        assert(contracts@[before.len() as int] == c);
                    }
                }
            }
        }
        i += 1;
    }
    contracts
}

} // verus!
