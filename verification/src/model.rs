use vstd::prelude::*;
use crate::address::Address;
use crate::error::BridgeError;
use crate::invocation::authorizes;
use crate::pair::{Category, TokenPair};

verus! {

/// The state of one deployed bridge, as mathematics.
pub struct BridgeView {
    /// The current admin; the zero address until the bridge is initialized.
    pub admin: Address,
    /// The address nominated to become admin; the zero address when there is none.
    pub pending_admin: Address,
    /// Every registered pair name, of both families, oldest first.
    pub names: Seq<Seq<u8>>,
    /// The registered pairs, keyed by family and name.
    pub pairs: Map<(Category, Seq<u8>), TokenPair>,
    /// The receiver pool, in the order in which its members were added.
    pub receivers: Seq<Address>,
    /// For each native multi-id contract, the ids ever escrowed, oldest first.
    pub escrow_ids: Map<Address, Seq<u128>>,
}

/// `pool` followed by the members of `addrs` that it lacks, each once, in the
/// order in which they first occur.
pub open spec fn with_new_members(pool: Seq<Address>, addrs: Seq<Address>) -> Seq<Address>
    decreases addrs.len(),
{
    if addrs.len() == 0 {
        pool
    } else if pool.contains(addrs[0]) {
        with_new_members(pool, addrs.skip(1))
    } else {
        with_new_members(pool.push(addrs[0]), addrs.skip(1))
    }
}

impl BridgeView {
    /// The state of a bridge that has never been called.
    pub open spec fn fresh() -> BridgeView {
        BridgeView {
            admin: Address::zero(),
            pending_admin: Address::zero(),
            names: Seq::empty(),
            pairs: Map::empty(),
            receivers: Seq::empty(),
            escrow_ids: Map::empty(),
        }
    }

    /// What holds of every state that the operations can reach.
    pub open spec fn wf(self) -> bool {
        &&& self.names.no_duplicates()
        &&& forall|c: Category, n: Seq<u8>| #[trigger]
            self.pairs.contains_key((c, n)) ==> self.names.contains(n)
        &&& forall|n: Seq<u8>|
            self.names.contains(n) ==> (#[trigger] self.pairs.contains_key((Category::SingleId, n))
                != self.pairs.contains_key((Category::MultiId, n)))
        &&& self.receivers.no_duplicates()
        &&& forall|c: Address| #[trigger]
            self.escrow_ids.contains_key(c) ==> self.escrow_ids[c].len() > 0
                && self.escrow_ids[c].no_duplicates()
    }

    /// Whether the admin has been set.
    pub open spec fn initialized(self) -> bool {
        !self.admin.is_zero()
    }

    /// The pair registered under `name` in the family `category`, if any.
    pub open spec fn pair_in(self, category: Category, name: Seq<u8>) -> Option<TokenPair> {
        if self.pairs.contains_key((category, name)) {
            Some(self.pairs[(category, name)])
        } else {
            None
        }
    }

    /// The family under which `name` is found: the single-id family is tried
    /// first, then the multi-id family.
    pub open spec fn category_of(self, name: Seq<u8>) -> Option<Category> {
        if self.pairs.contains_key((Category::SingleId, name)) {
            Some(Category::SingleId)
        } else if self.pairs.contains_key((Category::MultiId, name)) {
            Some(Category::MultiId)
        } else {
            None
        }
    }

    /// The pair registered under `name`, whatever its family.
    pub open spec fn pair_by_name(self, name: Seq<u8>) -> Option<TokenPair> {
        match self.category_of(name) {
            Some(c) => Some(self.pairs[(c, name)]),
            None => None,
        }
    }

    /// The ids ever escrowed on the native contract `contract`, oldest first.
    pub open spec fn ids_of(self, contract: Address) -> Seq<u128> {
        if self.escrow_ids.contains_key(contract) {
            self.escrow_ids[contract]
        } else {
            Seq::empty()
        }
    }

    /// Sets the admin of a bridge that has none, on the admin's own authority.
    pub open spec fn initialize(self, admin: Address, signers: Set<Address>) -> Result<
        BridgeView,
        BridgeError,
    > {
        if self.initialized() {
            Err(BridgeError::AlreadyInitialized)
        } else if !authorizes(signers, admin) {
            Err(BridgeError::Unauthorized)
        } else {
            Ok(BridgeView { admin, ..self })
        }
    }

    /// Nominates `new_admin`, on the admin's authority.
    pub open spec fn set_pending_admin(self, new_admin: Address, signers: Set<Address>) -> Result<
        BridgeView,
        BridgeError,
    > {
        if new_admin.is_zero() {
            Err(BridgeError::ZeroAdmin)
        } else if !authorizes(signers, self.admin) {
            Err(BridgeError::Unauthorized)
        } else {
            Ok(BridgeView { pending_admin: new_admin, ..self })
        }
    }

    /// Makes the nominee the admin, on the nominee's own authority.
    pub open spec fn accept_admin(self, signers: Set<Address>) -> Result<BridgeView, BridgeError> {
        if !authorizes(signers, self.pending_admin) {
            Err(BridgeError::Unauthorized)
        } else {
            Ok(BridgeView { admin: self.pending_admin, pending_admin: Address::zero(), ..self })
        }
    }

    /// Registers a pair under a name that neither family uses yet, on the
    /// admin's authority. The admin becomes the pair's owner.
    pub open spec fn register(
        self,
        category: Category,
        name: Seq<u8>,
        oep: Address,
        erc: Address,
        is_neovm: bool,
        signers: Set<Address>,
    ) -> Result<BridgeView, BridgeError> {
        if !authorizes(signers, self.admin) {
            Err(BridgeError::Unauthorized)
        } else if oep.is_zero() {
            Err(BridgeError::ZeroNativeAddress)
        } else if erc.is_zero() {
            Err(BridgeError::ZeroForeignAddress)
        } else if self.names.contains(name) {
            Err(BridgeError::PairAlreadyRegistered)
        } else {
            Ok(
                BridgeView {
                    names: self.names.push(name),
                    pairs: self.pairs.insert(
                        (category, name),
                        TokenPair { owner: self.admin, erc, oep, is_oep5_neovm: is_neovm },
                    ),
                    ..self
                },
            )
        }
    }

    /// Hands the pair `name` to `new_owner`, on the authority of the admin or
    /// of the pair's owner.
    pub open spec fn transfer_owner(
        self,
        name: Seq<u8>,
        new_owner: Address,
        signers: Set<Address>,
    ) -> Result<BridgeView, BridgeError> {
        match self.category_of(name) {
            None => Err(BridgeError::PairNotFound),
            Some(c) => {
                let pair = self.pairs[(c, name)];
                if !authorizes(signers, self.admin) && !authorizes(signers, pair.owner) {
                    Err(BridgeError::Unauthorized)
                } else {
                    Ok(
                        BridgeView {
                            pairs: self.pairs.insert(
                                (c, name),
                                TokenPair { owner: new_owner, ..pair },
                            ),
                            ..self
                        },
                    )
                }
            },
        }
    }

    /// Adds to the pool the members of `addrs` that it lacks, on the admin's authority.
    pub open spec fn add_receivers(self, addrs: Seq<Address>, signers: Set<Address>) -> Result<
        BridgeView,
        BridgeError,
    > {
        if !authorizes(signers, self.admin) {
            Err(BridgeError::Unauthorized)
        } else {
            Ok(BridgeView { receivers: with_new_members(self.receivers, addrs), ..self })
        }
    }

    /// Takes `receiver` out of the pool, on the admin's authority.
    pub open spec fn del_receiver(self, receiver: Address, signers: Set<Address>) -> Result<
        BridgeView,
        BridgeError,
    > {
        if !authorizes(signers, self.admin) {
            Err(BridgeError::Unauthorized)
        } else if !self.receivers.contains(receiver) {
            Err(BridgeError::ReceiverNotFound)
        } else {
            Ok(
                BridgeView {
                    receivers: self.receivers.remove(self.receivers.index_of(receiver)),
                    ..self
                },
            )
        }
    }

    /// Notes that `id` has been escrowed on `contract`; nothing changes if it
    /// was noted before.
    pub open spec fn record_escrow_id(self, contract: Address, id: u128) -> BridgeView {
        if self.ids_of(contract).contains(id) {
            self
        } else {
            BridgeView {
                escrow_ids: self.escrow_ids.insert(contract, self.ids_of(contract).push(id)),
                ..self
            }
        }
    }
}

/// What `with_new_members` keeps and what it adds: the pool stays in front,
/// nothing occurs twice, and the members are those of the pool and of `addrs`.
pub proof fn lemma_with_new_members(pool: Seq<Address>, addrs: Seq<Address>)
    requires
        pool.no_duplicates(),
    ensures
        with_new_members(pool, addrs).no_duplicates(),
        pool.len() <= with_new_members(pool, addrs).len(),
        with_new_members(pool, addrs).subrange(0, pool.len() as int) == pool,
        forall|a: Address|
            with_new_members(pool, addrs).contains(a) <==> (pool.contains(a) || addrs.contains(
                a,
            )),
    decreases addrs.len(),
{
    let out = with_new_members(pool, addrs);
    if addrs.len() == 0 {
        assert(out.subrange(0, pool.len() as int) =~= pool);
    } else {
        let head = addrs[0];
        let rest = addrs.skip(1);
        let next = if pool.contains(head) {
            pool
        } else {
            pool.push(head)
        };
        assert(next.no_duplicates()) by {
            if !pool.contains(head) {
                assert forall|i: int, j: int|
                    0 <= i < next.len() && 0 <= j < next.len() && i != j implies next[i]
                    != next[j] by {
                    if i < pool.len() {
                        assert(pool.contains(next[i]));
                    }
                    if j < pool.len() {
                        assert(pool.contains(next[j]));
                    }
                }
            }
        }
        lemma_with_new_members(next, rest);
        assert(out == with_new_members(next, rest));
        assert(out.subrange(0, pool.len() as int) =~= pool) by {
            assert(out.subrange(0, next.len() as int) == next);
            assert forall|i: int| 0 <= i < pool.len() implies out[i] == pool[i] by {
                assert(out.subrange(0, next.len() as int)[i] == out[i]);
            }
        }
        assert forall|a: Address|
            out.contains(a) <==> (pool.contains(a) || addrs.contains(a)) by {
            if next.contains(a) && !pool.contains(a) {
                let k = choose|k: int| 0 <= k < next.len() && next[k] == a;
                assert(k == pool.len());
                assert(addrs[0] == a);
            }
            if pool.contains(a) {
                let k = choose|k: int| 0 <= k < pool.len() && pool[k] == a;
                assert(next[k] == a);
            }
            if rest.contains(a) {
                let k = choose|k: int| 0 <= k < rest.len() && rest[k] == a;
                assert(addrs[k + 1] == a);
            }
            if addrs.contains(a) {
                let k = choose|k: int| 0 <= k < addrs.len() && addrs[k] == a;
                if k == 0 {
                    if !pool.contains(head) {
                        assert(next[pool.len() as int] == a);
                    }
                } else {
                    assert(rest[k - 1] == a);
                }
            }
        }
    }
}

} // verus!
