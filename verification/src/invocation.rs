use vstd::prelude::*;
use crate::address::Address;
use crate::events::{views_of, Event, EventView};

verus! {

/// What the host knows of the call that is being served: the contract's own
/// address, the addresses that witnessed the call, and the notifications that
/// the call has produced so far.
#[derive(Clone, Debug)]
pub struct Invocation {
    pub this: Address,
    pub witnesses: Vec<Address>,
    pub events: Vec<Event>,
}

/// Whether `who` is an address that can authorize anything, and one of `signers`.
pub open spec fn authorizes(signers: Set<Address>, who: Address) -> bool {
    !who.is_zero() && signers.contains(who)
}

impl Invocation {
    /// The addresses that witnessed the call.
    pub open spec fn signers(&self) -> Set<Address> {
        self.witnesses@.to_set()
    }

    /// Whether the call is attributable to `who`. The zero address stands for
    /// "nobody" and never authorizes a call.
    pub open spec fn attests(&self, who: Address) -> bool {
        authorizes(self.signers(), who)
    }

    /// The notifications produced so far, oldest first.
    pub open spec fn log(&self) -> Seq<EventView> {
        views_of(self.events@)
    }

    /// A call to the contract at `this` that nobody has witnessed.
    pub fn new(this: Address) -> (call: Invocation)
        ensures
            call.this == this,
            call.witnesses@ == Seq::<Address>::empty(),
            call.signers() == Set::<Address>::empty(),
            call.log() == Seq::<EventView>::empty(),
    {
        let call = Invocation { this, witnesses: Vec::new(), events: Vec::new() };
        assert(call.signers() =~= Set::<Address>::empty());
        assert(call.log() =~= Seq::<EventView>::empty());
        call
    }

    /// Records that `who` witnessed the call.
    pub fn add_witness(&mut self, who: Address)
        ensures
            final(self).this == old(self).this,
            final(self).events == old(self).events,
            final(self).witnesses@ == old(self).witnesses@.push(who),
            final(self).signers() == old(self).signers().insert(who),
    {
        self.witnesses.push(who);
        proof {
            let before = old(self).witnesses@;
            let after = self.witnesses@;
            assert forall|a: Address| after.to_set().contains(a) <==> before.to_set().insert(
                who,
            ).contains(a) by {
                if before.contains(a) {
                    let i = choose|i: int| 0 <= i < before.len() && before[i] == a;
                    assert(after[i] == a);
                }
                if a == who {
                    assert(after[before.len() as int] == a);
                }
            }
            assert(after.to_set() =~= before.to_set().insert(who));
        }
    }

    /// Whether the call is attributable to `who`.
    pub fn check_witness(&self, who: &Address) -> (r: bool)
        ensures
            r == self.attests(*who),
    {
        if who.is_zero() {
            return false;
        }
        let n = self.witnesses.len();
        let mut i: usize = 0;
        while i < n
            invariant
                i <= n,
                n == self.witnesses.len(),
                !who.is_zero(),
                forall|j: int| 0 <= j < i ==> self.witnesses@[j] != *who,
            decreases n - i,
        {
            if self.witnesses[i] == *who {
                assert(self.witnesses@[i as int] == *who);
                return true;
            }
            i += 1;
        }
        false
    }

    /// Appends `event` to the notifications of the call.
    pub fn notify(&mut self, event: Event)
        ensures
            final(self).this == old(self).this,
            final(self).witnesses == old(self).witnesses,
            final(self).events@ == old(self).events@.push(event),
            final(self).log() == old(self).log().push(event@),
    {
        self.events.push(event);
        assert(self.log() =~= old(self).log().push(event@));
    }
}

} // verus!
