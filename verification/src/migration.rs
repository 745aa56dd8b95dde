use vstd::prelude::*;
use crate::address::Address;
use crate::bridge::{check_admin, escrow_snapshot, snapshot_of, Bridge, Holding};
use crate::calls::{
    account_in, balance_of_oep8, call_neovm_address, call_neovm_bool, call_neovm_num,
    confirmation_in, multi_balance_query, multi_transfer_order, number_in, transfer_oep8, HostCall,
    Reply,
};
use crate::error::BridgeError;
use crate::invocation::Invocation;

verus! {

/// Where a migration stands: which answer it waits for.
#[derive(Clone, Copy, Debug, PartialEq, Eq)]
pub enum MigrationStage {
    /// Waits for the host to relocate the code and to name the new address.
    Relocate,
    /// Waits for the bridge's own balance of the `id`-th id of the `set`-th holding.
    Balance { new_addr: Address, set: usize, id: usize },
    /// Waits for the confirmation that `balance` of that id has gone to the new address.
    Transfer { new_addr: Address, set: usize, id: usize, balance: u128 },
    /// The migration has returned `true`.
    Done,
}

/// The relocation of the bridge, in progress: the escrow as it was when the
/// migration began, and how far the escrow has been carried over.
#[derive(Debug)]
pub struct Migration {
    /// The address that the bridge leaves.
    pub this: Address,
    /// What the bridge held in escrow when the migration began.
    pub plan: Vec<Holding>,
    pub stage: MigrationStage,
}

impl Migration {
    /// Every holding of the plan has an id, and the stage points at an id of the plan.
    pub open spec fn wf(self) -> bool {
        &&& forall|k: int| 0 <= k < self.plan@.len() ==> (#[trigger] self.plan@[k]).ids@.len() > 0
        &&& match self.stage {
            MigrationStage::Balance { new_addr, set, id } => set < self.plan@.len()
                && id < self.plan@[set as int].ids@.len(),
            MigrationStage::Transfer { new_addr, set, id, balance } => set < self.plan@.len()
                && id < self.plan@[set as int].ids@.len(),
            _ => true,
        }
    }

    /// The same migration at another stage.
    pub open spec fn at(self, stage: MigrationStage) -> Migration {
        Migration { stage, ..self }
    }

    /// The stage at which the first id of the plan is looked at; done, if the plan is empty.
    pub open spec fn first(self, new_addr: Address) -> MigrationStage {
        if self.plan@.len() > 0 {
            MigrationStage::Balance { new_addr, set: 0, id: 0 }
        } else {
            MigrationStage::Done
        }
    }

    /// The stage at which the id after the `id`-th of the `set`-th holding is
    /// looked at: the next id of the holding, else the first id of the next
    /// holding; done, if that was the last.
    pub open spec fn following(self, new_addr: Address, set: usize, id: usize) -> MigrationStage {
        if id + 1 < self.plan@[set as int].ids@.len() {
            MigrationStage::Balance { new_addr, set, id: (id + 1) as usize }
        } else if set + 1 < self.plan@.len() {
            MigrationStage::Balance { new_addr, set: (set + 1) as usize, id: 0 }
        } else {
            MigrationStage::Done
        }
    }

    /// The call whose answer the migration waits for; none once it is done.
    pub open spec fn pending(self) -> Option<HostCall> {
        match self.stage {
            MigrationStage::Relocate => Some(HostCall::Relocate),
            MigrationStage::Balance { new_addr, set, id } => Some(
                multi_balance_query(
                    self.plan@[set as int].contract,
                    self.this,
                    self.plan@[set as int].ids@[id as int],
                ),
            ),
            MigrationStage::Transfer { new_addr, set, id, balance } => Some(
                multi_transfer_order(
                    self.plan@[set as int].contract,
                    self.this,
                    new_addr,
                    self.plan@[set as int].ids@[id as int],
                    balance,
                ),
            ),
            MigrationStage::Done => None,
        }
    }

    /// The stage at which the migration stands once the pending call has been
    /// answered with `reply`, or why it is aborted. A relocation to the zero
    /// address has failed. An id of which the bridge holds nothing is passed
    /// over; of any other id the whole balance goes to the new address.
    pub open spec fn stage_after(self, reply: Reply) -> Result<MigrationStage, BridgeError> {
        match self.stage {
            MigrationStage::Relocate => match account_in(reply) {
                Err(e) => Err(e),
                Ok(new_addr) => if new_addr.is_zero() {
                    Err(BridgeError::MigrateFailed)
                } else {
                    Ok(self.first(new_addr))
                },
            },
            MigrationStage::Balance { new_addr, set, id } => match number_in(reply) {
                Err(e) => Err(e),
                Ok(balance) => if balance == 0 {
                    Ok(self.following(new_addr, set, id))
                } else {
                    Ok(MigrationStage::Transfer { new_addr, set, id, balance })
                },
            },
            MigrationStage::Transfer { new_addr, set, id, balance } => match confirmation_in(
                reply,
            ) {
                Err(e) => Err(e),
                Ok(_) => Ok(self.following(new_addr, set, id)),
            },
            MigrationStage::Done => Err(BridgeError::UnexpectedReply),
        }
    }

    /// Whether the migration has returned.
    pub fn is_done(&self) -> (r: bool)
        ensures
            r == (self.stage is Done),
    {
        match self.stage {
            MigrationStage::Done => true,
            _ => false,
        }
    }

    /// The call that the host is to make next; none once the migration is done.
    pub fn next_call(&self) -> (r: Option<HostCall>)
        requires
            self.wf(),
        ensures
            r == self.pending(),
    {
        match self.stage {
            MigrationStage::Relocate => Some(HostCall::Relocate),
            MigrationStage::Balance { new_addr, set, id } => Some(
                balance_of_oep8(&self.plan[set].contract, &self.this, self.plan[set].ids[id]),
            ),
            MigrationStage::Transfer { new_addr, set, id, balance } => Some(
                transfer_oep8(
                    &self.plan[set].contract,
                    &self.this,
                    &new_addr,
                    self.plan[set].ids[id],
                    balance,
                ),
            ),
            MigrationStage::Done => None,
        }
    }

    /// The stage at which the id after the `id`-th of the `set`-th holding is looked at.
    fn advance(&self, new_addr: Address, set: usize, id: usize) -> (stage: MigrationStage)
        requires
            self.wf(),
            set < self.plan@.len(),
            id < self.plan@[set as int].ids@.len(),
        ensures
            stage == self.following(new_addr, set, id),
            self.at(stage).wf(),
    {
        let ids = self.plan[set].ids.len();
        let sets = self.plan.len();
        if id < ids - 1 {
            MigrationStage::Balance { new_addr, set, id: id + 1 }
        } else if set < sets - 1 {
            MigrationStage::Balance { new_addr, set: set + 1, id: 0 }
        } else {
            MigrationStage::Done
        }
    }

    /// Takes the answer to the pending call and moves the migration on, or aborts it.
    pub fn resume(self, reply: &Reply) -> (r: Result<Migration, BridgeError>)
        requires
            self.wf(),
        ensures
            match self.stage_after(*reply) {
                Ok(stage) => r == Ok::<Migration, BridgeError>(self.at(stage)) && self.at(
                    stage,
                ).wf(),
                Err(e) => r == Err::<Migration, BridgeError>(e),
            },
    {
        let stage = match self.stage {
            MigrationStage::Relocate => {
                let new_addr = call_neovm_address(reply)?;
                if new_addr.is_zero() {
                    return Err(BridgeError::MigrateFailed);
                }
                if self.plan.len() > 0 {
                    MigrationStage::Balance { new_addr, set: 0, id: 0 }
                } else {
                    MigrationStage::Done
                }
            },
            MigrationStage::Balance { new_addr, set, id } => {
                let balance = call_neovm_num(reply)?;
                if balance == 0 {
                    self.advance(new_addr, set, id)
                } else {
                    MigrationStage::Transfer { new_addr, set, id, balance }
                }
            },
            MigrationStage::Transfer { new_addr, set, id, balance } => {
                call_neovm_bool(reply)?;
                self.advance(new_addr, set, id)
            },
            MigrationStage::Done => {
                return Err(BridgeError::UnexpectedReply);
            },
        };
        Ok(Migration { stage, ..self })
    }
}

/// Starts the relocation of the bridge. The admin must have witnessed the
/// call. The migration carries over what the bridge holds in escrow for its
/// multi-id pairs at this moment, and nothing else.
pub fn migrate(bridge: &Bridge, call: &Invocation) -> (r: Result<Migration, BridgeError>)
    requires
        bridge.wf(),
    ensures
        match r {
            Ok(migration) => {
                &&& call.attests(bridge@.admin)
                &&& migration.wf()
                &&& migration.this == call.this
                &&& migration.stage == MigrationStage::Relocate
                &&& snapshot_of(bridge@, migration.plan@)
            },
            Err(e) => e == BridgeError::Unauthorized && !call.attests(bridge@.admin),
        },
{
    check_admin(bridge, call)?;
    let plan = escrow_snapshot(bridge);
    Ok(Migration { this: call.this, plan, stage: MigrationStage::Relocate })
}

} // verus!
