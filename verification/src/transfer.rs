use vstd::prelude::*;
use crate::address::Address;
use crate::bridge::{get_token_pair_in, push_oep8_id, receiver_at, receiver_count, Bridge};
use crate::calls::{
    account_in, balance_of_oep5, balance_of_oep8, call_neovm_address, call_neovm_bool,
    call_neovm_num, confirmation_in, lock_oep5, lock_order, multi_balance_query,
    multi_transfer_order, number_in, owner_of, owner_query, single_balance_query, transfer_oep8,
    EvmCall, HostCall, Reply,
};
use crate::error::BridgeError;
use crate::events::{
    multi_id_notice, oep5_to_erc721_event, oep8_to_erc1155_event, single_id_notice, EventView,
};
use crate::evm::{
    balance_of_erc1155, balance_of_erc721, foreign_balance, foreign_balance_in, mint_erc1155,
    mint_erc721,
};
use crate::invocation::{authorizes, Invocation};
use crate::model::BridgeView;
use crate::pair::{Category, TokenPair};

verus! {

/// A receiver may take custody of one more token while it holds fewer than this.
pub const RECEIVER_THRESHOLD: u128 = 1000;

/// Where a single-id transfer stands: what it has measured so far and which
/// answer it waits for.
#[derive(Clone, Copy, Debug, PartialEq, Eq)]
pub enum Oep5Stage {
    /// Waits for the native balance of `candidate`, the `index`-th receiver of the pool.
    Scan { index: usize, candidate: Address },
    /// Waits for the owner of the token. `receiver` held `before` tokens when it was chosen.
    Owner { receiver: Address, before: u128 },
    /// Waits for the receiver's confirmation that it took custody.
    Lock { receiver: Address, before: u128 },
    /// Waits for the receiver's native balance after it took custody.
    Custody { receiver: Address, before: u128 },
    /// Waits for the recipient's foreign balance before the mint.
    ForeignBefore,
    /// Waits for the mint to return. The recipient held `before`.
    Mint { before: u128 },
    /// Waits for the recipient's foreign balance after the mint.
    ForeignAfter { before: u128 },
    /// The transfer has returned `true`.
    Done,
}

/// A transfer of one single-id token from the native to the foreign ledger, in progress.
#[derive(Clone, Copy, Debug, PartialEq, Eq)]
pub struct Oep5Transfer {
    /// The bridge's own address, in whose name the foreign contract is called.
    pub this: Address,
    /// The native holder who gives the token up.
    pub ont_acct: Address,
    /// The foreign account that receives the mirrored token.
    pub eth_acct: Address,
    pub token_id: u128,
    pub pair: TokenPair,
    pub stage: Oep5Stage,
}

/// The transfer that a call with these arguments starts, or why it starts none.
/// The holder must have witnessed the call, the pair must be registered in
/// the single-id family, and the pool must have a receiver.
pub open spec fn single_id_start(
    bridge: BridgeView,
    signers: Set<Address>,
    this: Address,
    ont_acct: Address,
    eth_acct: Address,
    token_id: u128,
    token_pair_name: Seq<u8>,
) -> Result<Oep5Transfer, BridgeError> {
    if !authorizes(signers, ont_acct) {
        Err(BridgeError::Unauthorized)
    } else {
        match bridge.pair_in(Category::SingleId, token_pair_name) {
            None => Err(BridgeError::PairNotFound),
            Some(pair) => if bridge.receivers.len() == 0 {
                Err(BridgeError::NoReceiverAvailable)
            } else {
                Ok(
                    Oep5Transfer {
                        this,
                        ont_acct,
                        eth_acct,
                        token_id,
                        pair,
                        stage: Oep5Stage::Scan { index: 0, candidate: bridge.receivers[0] },
                    },
                )
            },
        }
    }
}

impl Oep5Transfer {
    /// The same transfer at another stage.
    pub open spec fn at(self, stage: Oep5Stage) -> Oep5Transfer {
        Oep5Transfer { stage, ..self }
    }

    /// The call whose answer the transfer waits for; none once it is done.
    pub open spec fn pending(self) -> Option<HostCall> {
        match self.stage {
            Oep5Stage::Scan { index, candidate } => Some(
                single_balance_query(self.pair.oep, candidate, self.pair.is_oep5_neovm),
            ),
            Oep5Stage::Owner { receiver, before } => Some(
                owner_query(self.pair.oep, self.token_id, self.pair.is_oep5_neovm),
            ),
            Oep5Stage::Lock { receiver, before } => Some(
                lock_order(receiver, self.pair.oep, self.token_id, self.pair.is_oep5_neovm),
            ),
            Oep5Stage::Custody { receiver, before } => Some(
                single_balance_query(self.pair.oep, receiver, self.pair.is_oep5_neovm),
            ),
            Oep5Stage::ForeignBefore => Some(
                HostCall::Evm {
                    caller: self.this,
                    target: self.pair.erc,
                    call: EvmCall::BalanceOfErc721 { user: self.eth_acct },
                },
            ),
            Oep5Stage::Mint { before } => Some(
                HostCall::Evm {
                    caller: self.this,
                    target: self.pair.erc,
                    call: EvmCall::MintErc721 { to: self.eth_acct, token_id: self.token_id },
                },
            ),
            Oep5Stage::ForeignAfter { before } => Some(
                HostCall::Evm {
                    caller: self.this,
                    target: self.pair.erc,
                    call: EvmCall::BalanceOfErc721 { user: self.eth_acct },
                },
            ),
            Oep5Stage::Done => None,
        }
    }

    /// Where the transfer stands once the pending call has been answered with
    /// `reply`, or why it is aborted. `receivers` is the pool.
    pub open spec fn after(self, receivers: Seq<Address>, reply: Reply) -> Result<
        Oep5Transfer,
        BridgeError,
    > {
        match self.stage {
            Oep5Stage::Scan { index, candidate } => match number_in(reply) {
                Err(e) => Err(e),
                Ok(balance) => if balance < RECEIVER_THRESHOLD {
                    Ok(self.at(Oep5Stage::Owner { receiver: candidate, before: balance }))
                } else if index + 1 < receivers.len() {
                    Ok(
                        self.at(
                            Oep5Stage::Scan {
                                index: (index + 1) as usize,
                                candidate: receivers[index + 1],
                            },
                        ),
                    )
                } else {
                    Err(BridgeError::NoReceiverAvailable)
                },
            },
            Oep5Stage::Owner { receiver, before } => match account_in(reply) {
                Err(e) => Err(e),
                Ok(owner) => if owner == self.ont_acct {
                    Ok(self.at(Oep5Stage::Lock { receiver, before }))
                } else {
                    Err(BridgeError::InvalidOwner)
                },
            },
            Oep5Stage::Lock { receiver, before } => match confirmation_in(reply) {
                Err(e) => Err(e),
                Ok(_) => Ok(self.at(Oep5Stage::Custody { receiver, before })),
            },
            Oep5Stage::Custody { receiver, before } => match number_in(reply) {
                Err(e) => Err(e),
                Ok(now) => if now < before {
                    Err(BridgeError::BalanceDecreased)
                } else if now == before {
                    Ok(self.at(Oep5Stage::Done))
                } else {
                    Ok(self.at(Oep5Stage::ForeignBefore))
                },
            },
            Oep5Stage::ForeignBefore => match foreign_balance_in(reply) {
                Err(e) => Err(e),
                Ok(before) => Ok(self.at(Oep5Stage::Mint { before })),
            },
            Oep5Stage::Mint { before } => match reply {
                Reply::Bytes(_) => Ok(self.at(Oep5Stage::ForeignAfter { before })),
                _ => Err(BridgeError::UnexpectedReply),
            },
            Oep5Stage::ForeignAfter { before } => match foreign_balance_in(reply) {
                Err(e) => Err(e),
                Ok(now) => if now - before == 1 {
                    Ok(self.at(Oep5Stage::Done))
                } else {
                    Err(BridgeError::MintFailed)
                },
            },
            Oep5Stage::Done => Err(BridgeError::UnexpectedReply),
        }
    }

    /// What the step that `reply` triggers notifies: the completed transfer,
    /// when the mint is confirmed; nothing at any other step.
    pub open spec fn notices(self, receivers: Seq<Address>, reply: Reply) -> Seq<EventView> {
        if self.stage is ForeignAfter && self.after(receivers, reply).is_ok() {
            seq![
                single_id_notice(
                    self.ont_acct,
                    self.eth_acct,
                    self.token_id,
                    self.pair.oep,
                    self.pair.erc,
                ),
            ]
        } else {
            Seq::empty()
        }
    }

    /// Where the transfer stands once the answers `replies` have come in, in
    /// this order, or why it is aborted.
    pub open spec fn run(self, receivers: Seq<Address>, replies: Seq<Reply>) -> Result<
        Oep5Transfer,
        BridgeError,
    >
        decreases replies.len(),
    {
        if replies.len() == 0 {
            Ok(self)
        } else {
            match self.after(receivers, replies[0]) {
                Err(e) => Err(e),
                Ok(next) => next.run(receivers, replies.skip(1)),
            }
        }
    }

    /// Whether the transfer has returned.
    pub fn is_done(&self) -> (r: bool)
        ensures
            r == (self.stage is Done),
    {
        match self.stage {
            Oep5Stage::Done => true,
            _ => false,
        }
    }

    /// The call that the host is to make next; none once the transfer is done.
    pub fn next_call(&self) -> (r: Option<HostCall>)
        ensures
            r == self.pending(),
    {
        match self.stage {
            Oep5Stage::Scan { index, candidate } => Some(
                balance_of_oep5(&self.pair.oep, &candidate, self.pair.is_oep5_neovm),
            ),
            Oep5Stage::Owner { receiver, before } => Some(
                owner_of(&self.pair.oep, self.token_id, self.pair.is_oep5_neovm),
            ),
            Oep5Stage::Lock { receiver, before } => Some(
                lock_oep5(&receiver, &self.pair.oep, self.token_id, self.pair.is_oep5_neovm),
            ),
            Oep5Stage::Custody { receiver, before } => Some(
                balance_of_oep5(&self.pair.oep, &receiver, self.pair.is_oep5_neovm),
            ),
            Oep5Stage::ForeignBefore => Some(
                balance_of_erc721(&self.this, &self.pair.erc, &self.eth_acct),
            ),
            Oep5Stage::Mint { before } => Some(
                mint_erc721(&self.this, &self.pair.erc, &self.eth_acct, self.token_id),
            ),
            Oep5Stage::ForeignAfter { before } => Some(
                balance_of_erc721(&self.this, &self.pair.erc, &self.eth_acct),
            ),
            Oep5Stage::Done => None,
        }
    }

    /// Takes the answer to the pending call and moves the transfer on, or
    /// aborts it. The completed transfer is notified when the mint is confirmed.
    pub fn resume(self, bridge: &Bridge, call: &mut Invocation, reply: &Reply) -> (r: Result<
        Oep5Transfer,
        BridgeError,
    >)
        ensures
            r == self.after(bridge@.receivers, *reply),
            final(call).this == old(call).this,
            final(call).witnesses == old(call).witnesses,
            final(call).log() == old(call).log() + self.notices(bridge@.receivers, *reply),
            r.is_err() ==> *final(call) == *old(call),
    {
        proof {
            assert(call.log() + Seq::<EventView>::empty() =~= call.log());
        }
        match self.stage {
            Oep5Stage::Scan { index, candidate } => {
                let balance = call_neovm_num(reply)?;
                if balance < RECEIVER_THRESHOLD {
                    Ok(
                        Oep5Transfer {
                            stage: Oep5Stage::Owner { receiver: candidate, before: balance },
                            ..self
                        },
                    )
                } else {
                    let count = receiver_count(bridge);
                    if count > 0 && index < count - 1 {
                        match receiver_at(bridge, index + 1) {
                            Some(next) => Ok(
                                Oep5Transfer {
                                    stage: Oep5Stage::Scan { index: index + 1, candidate: next },
                                    ..self
                                },
                            ),
                            None => Err(BridgeError::NoReceiverAvailable),
                        }
                    } else {
                        Err(BridgeError::NoReceiverAvailable)
                    }
                }
            },
            Oep5Stage::Owner { receiver, before } => {
                let owner = call_neovm_address(reply)?;
                if owner == self.ont_acct {
                    Ok(Oep5Transfer { stage: Oep5Stage::Lock { receiver, before }, ..self })
                } else {
                    Err(BridgeError::InvalidOwner)
                }
            },
            Oep5Stage::Lock { receiver, before } => {
                call_neovm_bool(reply)?;
                Ok(Oep5Transfer { stage: Oep5Stage::Custody { receiver, before }, ..self })
            },
            Oep5Stage::Custody { receiver, before } => {
                let now = call_neovm_num(reply)?;
                if now < before {
                    Err(BridgeError::BalanceDecreased)
                } else if now == before {
                    Ok(Oep5Transfer { stage: Oep5Stage::Done, ..self })
                } else {
                    Ok(Oep5Transfer { stage: Oep5Stage::ForeignBefore, ..self })
                }
            },
            Oep5Stage::ForeignBefore => {
                let before = foreign_balance(reply)?;
                Ok(Oep5Transfer { stage: Oep5Stage::Mint { before }, ..self })
            },
            Oep5Stage::Mint { before } => match reply {
                Reply::Bytes(_) => Ok(
                    Oep5Transfer { stage: Oep5Stage::ForeignAfter { before }, ..self },
                ),
                _ => Err(BridgeError::UnexpectedReply),
            },
            Oep5Stage::ForeignAfter { before } => {
                let now = foreign_balance(reply)?;
                if now > before && now - before == 1 {
                    call.notify(
                        oep5_to_erc721_event(
                            &self.ont_acct,
                            &self.eth_acct,
                            self.token_id,
                            &self.pair.oep,
                            &self.pair.erc,
                        ),
                    );
                    proof {
                        let n = single_id_notice(
                            self.ont_acct,
                            self.eth_acct,
                            self.token_id,
                            self.pair.oep,
                            self.pair.erc,
                        );
                        assert(old(call).log().push(n) =~= old(call).log() + seq![n]);
                    }
                    Ok(Oep5Transfer { stage: Oep5Stage::Done, ..self })
                } else {
                    Err(BridgeError::MintFailed)
                }
            },
            Oep5Stage::Done => Err(BridgeError::UnexpectedReply),
        }
    }
}

/// Starts the transfer of the single-id token `token_id` of the pair
/// `token_pair_name` from `ont_acct` to the foreign account `eth_acct`.
pub fn oep5_to_erc721(
    bridge: &Bridge,
    call: &Invocation,
    ont_acct: &Address,
    eth_acct: &Address,
    token_id: u128,
    token_pair_name: &[u8],
) -> (r: Result<Oep5Transfer, BridgeError>)
    requires
        bridge.wf(),
    ensures
        r == single_id_start(
            bridge@,
            call.signers(),
            call.this,
            *ont_acct,
            *eth_acct,
            token_id,
            token_pair_name@,
        ),
{
    if !call.check_witness(ont_acct) {
        return Err(BridgeError::Unauthorized);
    }
    let pair = match get_token_pair_in(bridge, Category::SingleId, token_pair_name) {
        Some(pair) => pair,
        None => {
            return Err(BridgeError::PairNotFound);
        },
    };
    match receiver_at(bridge, 0) {
        None => Err(BridgeError::NoReceiverAvailable),
        Some(candidate) => Ok(
            Oep5Transfer {
                this: call.this,
                ont_acct: *ont_acct,
                eth_acct: *eth_acct,
                token_id,
                pair,
                stage: Oep5Stage::Scan { index: 0, candidate },
            },
        ),
    }
}

/// Where a multi-id transfer stands: what it has measured so far and which
/// answer it waits for.
#[derive(Clone, Copy, Debug, PartialEq, Eq)]
pub enum Oep8Stage {
    /// Waits for the bridge's own native balance of the id before the escrow.
    EscrowBefore,
    /// Waits for the native contract's confirmation of the move into escrow.
    Escrow { before: u128 },
    /// Waits for the bridge's own native balance of the id after the escrow.
    EscrowAfter { before: u128 },
    /// Waits for the recipient's foreign balance before the mint.
    ForeignBefore,
    /// Waits for the mint to return. The recipient held `before`.
    Mint { before: u128 },
    /// Waits for the recipient's foreign balance after the mint.
    ForeignAfter { before: u128 },
    /// The transfer has returned `true`.
    Done,
}

/// A transfer of an amount of one multi-id token from the native to the
/// foreign ledger, in progress.
#[derive(Clone, Copy, Debug, PartialEq, Eq)]
pub struct Oep8Transfer {
    /// The bridge's own address, which holds the escrow.
    pub this: Address,
    /// The native holder who gives the tokens up.
    pub ont_acct: Address,
    /// The foreign account that receives the mirrored tokens.
    pub eth_acct: Address,
    pub token_id: u128,
    pub amount: u128,
    pub pair: TokenPair,
    pub stage: Oep8Stage,
}

/// The transfer that a call with these arguments starts, or why it starts none.
/// The holder must have witnessed the call, the amount must not be zero and
/// the pair must be registered in the multi-id family.
pub open spec fn multi_id_start(
    bridge: BridgeView,
    signers: Set<Address>,
    this: Address,
    ont_acct: Address,
    eth_acct: Address,
    token_id: u128,
    token_pair_name: Seq<u8>,
    amount: u128,
) -> Result<Oep8Transfer, BridgeError> {
    if !authorizes(signers, ont_acct) {
        Err(BridgeError::Unauthorized)
    } else if amount == 0 {
        Err(BridgeError::ZeroAmount)
    } else {
        match bridge.pair_in(Category::MultiId, token_pair_name) {
            None => Err(BridgeError::PairNotFound),
            Some(pair) => Ok(
                Oep8Transfer {
                    this,
                    ont_acct,
                    eth_acct,
                    token_id,
                    amount,
                    pair,
                    stage: Oep8Stage::EscrowBefore,
                },
            ),
        }
    }
}

impl Oep8Transfer {
    /// The same transfer at another stage.
    pub open spec fn at(self, stage: Oep8Stage) -> Oep8Transfer {
        Oep8Transfer { stage, ..self }
    }

    /// The query for the recipient's foreign balance of the id.
    pub open spec fn foreign_query(self) -> HostCall {
        HostCall::Evm {
            caller: self.this,
            target: self.pair.erc,
            call: EvmCall::BalanceOfErc1155 { user: self.eth_acct, token_id: self.token_id },
        }
    }

    /// The call whose answer the transfer waits for; none once it is done.
    pub open spec fn pending(self) -> Option<HostCall> {
        match self.stage {
            Oep8Stage::EscrowBefore => Some(
                multi_balance_query(self.pair.oep, self.this, self.token_id),
            ),
            Oep8Stage::Escrow { before } => Some(
                multi_transfer_order(
                    self.pair.oep,
                    self.ont_acct,
                    self.this,
                    self.token_id,
                    self.amount,
                ),
            ),
            Oep8Stage::EscrowAfter { before } => Some(
                multi_balance_query(self.pair.oep, self.this, self.token_id),
            ),
            Oep8Stage::ForeignBefore => Some(self.foreign_query()),
            Oep8Stage::Mint { before } => Some(
                HostCall::Evm {
                    caller: self.this,
                    target: self.pair.erc,
                    call: EvmCall::MintErc1155 {
                        to: self.eth_acct,
                        token_id: self.token_id,
                        amount: self.amount,
                    },
                },
            ),
            Oep8Stage::ForeignAfter { before } => Some(self.foreign_query()),
            Oep8Stage::Done => None,
        }
    }

    /// Where the transfer stands once the pending call has been answered with
    /// `reply`, or why it is aborted.
    pub open spec fn after(self, reply: Reply) -> Result<Oep8Transfer, BridgeError> {
        match self.stage {
            Oep8Stage::EscrowBefore => match number_in(reply) {
                Err(e) => Err(e),
                Ok(before) => Ok(self.at(Oep8Stage::Escrow { before })),
            },
            Oep8Stage::Escrow { before } => match confirmation_in(reply) {
                Err(e) => Err(e),
                Ok(_) => Ok(self.at(Oep8Stage::EscrowAfter { before })),
            },
            Oep8Stage::EscrowAfter { before } => match number_in(reply) {
                Err(e) => Err(e),
                Ok(now) => if now < before {
                    Err(BridgeError::BalanceDecreased)
                } else if now == before {
                    Ok(self.at(Oep8Stage::Done))
                } else {
                    Ok(self.at(Oep8Stage::ForeignBefore))
                },
            },
            Oep8Stage::ForeignBefore => match foreign_balance_in(reply) {
                Err(e) => Err(e),
                Ok(before) => Ok(self.at(Oep8Stage::Mint { before })),
            },
            Oep8Stage::Mint { before } => match reply {
                Reply::Bytes(_) => Ok(self.at(Oep8Stage::ForeignAfter { before })),
                _ => Err(BridgeError::UnexpectedReply),
            },
            Oep8Stage::ForeignAfter { before } => match foreign_balance_in(reply) {
                Err(e) => Err(e),
                Ok(now) => if now - before == self.amount {
                    Ok(self.at(Oep8Stage::Done))
                } else {
                    Err(BridgeError::MintFailed)
                },
            },
            Oep8Stage::Done => Err(BridgeError::UnexpectedReply),
        }
    }

    /// Whether the step that `reply` triggers completes the transfer.
    pub open spec fn completes(self, reply: Reply) -> bool {
        self.after(reply) == Ok::<Oep8Transfer, BridgeError>(self.at(Oep8Stage::Done))
    }

    /// The notice of the transfer.
    pub open spec fn notice(self) -> EventView {
        multi_id_notice(
            self.ont_acct,
            self.eth_acct,
            self.token_id,
            self.amount,
            self.pair.oep,
            self.pair.erc,
        )
    }

    /// What the step that `reply` triggers notifies: the transfer, when the
    /// step completes it, whether or not anything was minted.
    pub open spec fn notices(self, reply: Reply) -> Seq<EventView> {
        if self.completes(reply) {
            seq![self.notice()]
        } else {
            Seq::empty()
        }
    }

    /// The state of the bridge after the step that `reply` triggers: the step
    /// that completes the transfer notes the id as escrowed on the native
    /// contract, whether or not anything was minted; no other step changes
    /// the bridge.
    pub open spec fn bridge_after(self, bridge: BridgeView, reply: Reply) -> BridgeView {
        if self.completes(reply) {
            bridge.record_escrow_id(self.pair.oep, self.token_id)
        } else {
            bridge
        }
    }

    /// Where the transfer stands once the answers `replies` have come in, in
    /// this order, or why it is aborted.
    pub open spec fn run(self, replies: Seq<Reply>) -> Result<Oep8Transfer, BridgeError>
        decreases replies.len(),
    {
        if replies.len() == 0 {
            Ok(self)
        } else {
            match self.after(replies[0]) {
                Err(e) => Err(e),
                Ok(next) => next.run(replies.skip(1)),
            }
        }
    }

    /// Whether the transfer has returned.
    pub fn is_done(&self) -> (r: bool)
        ensures
            r == (self.stage is Done),
    {
        match self.stage {
            Oep8Stage::Done => true,
            _ => false,
        }
    }

    /// The call that the host is to make next; none once the transfer is done.
    pub fn next_call(&self) -> (r: Option<HostCall>)
        ensures
            r == self.pending(),
    {
        match self.stage {
            Oep8Stage::EscrowBefore => Some(
                balance_of_oep8(&self.pair.oep, &self.this, self.token_id),
            ),
            Oep8Stage::Escrow { before } => Some(
                transfer_oep8(
                    &self.pair.oep,
                    &self.ont_acct,
                    &self.this,
                    self.token_id,
                    self.amount,
                ),
            ),
            Oep8Stage::EscrowAfter { before } => Some(
                balance_of_oep8(&self.pair.oep, &self.this, self.token_id),
            ),
            Oep8Stage::ForeignBefore => Some(
                balance_of_erc1155(&self.this, &self.pair.erc, &self.eth_acct, self.token_id),
            ),
            Oep8Stage::Mint { before } => Some(
                mint_erc1155(
                    &self.this,
                    &self.pair.erc,
                    &self.eth_acct,
                    self.token_id,
                    self.amount,
                ),
            ),
            Oep8Stage::ForeignAfter { before } => Some(
                balance_of_erc1155(&self.this, &self.pair.erc, &self.eth_acct, self.token_id),
            ),
            Oep8Stage::Done => None,
        }
    }

    /// Notes the id as escrowed, notifies the transfer and marks it as done.
    fn complete(self, bridge: &mut Bridge, call: &mut Invocation) -> (done: Oep8Transfer)
        requires
            old(bridge).wf(),
        ensures
            final(bridge).wf(),
            done == self.at(Oep8Stage::Done),
            final(bridge)@ == old(bridge)@.record_escrow_id(self.pair.oep, self.token_id),
            final(call).this == old(call).this,
            final(call).witnesses == old(call).witnesses,
            final(call).log() == old(call).log() + seq![self.notice()],
    {
        push_oep8_id(bridge, self.token_id, &self.pair.oep);
        call.notify(
            oep8_to_erc1155_event(
                &self.ont_acct,
                &self.eth_acct,
                self.token_id,
                self.amount,
                &self.pair.oep,
                &self.pair.erc,
            ),
        );
        assert(old(call).log().push(self.notice()) =~= old(call).log() + seq![self.notice()]);
        Oep8Transfer { stage: Oep8Stage::Done, ..self }
    }

    /// Takes the answer to the pending call and moves the transfer on, or
    /// aborts it. The step that completes the transfer notes the id as
    /// escrowed and notifies the transfer.
    pub fn resume(self, bridge: &mut Bridge, call: &mut Invocation, reply: &Reply) -> (r: Result<
        Oep8Transfer,
        BridgeError,
    >)
        requires
            old(bridge).wf(),
        ensures
            final(bridge).wf(),
            r == self.after(*reply),
            final(bridge)@ == self.bridge_after(old(bridge)@, *reply),
            final(call).this == old(call).this,
            final(call).witnesses == old(call).witnesses,
            final(call).log() == old(call).log() + self.notices(*reply),
            r.is_err() ==> *final(call) == *old(call),
    {
        proof {
            assert(call.log() + Seq::<EventView>::empty() =~= call.log());
        }
        match self.stage {
            Oep8Stage::EscrowBefore => {
                let before = call_neovm_num(reply)?;
                Ok(Oep8Transfer { stage: Oep8Stage::Escrow { before }, ..self })
            },
            Oep8Stage::Escrow { before } => {
                call_neovm_bool(reply)?;
                Ok(Oep8Transfer { stage: Oep8Stage::EscrowAfter { before }, ..self })
            },
            Oep8Stage::EscrowAfter { before } => {
                let now = call_neovm_num(reply)?;
                if now < before {
                    Err(BridgeError::BalanceDecreased)
                } else if now == before {
                    Ok(self.complete(bridge, call))
                } else {
                    Ok(Oep8Transfer { stage: Oep8Stage::ForeignBefore, ..self })
                }
            },
            Oep8Stage::ForeignBefore => {
                let before = foreign_balance(reply)?;
                Ok(Oep8Transfer { stage: Oep8Stage::Mint { before }, ..self })
            },
            Oep8Stage::Mint { before } => match reply {
                Reply::Bytes(_) => Ok(
                    Oep8Transfer { stage: Oep8Stage::ForeignAfter { before }, ..self },
                ),
                _ => Err(BridgeError::UnexpectedReply),
            },
            Oep8Stage::ForeignAfter { before } => {
                let now = foreign_balance(reply)?;
                if now >= before && now - before == self.amount {
                    Ok(self.complete(bridge, call))
                } else {
                    Err(BridgeError::MintFailed)
                }
            },
            Oep8Stage::Done => Err(BridgeError::UnexpectedReply),
        }
    }
}

/// Starts the transfer of `amount` of the multi-id token `token_id` of the
/// pair `token_pair_name` from `ont_acct` to the foreign account `eth_acct`.
pub fn oep8_to_erc1155(
    bridge: &Bridge,
    call: &Invocation,
    ont_acct: &Address,
    eth_acct: &Address,
    token_id: u128,
    token_pair_name: &[u8],
    amount: u128,
) -> (r: Result<Oep8Transfer, BridgeError>)
    requires
        bridge.wf(),
    ensures
        r == multi_id_start(
            bridge@,
            call.signers(),
            call.this,
            *ont_acct,
            *eth_acct,
            token_id,
            token_pair_name@,
            amount,
        ),
{
    if !call.check_witness(ont_acct) {
        return Err(BridgeError::Unauthorized);
    }
    if amount == 0 {
        return Err(BridgeError::ZeroAmount);
    }
    match get_token_pair_in(bridge, Category::MultiId, token_pair_name) {
        None => Err(BridgeError::PairNotFound),
        Some(pair) => Ok(
            Oep8Transfer {
                this: call.this,
                ont_acct: *ont_acct,
                eth_acct: *eth_acct,
                token_id,
                amount,
                pair,
                stage: Oep8Stage::EscrowBefore,
            },
        ),
    }
}

} // verus!
