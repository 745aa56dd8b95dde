use vstd::prelude::*;

verus! {

/// Why a call to the bridge was aborted. Every error is fatal for the call
/// that raised it: the host discards whatever the call did.
#[derive(Clone, Copy, Debug, PartialEq, Eq, Structural)]
pub enum BridgeError {
    /// The admin has already been set.
    AlreadyInitialized,
    /// The address whose authorization the operation needs did not witness the call.
    Unauthorized,
    /// The proposed admin is the zero address.
    ZeroAdmin,
    /// The native contract of a pair is the zero address.
    ZeroNativeAddress,
    /// The foreign contract of a pair is the zero address.
    ZeroForeignAddress,
    /// The pair name is already in use.
    PairAlreadyRegistered,
    /// No pair is registered under the name.
    PairNotFound,
    /// The address is not a member of the receiver pool.
    ReceiverNotFound,
    /// Every receiver of the pool holds at least the threshold.
    NoReceiverAvailable,
    /// The account that asks for the transfer does not own the token.
    InvalidOwner,
    /// A transfer of zero units was asked for.
    ZeroAmount,
    /// A token contract reported that it did not carry out a transfer.
    TransferFailed,
    /// A balance measured after a transfer is smaller than the one measured before.
    BalanceDecreased,
    /// The foreign balance did not grow by exactly the amount that was to be minted.
    MintFailed,
    /// The host reported the zero address as the new location of the contract.
    MigrateFailed,
    /// The host answered with a value of another sort than the pending call returns.
    UnexpectedReply,
    /// A foreign contract returned fewer bytes than a number takes, or a number that is too large.
    MalformedNumber,
}

/// What the host is told when a call is aborted for `error`.
pub open spec fn message_of(error: BridgeError) -> Seq<char> {
    match error {
        BridgeError::AlreadyInitialized => "has inited"@,
        BridgeError::Unauthorized => "check signature failed"@,
        BridgeError::ZeroAdmin => "new admin is zero address"@,
        BridgeError::ZeroNativeAddress => "invalid oep address"@,
        BridgeError::ZeroForeignAddress => "invalid erc address"@,
        BridgeError::PairAlreadyRegistered => "token pair name has registered"@,
        BridgeError::PairNotFound => "non-existed token pair name"@,
        BridgeError::ReceiverNotFound => "non-exist receiver"@,
        BridgeError::NoReceiverAvailable => "non-exist address"@,
        BridgeError::InvalidOwner => "invalid owner"@,
        BridgeError::ZeroAmount => "amount should be more than 0"@,
        BridgeError::TransferFailed => "transfer failed"@,
        BridgeError::BalanceDecreased => "sub overflow"@,
        BridgeError::MintFailed => "mint failed"@,
        BridgeError::MigrateFailed => "migrate failed"@,
        BridgeError::UnexpectedReply => "unexpected reply"@,
        BridgeError::MalformedNumber => "malformed number"@,
    }
}

impl BridgeError {
    /// What the host is told when a call is aborted for this error.
    pub fn message(&self) -> (text: &'static str)
        ensures
            text@ == message_of(*self),
    {
        match self {
            BridgeError::AlreadyInitialized => "has inited",
            BridgeError::Unauthorized => "check signature failed",
            BridgeError::ZeroAdmin => "new admin is zero address",
            BridgeError::ZeroNativeAddress => "invalid oep address",
            BridgeError::ZeroForeignAddress => "invalid erc address",
            BridgeError::PairAlreadyRegistered => "token pair name has registered",
            BridgeError::PairNotFound => "non-existed token pair name",
            BridgeError::ReceiverNotFound => "non-exist receiver",
            BridgeError::NoReceiverAvailable => "non-exist address",
            BridgeError::InvalidOwner => "invalid owner",
            BridgeError::ZeroAmount => "amount should be more than 0",
            BridgeError::TransferFailed => "transfer failed",
            BridgeError::BalanceDecreased => "sub overflow",
            BridgeError::MintFailed => "mint failed",
            BridgeError::MigrateFailed => "migrate failed",
            BridgeError::UnexpectedReply => "unexpected reply",
            BridgeError::MalformedNumber => "malformed number",
        }
    }
}

/// The four ways in which a call can fail. None of them is retried: the
/// call is aborted, and the host undoes what it did.
#[derive(Clone, Copy, Debug, PartialEq, Eq, Structural)]
pub enum Failure {
    /// The caller lacks a witness that the operation needs.
    Authorization,
    /// The state or the arguments do not allow the operation.
    Precondition,
    /// A token contract or the host did not do what its answer was measured against.
    InvariantViolation,
    /// No receiver can take custody of another token.
    ResourceExhaustion,
}

/// The way in which a call that is aborted for `error` has failed.
pub open spec fn failure_of(error: BridgeError) -> Failure {
    match error {
        BridgeError::Unauthorized => Failure::Authorization,
        BridgeError::AlreadyInitialized
        | BridgeError::ZeroAdmin
        | BridgeError::ZeroNativeAddress
        | BridgeError::ZeroForeignAddress
        | BridgeError::PairAlreadyRegistered
        | BridgeError::PairNotFound
        | BridgeError::ReceiverNotFound
        | BridgeError::InvalidOwner
        | BridgeError::ZeroAmount => Failure::Precondition,
        BridgeError::TransferFailed
        | BridgeError::BalanceDecreased
        | BridgeError::MintFailed
        | BridgeError::MigrateFailed
        | BridgeError::UnexpectedReply
        | BridgeError::MalformedNumber => Failure::InvariantViolation,
        BridgeError::NoReceiverAvailable => Failure::ResourceExhaustion,
    }
}

impl BridgeError {
    /// The way in which a call that is aborted for this error has failed.
    pub fn failure(&self) -> (failure: Failure)
        ensures
            failure == failure_of(*self),
    {
        match self {
            BridgeError::Unauthorized => Failure::Authorization,
            BridgeError::AlreadyInitialized
            | BridgeError::ZeroAdmin
            | BridgeError::ZeroNativeAddress
            | BridgeError::ZeroForeignAddress
            | BridgeError::PairAlreadyRegistered
            | BridgeError::PairNotFound
            | BridgeError::ReceiverNotFound
            | BridgeError::InvalidOwner
            | BridgeError::ZeroAmount => Failure::Precondition,
            BridgeError::TransferFailed
            | BridgeError::BalanceDecreased
            | BridgeError::MintFailed
            | BridgeError::MigrateFailed
            | BridgeError::UnexpectedReply
            | BridgeError::MalformedNumber => Failure::InvariantViolation,
            BridgeError::NoReceiverAvailable => Failure::ResourceExhaustion,
        }
    }
}

} // verus!
