//! The rules of a bridge that mirrors tokens of one ledger on another: who
//! governs the bridge, which pairs of token contracts it serves, which
//! receivers take custody of single-id tokens, how a transfer proves from
//! measured balances that each of its steps took place, and how the escrow
//! follows the bridge when its code moves.
//!
//! The bridge makes no call of its own. An operation that needs the host
//! names the call it waits for and takes the answer; what the host knows of
//! the call that is being served comes in as an [`invocation::Invocation`].

pub mod address;
pub mod bridge;
pub mod calls;
pub mod dispatch;
pub mod error;
pub mod events;
pub mod evm;
pub mod invocation;
pub mod laws;
pub mod migration;
pub mod model;
pub mod order;
pub mod pair;
pub mod transfer;
