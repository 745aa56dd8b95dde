use vstd::prelude::*;
use crate::address::Address;

verus! {

/// The two families of token standards that the bridge pairs up. Each family
/// has a keyspace of its own in the registry.
#[derive(Clone, Copy, Debug, PartialEq, Eq, Structural)]
pub enum Category {
    /// Every token is one unit with an id of its own.
    SingleId,
    /// One contract keeps an amount for each id.
    MultiId,
}

/// A native token contract and the foreign contract that mirrors it.
#[derive(Clone, Copy, Debug, PartialEq, Eq)]
pub struct TokenPair {
    /// Who may reassign the pair. The zero address: nobody but the admin.
    pub owner: Address,
    /// The contract on the foreign ledger.
    pub erc: Address,
    /// The contract on the native ledger.
    pub oep: Address,
    /// Whether the native contract runs on the legacy virtual machine.
    pub is_oep5_neovm: bool,
}

} // verus!
