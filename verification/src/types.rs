//! Plain value types shared across the synchronization subsystem.

use vstd::prelude::*;

verus! {

/// A 252-bit field element of the L2 chain, held as four big-endian 64-bit
/// digits. Block hashes, state roots, contract addresses and transaction
/// hashes are all values of this kind.
#[derive(Clone, Copy, PartialEq, Eq, Structural, Debug)]
pub struct Felt252 {
    pub d0: u64,
    pub d1: u64,
    pub d2: u64,
    pub d3: u64,
}

impl Felt252 {
    /// The zero element.
    pub fn zero() -> (r: Felt252)
        ensures
            r == (Felt252 { d0: 0, d1: 0, d2: 0, d3: 0 }),
    {
        Felt252 { d0: 0, d1: 0, d2: 0, d3: 0 }
    }

    /// The element with the given low digit and all higher digits zero.
    pub fn from_u64(v: u64) -> (r: Felt252)
        ensures
            r == (Felt252 { d0: 0, d1: 0, d2: 0, d3: v }),
    {
        Felt252 { d0: 0, d1: 0, d2: 0, d3: v }
    }
}

/// Identifier of the L2 network instance; immutable for the process
/// lifetime, used to check that L1 events belong to the expected deployment.
#[derive(Clone, Copy, PartialEq, Eq, Structural, Debug)]
pub struct ChainId {
    pub id: Felt252,
}

/// Tag naming a distinguished block.
#[derive(Clone, Copy, PartialEq, Eq, Structural, Debug)]
pub enum BlockTag {
    Latest,
    Pending,
}

/// Reference to a block of the local ledger: by height, by hash, or by tag.
#[derive(Clone, Copy, PartialEq, Eq, Structural, Debug)]
pub enum BlockId {
    Number(u64),
    Hash(Felt252),
    Tag(BlockTag),
}

} // verus!
