//! Read-side queries against already synchronized state.
//!
//! The storage lookup itself is the serving layer's: it reads the backing
//! store and hands in what it found. The decision — which answer each
//! lookup outcome maps to — is made here.

use crate::types::Felt252;
use vstd::prelude::*;

verus! {

/// The errors the read API answers with.
#[derive(Clone, Copy, PartialEq, Eq, Structural, Debug)]
pub enum StarknetRpcApiError {
    ContractNotFound,
    InternalServerError,
}

/// What the backing store answered when asked for the class hash of a
/// contract at a block: the hash, no deployed contract, or a storage
/// failure.
#[derive(Clone, Copy, PartialEq, Eq, Structural, Debug)]
pub enum ClassHashLookup {
    Found(Felt252),
    NotDeployed,
    StorageFailure,
}

/// The class hash of the contract deployed at the given address, in the
/// given block: the hash the store found; `ContractNotFound` where no
/// contract is deployed there; an internal error where the store itself
/// failed.
pub fn get_class_hash_at(lookup: ClassHashLookup) -> (r: Result<Felt252, StarknetRpcApiError>)
    ensures
        r == match lookup {
            ClassHashLookup::Found(h) => Ok::<Felt252, StarknetRpcApiError>(h),
            ClassHashLookup::NotDeployed => Err::<Felt252, StarknetRpcApiError>(
                StarknetRpcApiError::ContractNotFound,
            ),
            ClassHashLookup::StorageFailure => Err::<Felt252, StarknetRpcApiError>(
                StarknetRpcApiError::InternalServerError,
            ),
        },
{
    match lookup {
        ClassHashLookup::Found(h) => Ok(h),
        ClassHashLookup::NotDeployed => Err(StarknetRpcApiError::ContractNotFound),
        ClassHashLookup::StorageFailure => Err(StarknetRpcApiError::InternalServerError),
    }
}

} // verus!
