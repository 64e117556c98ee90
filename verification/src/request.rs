//! Requests, and what a collection strategy asks of the source for them.

use crate::error::CollectError;
use vstd::prelude::*;

verus! {

/// The parameters of one request: a block, or a transaction.
pub struct Params {
    pub block_number: Option<u64>,
    pub transaction_hash: Option<Vec<u8>>,
}

impl Params {
    /// The block number of a by-block request.
    pub fn block_number(&self) -> (result: Result<u64, CollectError>)
        ensures
            result == match self.block_number {
                Some(number) => Ok::<u64, CollectError>(number),
                None => Err(CollectError::BlockNumberNotProvided),
            },
    {
        match self.block_number {
            Some(number) => Ok(number),
            None => Err(CollectError::BlockNumberNotProvided),
        }
    }

    /// The transaction hash of a by-transaction request.
    pub fn transaction_hash(&self) -> (result: Result<Vec<u8>, CollectError>)
        ensures
            match result {
                Ok(hash) => self.transaction_hash matches Some(given) && hash@ == given@,
                Err(e) => self.transaction_hash is None && e == CollectError::TransactionHashNotProvided,
            },
    {
        match &self.transaction_hash {
            Some(hash) => Ok(hash.clone()),
            None => Err(CollectError::TransactionHashNotProvided),
        }
    }
}

/// What to fetch for a by-block request.
#[derive(Clone, Copy, Debug, PartialEq, Eq)]
pub struct BlockFetch {
    /// The block to trace: the block of the request.
    pub block_number: u64,
    /// Whether the source is to retrieve the transaction hashes.
    pub include_transaction_hashes: bool,
}

/// What to fetch for a by-transaction request.
#[derive(Clone, Debug, PartialEq, Eq)]
pub struct TransactionFetch {
    /// The transaction to trace.
    pub transaction_hash: Vec<u8>,
    /// Whether the source is to retrieve the block number.
    pub include_block_number: bool,
}

} // verus!
