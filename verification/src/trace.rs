//! The parts of a trace response that the datasets read.

use crate::address::AddressMap;
use vstd::prelude::*;

verus! {

/// How a value of one account changed within one trace.
#[derive(Clone, Debug, PartialEq, Eq)]
pub enum Delta {
    /// The value did not change.
    Unchanged,
    /// A value was added.
    Added(Vec<u8>),
    /// The value was removed.
    Removed(Vec<u8>),
    /// The value changed from the first to the second.
    Changed(Vec<u8>, Vec<u8>),
}

/// The changes of one account within one trace.
#[derive(Clone, Debug, PartialEq, Eq)]
pub struct AccountDiff {
    /// How the contract code changed.
    pub code: Delta,
}

/// The outcome of one traced transaction.
pub struct TraceResults {
    /// The state changes by account, where the trace recorded them.
    pub state_diff: Option<AddressMap<AccountDiff>>,
}

/// The state of one account before execution.
#[derive(Clone, Debug, PartialEq, Eq)]
pub struct AccountState {
    /// The contract code, where it was retrieved.
    pub code: Option<Vec<u8>>,
}

} // verus!
