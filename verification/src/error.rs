//! Failures of a single request.

use vstd::prelude::*;

verus! {

/// Why a request could not be served. Each failure is fatal for the request
/// that met it and leaves the column buffer as it was.
#[derive(Clone, Copy, Debug, PartialEq, Eq)]
pub enum CollectError {
    /// Configuration: no schema is registered for the requested dataset.
    SchemaNotProvided,
    /// Request shape: a by-block request carries no block number.
    BlockNumberNotProvided,
    /// Request shape: a by-transaction request carries no transaction hash.
    TransactionHashNotProvided,
    /// Capacity: the rows of the response would take the row count of the
    /// buffer beyond what it can hold.
    RowCountOverflow,
}

impl CollectError {
    /// Whether the failure lies in the configuration of the run rather than
    /// in the shape of the request.
    pub fn is_configuration(&self) -> (configuration: bool)
        ensures
            configuration == (*self is SchemaNotProvided),
    {
        match self {
            CollectError::SchemaNotProvided => true,
            CollectError::BlockNumberNotProvided => false,
            CollectError::TransactionHashNotProvided => false,
            CollectError::RowCountOverflow => false,
        }
    }

    /// A short description of the failure.
    pub fn message(&self) -> (text: String)
        ensures
            text@ == match *self {
                CollectError::SchemaNotProvided => "schema not provided"@,
                CollectError::BlockNumberNotProvided => "block number not provided"@,
                CollectError::TransactionHashNotProvided => "transaction hash not provided"@,
                CollectError::RowCountOverflow => "row count overflow"@,
            },
    {
        match self {
            CollectError::SchemaNotProvided => "schema not provided".to_owned(),
            CollectError::BlockNumberNotProvided => "block number not provided".to_owned(),
            CollectError::TransactionHashNotProvided => "transaction hash not provided".to_owned(),
            CollectError::RowCountOverflow => "row count overflow".to_owned(),
        }
    }
}

} // verus!
