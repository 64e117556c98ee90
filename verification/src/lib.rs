//! Turns execution-trace responses into flat, schema-filtered column buffers.
//!
//! Two datasets are covered: contract-code changes taken from state diffs
//! (`CodeDiffs`) and contract code read from the pre-state (`CodeReads`).
//! Each response is mapped to zero or more rows; every column write is
//! conditioned on the schema registered for the dataset.

pub mod address;
pub mod code_diffs;
pub mod code_reads;
pub mod columns;
pub mod error;
pub mod request;
pub mod schema;
pub mod sequences;
pub mod trace;

pub use address::{Address, AddressMap};
pub use code_diffs::{process_code_diff, process_code_diffs, BlockTxTraces, CodeDiffs};
pub use code_reads::{process_code_read, process_code_reads, BlockTxsTraces, CodeReads};
pub use error::CollectError;
pub use request::{BlockFetch, Params, TransactionFetch};
pub use schema::{Datatype, Schemas, Table};
pub use trace::{AccountDiff, AccountState, Delta, TraceResults};
