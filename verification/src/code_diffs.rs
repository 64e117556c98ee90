//! Contract-code changes, taken from the state diffs of traces.

use crate::address::Address;
use crate::columns::{copy_bytes, copy_hash, lemma_bytes_deep_view, store};
use crate::error::CollectError;
use crate::request::{BlockFetch, Params};
use crate::schema::{Datatype, Schemas, Table};
use crate::sequences::{
    lemma_filter_map_prefix_len, lemma_flatten_member, lemma_flatten_prefix_len,
    lemma_flatten_step,
};
use crate::trace::{AccountDiff, Delta, TraceResults};
use vstd::prelude::*;

verus! {

/// The columns of the code-diffs dataset, as filled for one request.
pub struct CodeDiffs {
    pub n_rows: u64,
    pub block_number: Vec<Option<u32>>,
    pub transaction_index: Vec<Option<u32>>,
    pub transaction_hash: Vec<Option<Vec<u8>>>,
    pub address: Vec<Vec<u8>>,
    pub from_value: Vec<Vec<u8>>,
    pub to_value: Vec<Vec<u8>>,
    pub chain_id: Vec<u64>,
}

/// The traces of one block or of one transaction: the block number, and for
/// each traced transaction its hash and its trace, at the same position.
pub type BlockTxTraces = (Option<u32>, Vec<Option<Vec<u8>>>, Vec<TraceResults>);

/// One row of the dataset.
#[verifier::ext_equal]
pub struct CodeDiffRow {
    pub block_number: Option<u32>,
    pub transaction_index: Option<u32>,
    pub transaction_hash: Option<Seq<u8>>,
    pub address: Seq<u8>,
    pub from_value: Seq<u8>,
    pub to_value: Seq<u8>,
}

/// What a `CodeDiffs` buffer holds.
#[verifier::ext_equal]
pub struct CodeDiffColumns {
    pub n_rows: nat,
    pub block_number: Seq<Option<u32>>,
    pub transaction_index: Seq<Option<u32>>,
    pub transaction_hash: Seq<Option<Seq<u8>>>,
    pub address: Seq<Seq<u8>>,
    pub from_value: Seq<Seq<u8>>,
    pub to_value: Seq<Seq<u8>>,
    pub chain_id: Seq<u64>,
}

impl View for CodeDiffs {
    type V = CodeDiffColumns;

    open spec fn view(&self) -> CodeDiffColumns {
        CodeDiffColumns {
            n_rows: self.n_rows as nat,
            block_number: self.block_number@,
            transaction_index: self.transaction_index@,
            transaction_hash: self.transaction_hash.deep_view(),
            address: self.address.deep_view(),
            from_value: self.from_value.deep_view(),
            to_value: self.to_value.deep_view(),
            chain_id: self.chain_id@,
        }
    }
}

impl CodeDiffColumns {
    /// The buffer without rows.
    pub open spec fn empty() -> CodeDiffColumns {
        CodeDiffColumns {
            n_rows: 0,
            block_number: Seq::empty(),
            transaction_index: Seq::empty(),
            transaction_hash: Seq::empty(),
            address: Seq::empty(),
            from_value: Seq::empty(),
            to_value: Seq::empty(),
            chain_id: Seq::empty(),
        }
    }

    /// The buffer after the rows are written under the schema: the row count
    /// grows by their number, each requested column by their values in order,
    /// and every other column stays as it is.
    pub open spec fn push_rows(
        self,
        schema: Set<Seq<char>>,
        rows: Seq<CodeDiffRow>,
    ) -> CodeDiffColumns {
        CodeDiffColumns {
            n_rows: self.n_rows + rows.len(),
            block_number: if schema.contains("block_number"@) {
                self.block_number + rows.map_values(|row: CodeDiffRow| row.block_number)
            } else {
                self.block_number
            },
            transaction_index: if schema.contains("transaction_index"@) {
                self.transaction_index + rows.map_values(|row: CodeDiffRow| row.transaction_index)
            } else {
                self.transaction_index
            },
            transaction_hash: if schema.contains("transaction_hash"@) {
                self.transaction_hash + rows.map_values(|row: CodeDiffRow| row.transaction_hash)
            } else {
                self.transaction_hash
            },
            address: if schema.contains("address"@) {
                self.address + rows.map_values(|row: CodeDiffRow| row.address)
            } else {
                self.address
            },
            from_value: if schema.contains("from_value"@) {
                self.from_value + rows.map_values(|row: CodeDiffRow| row.from_value)
            } else {
                self.from_value
            },
            to_value: if schema.contains("to_value"@) {
                self.to_value + rows.map_values(|row: CodeDiffRow| row.to_value)
            } else {
                self.to_value
            },
            chain_id: self.chain_id,
        }
    }

    /// The buffer after one row is written under the schema.
    pub open spec fn push_row(self, schema: Set<Seq<char>>, row: CodeDiffRow) -> CodeDiffColumns {
        self.push_rows(schema, seq![row])
    }

    /// Whether each column that rows are written to is as long as the row
    /// count where the schema requests it, and empty where it does not.
    pub open spec fn consistent(self, schema: Set<Seq<char>>) -> bool {
        &&& self.block_number.len() == if schema.contains("block_number"@) {
            self.n_rows
        } else {
            0
        }
        &&& self.transaction_index.len() == if schema.contains("transaction_index"@) {
            self.n_rows
        } else {
            0
        }
        &&& self.transaction_hash.len() == if schema.contains("transaction_hash"@) {
            self.n_rows
        } else {
            0
        }
        &&& self.address.len() == if schema.contains("address"@) {
            self.n_rows
        } else {
            0
        }
        &&& self.from_value.len() == if schema.contains("from_value"@) {
            self.n_rows
        } else {
            0
        }
        &&& self.to_value.len() == if schema.contains("to_value"@) {
            self.n_rows
        } else {
            0
        }
    }
}

/// The values that a change of code is reported with, the old one first, or
/// `None` where the change is not reported: no change, and code added that is
/// empty.
pub open spec fn code_change(diff: Delta) -> Option<(Seq<u8>, Seq<u8>)> {
    match diff {
        Delta::Unchanged => None,
        Delta::Added(to) => if to@.len() == 0 {
            None
        } else {
            Some((Seq::empty(), to@))
        },
        Delta::Removed(from) => Some((from@, Seq::empty())),
        Delta::Changed(from, to) => Some((from@, to@)),
    }
}

/// The row that the code change of one address gives, if it gives one.
pub open spec fn code_diff_row(
    addr: Address,
    diff: Delta,
    block_number: Option<u32>,
    transaction_hash: Option<Vec<u8>>,
    transaction_index: usize,
) -> Option<CodeDiffRow> {
    match code_change(diff) {
        Some((from, to)) => Some(
            CodeDiffRow {
                block_number,
                transaction_index: Some(transaction_index as u32),
                transaction_hash: transaction_hash.deep_view(),
                address: addr@,
                from_value: from,
                to_value: to,
            },
        ),
        None => None,
    }
}

/// The function from an entry of a state diff to its row, for one trace.
pub open spec fn entry_row(
    block_number: Option<u32>,
    transaction_hash: Option<Vec<u8>>,
    transaction_index: usize,
) -> spec_fn((Address, AccountDiff)) -> Option<CodeDiffRow> {
    |entry: (Address, AccountDiff)|
        code_diff_row(entry.0, entry.1.code, block_number, transaction_hash, transaction_index)
}

/// The rows of one trace: those of the entries of its state diff, in the
/// order of the diff; none where the trace carries no state diff.
pub open spec fn trace_rows(
    trace: TraceResults,
    block_number: Option<u32>,
    transaction_hash: Option<Vec<u8>>,
    transaction_index: usize,
) -> Seq<CodeDiffRow> {
    match trace.state_diff {
        Some(state_diff) => state_diff.entries().filter_map(
            entry_row(block_number, transaction_hash, transaction_index),
        ),
        None => Seq::empty(),
    }
}

/// The number of traces of the response that have a transaction hash at
/// their position.
pub open spec fn paired(response: BlockTxTraces) -> nat {
    if response.2@.len() <= response.1@.len() {
        response.2@.len()
    } else {
        response.1@.len()
    }
}

/// The rows of each trace of the response, with the position of the trace as
/// the transaction index.
pub open spec fn rows_by_trace(response: BlockTxTraces) -> Seq<Seq<CodeDiffRow>> {
    Seq::new(
        paired(response),
        |i: int| trace_rows(response.2@[i], response.0, response.1@[i], i as usize),
    )
}

/// The rows of the response: those of its traces, one trace after the other.
pub open spec fn code_diff_rows(response: BlockTxTraces) -> Seq<CodeDiffRow> {
    rows_by_trace(response).flatten()
}

impl Default for CodeDiffs {
    /// The buffer without rows.
    fn default() -> (columns: CodeDiffs)
        ensures
            columns@ == CodeDiffColumns::empty(),
    {
        let columns = CodeDiffs {
            n_rows: 0,
            block_number: Vec::new(),
            transaction_index: Vec::new(),
            transaction_hash: Vec::new(),
            address: Vec::new(),
            from_value: Vec::new(),
            to_value: Vec::new(),
            chain_id: Vec::new(),
        };
        columns
    }
}

impl CodeDiffs {
    /// What a by-block request asks of the source: the block of the request,
    /// with the transaction hashes only where the schema requests them.
    pub open spec fn planned_block_fetch(
        request: Params,
        schemas: Schemas,
    ) -> Result<BlockFetch, CollectError> {
        if !schemas@.contains_key(Datatype::CodeDiffs) {
            Err(CollectError::SchemaNotProvided)
        } else {
            match request.block_number {
                Some(number) => Ok(
                    BlockFetch {
                        block_number: number,
                        include_transaction_hashes: schemas@[Datatype::CodeDiffs]@.contains(
                            "transaction_hash"@,
                        ),
                    },
                ),
                None => Err(CollectError::BlockNumberNotProvided),
            }
        }
    }

    /// Decides what to fetch for a by-block request.
    pub fn block_fetch(request: &Params, schemas: &Schemas) -> (result: Result<
        BlockFetch,
        CollectError,
    >)
        ensures
            result == Self::planned_block_fetch(*request, *schemas),
    {
        let schema = match schemas.get(Datatype::CodeDiffs) {
            Some(schema) => schema,
            None => {
                return Err(CollectError::SchemaNotProvided);
            },
        };
        let include_txs = schema.has_column("transaction_hash");
        let number = match request.block_number() {
            Ok(number) => number,
            Err(e) => {
                return Err(e);
            },
        };
        Ok(
            BlockFetch {
                block_number: number,
                include_transaction_hashes: include_txs,
            },
        )
    }

    /// Writes the rows of a response, however it was fetched, into the
    /// buffer. Nothing is written where no schema is registered for the
    /// dataset, or where the row count would no longer fit.
    pub fn transform(response: BlockTxTraces, columns: &mut CodeDiffs, schemas: &Schemas) -> (result:
        Result<(), CollectError>)
        ensures
            match result {
                Ok(_) => {
                    &&& schemas@.contains_key(Datatype::CodeDiffs)
                    &&& old(columns).n_rows + code_diff_rows(response).len() <= u64::MAX
                    &&& final(columns)@ == old(columns)@.push_rows(
                        schemas@[Datatype::CodeDiffs]@,
                        code_diff_rows(response),
                    )
                    &&& old(columns)@.consistent(schemas@[Datatype::CodeDiffs]@) ==> final(columns)@.consistent(schemas@[Datatype::CodeDiffs]@)
                },
                Err(e) => {
                    &&& *final(columns) == *old(columns)
                    &&& e == if !schemas@.contains_key(Datatype::CodeDiffs) {
                        CollectError::SchemaNotProvided
                    } else {
                        CollectError::RowCountOverflow
                    }
                    &&& schemas@.contains_key(Datatype::CodeDiffs) ==> old(columns).n_rows
                        + code_diff_rows(response).len() > u64::MAX
                },
            },
    {
        if schemas.get(Datatype::CodeDiffs).is_none() {
            return Err(CollectError::SchemaNotProvided);
        }
        let fits = match count_code_diff_rows(&response) {
            Some(count) => count <= u64::MAX - columns.n_rows,
            None => false,
        };
        if !fits {
            return Err(CollectError::RowCountOverflow);
        }
        process_code_diffs(&response, columns, schemas)
    }
}

/// Whether the change of code is reported.
pub fn reports(diff: &Delta) -> (reported: bool)
    ensures
        reported == code_change(*diff) is Some,
{
    match diff {
        Delta::Unchanged => false,
        Delta::Added(value) => !value.is_empty(),
        Delta::Removed(_) => true,
        Delta::Changed(_, _) => true,
    }
}

/// The number of rows of a response, or `None` where it is beyond `u64`.
pub fn count_code_diff_rows(response: &BlockTxTraces) -> (count: Option<u64>)
    ensures
        match count {
            Some(number) => number == code_diff_rows(*response).len(),
            None => code_diff_rows(*response).len() > u64::MAX,
        },
{
    let txs = &response.1;
    let traces = &response.2;
    let n = if traces.len() <= txs.len() {
        traces.len()
    } else {
        txs.len()
    };
    let ghost by_trace = rows_by_trace(*response);
    let mut count: u64 = 0;
    let mut index: usize = 0;
    while index < n
        invariant
            index <= n,
            n == paired(*response),
            txs == &response.1,
            traces == &response.2,
            by_trace == rows_by_trace(*response),
            count == by_trace.take(index as int).flatten().len(),
        decreases n - index,
    {
        proof {
            lemma_flatten_step(by_trace, index as int);
            lemma_flatten_prefix_len(by_trace, index + 1);
        }
        if let Some(state_diffs) = &traces[index].state_diff {
            let ghost entries = state_diffs.entries();
            let ghost row = entry_row(response.0, txs@[index as int], index);
            let ghost done = by_trace.take(index as int).flatten().len();
            let m = state_diffs.len();
            let mut k: usize = 0;
            while k < m
                invariant
                    k <= m,
                    m == entries.len(),
                    entries == state_diffs.entries(),
                    row == entry_row(response.0, txs@[index as int], index as usize),
                    0 <= index < by_trace.len(),
                    by_trace[index as int] == entries.filter_map(row),
                    by_trace.take(index + 1).flatten().len() == done + by_trace[index as int].len(),
                    by_trace.take(index + 1).flatten().len() <= by_trace.flatten().len(),
                    by_trace == rows_by_trace(*response),
                    count == done + entries.take(k as int).filter_map(row).len(),
                decreases m - k,
            {
                proof {
                    entries.lemma_filter_map_take_succ(row, k as int);
                    lemma_filter_map_prefix_len(entries, row, k + 1);
                }
                if reports(&state_diffs.get(k).1.code) {
                    count = match count.checked_add(1) {
                        Some(more) => more,
                        None => {
                            return None;
                        },
                    };
                }
                k += 1;
            }
            proof {
                assert(entries.take(m as int) =~= entries);
            }
        }
        index += 1;
    }
    proof {
        assert(by_trace.take(n as int) =~= by_trace);
    }
    Some(count)
}

/// Writes the rows of a response into the buffer, under the schema registered
/// for the dataset. Without such a schema nothing is written.
pub fn process_code_diffs(
    response: &BlockTxTraces,
    columns: &mut CodeDiffs,
    schemas: &Schemas,
) -> (result: Result<(), CollectError>)
    requires
        schemas@.contains_key(Datatype::CodeDiffs) ==> old(columns).n_rows + code_diff_rows(
            *response,
        ).len() <= u64::MAX,
    ensures
        result is Ok <==> schemas@.contains_key(Datatype::CodeDiffs),
        result is Ok ==> final(columns)@ == old(columns)@.push_rows(
            schemas@[Datatype::CodeDiffs]@,
            code_diff_rows(*response),
        ),
        result is Ok && old(columns)@.consistent(schemas@[Datatype::CodeDiffs]@) ==> final(columns)@.consistent(schemas@[Datatype::CodeDiffs]@),
        result is Err ==> result == Err::<(), CollectError>(CollectError::SchemaNotProvided)
            && *final(columns) == *old(columns),
{
    let schema = match schemas.get(Datatype::CodeDiffs) {
        Some(schema) => schema,
        None => {
            return Err(CollectError::SchemaNotProvided);
        },
    };
    let block_number = &response.0;
    let txs = &response.1;
    let traces = &response.2;
    let n = if traces.len() <= txs.len() {
        traces.len()
    } else {
        txs.len()
    };
    let ghost start = columns@;
    let ghost by_trace = rows_by_trace(*response);
    let mut index: usize = 0;
    while index < n
        invariant
            index <= n,
            n == paired(*response),
            block_number == &response.0,
            txs == &response.1,
            traces == &response.2,
            by_trace == rows_by_trace(*response),
            start.n_rows + by_trace.flatten().len() <= u64::MAX,
            columns@ == start.push_rows(schema@, by_trace.take(index as int).flatten()),
        decreases n - index,
    {
        proof {
            lemma_flatten_step(by_trace, index as int);
            lemma_flatten_prefix_len(by_trace, index + 1);
        }
        process_trace(&traces[index], block_number, &txs[index], index, columns, schema);
        index += 1;
    }
    proof {
        assert(by_trace.take(n as int) =~= by_trace);
    }
    Ok(())
}

/// Writes the rows of one trace into the buffer.
fn process_trace(
    trace: &TraceResults,
    block_number: &Option<u32>,
    transaction_hash: &Option<Vec<u8>>,
    transaction_index: usize,
    columns: &mut CodeDiffs,
    schema: &Table,
)
    requires
        old(columns).n_rows + trace_rows(
            *trace,
            *block_number,
            *transaction_hash,
            transaction_index,
        ).len() <= u64::MAX,
    ensures
        final(columns)@ == old(columns)@.push_rows(
            schema@,
            trace_rows(*trace, *block_number, *transaction_hash, transaction_index),
        ),
{
    let ghost start = columns@;
    if let Some(state_diffs) = &trace.state_diff {
        let ghost entries = state_diffs.entries();
        let ghost row = entry_row(*block_number, *transaction_hash, transaction_index);
        let n = state_diffs.len();
        let mut k: usize = 0;
        while k < n
            invariant
                k <= n,
                n == entries.len(),
                entries == state_diffs.entries(),
                row == entry_row(*block_number, *transaction_hash, transaction_index),
                start.n_rows + entries.filter_map(row).len() <= u64::MAX,
                columns@ == start.push_rows(schema@, entries.take(k as int).filter_map(row)),
            decreases n - k,
        {
            proof {
                entries.lemma_filter_map_take_succ(row, k as int);
                lemma_filter_map_prefix_len(entries, row, k + 1);
            }
            let entry = state_diffs.get(k);
            process_code_diff(
                &entry.0,
                &entry.1.code,
                block_number,
                transaction_hash,
                transaction_index,
                columns,
                schema,
            );
            k += 1;
        }
        proof {
            assert(entries.take(n as int) =~= entries);
        }
    }
}

/// Writes the row of one address's code change into the buffer, where the
/// change gives a row: the row count grows by one, and each column that the
/// schema requests takes the row's value.
pub fn process_code_diff(
    addr: &Address,
    diff: &Delta,
    block_number: &Option<u32>,
    transaction_hash: &Option<Vec<u8>>,
    transaction_index: usize,
    columns: &mut CodeDiffs,
    schema: &Table,
)
    requires
        code_diff_row(*addr, *diff, *block_number, *transaction_hash, transaction_index) is Some
            ==> old(columns).n_rows < u64::MAX,
    ensures
        match code_diff_row(*addr, *diff, *block_number, *transaction_hash, transaction_index) {
            Some(row) => final(columns)@ == old(columns)@.push_row(schema@, row),
            None => *final(columns) == *old(columns),
        },
{
    // an unchanged account, and an account without code that was touched,
    // report nothing
    let (from, to) = match diff {
        Delta::Unchanged => {
            return ;
        },
        Delta::Added(value) => {
            if value.is_empty() {
                return ;
            }
            (Vec::new(), copy_bytes(value))
        },
        Delta::Removed(value) => (copy_bytes(value), Vec::new()),
        Delta::Changed(from, to) => (copy_bytes(from), copy_bytes(to)),
    };
    let address = addr.to_vec();
    proof {
        lemma_bytes_deep_view(from);
        lemma_bytes_deep_view(to);
        lemma_bytes_deep_view(address);
    }
    columns.n_rows += 1;
    store(schema, "block_number", &mut columns.block_number, *block_number);
    store(
        schema,
        "transaction_index",
        &mut columns.transaction_index,
        Some(
            #[verifier::truncate]
            (transaction_index as u32),
        ),
    );
    store(schema, "transaction_hash", &mut columns.transaction_hash, copy_hash(transaction_hash));
    store(schema, "address", &mut columns.address, address);
    store(schema, "from_value", &mut columns.from_value, from);
    store(schema, "to_value", &mut columns.to_value, to);
}

/// The buffer without rows is consistent with every schema.
pub proof fn lemma_empty_is_consistent(schema: Set<Seq<char>>)
    ensures
        CodeDiffColumns::empty().consistent(schema),
{
}

/// Writing rows keeps the buffer consistent with the schema: each column
/// that the schema requests is as long as the row count, each of the others
/// is empty.
pub proof fn lemma_push_rows_keeps_consistent(
    columns: CodeDiffColumns,
    schema: Set<Seq<char>>,
    rows: Seq<CodeDiffRow>,
)
    requires
        columns.consistent(schema),
    ensures
        columns.push_rows(schema, rows).consistent(schema),
        columns.push_rows(schema, rows).n_rows == columns.n_rows + rows.len(),
{
}

/// A column that the schema does not request is not written to, however
/// many rows there are.
pub proof fn lemma_excluded_columns_untouched(
    columns: CodeDiffColumns,
    schema: Set<Seq<char>>,
    rows: Seq<CodeDiffRow>,
)
    ensures
        !schema.contains("block_number"@) ==> columns.push_rows(schema, rows).block_number
            == columns.block_number,
        !schema.contains("transaction_index"@) ==> columns.push_rows(
            schema,
            rows,
        ).transaction_index == columns.transaction_index,
        !schema.contains("transaction_hash"@) ==> columns.push_rows(schema, rows).transaction_hash
            == columns.transaction_hash,
        !schema.contains("address"@) ==> columns.push_rows(schema, rows).address
            == columns.address,
        !schema.contains("from_value"@) ==> columns.push_rows(schema, rows).from_value
            == columns.from_value,
        !schema.contains("to_value"@) ==> columns.push_rows(schema, rows).to_value
            == columns.to_value,
        columns.push_rows(schema, rows).chain_id == columns.chain_id,
{
}

/// Code that did not change gives no row, whatever the address.
pub proof fn lemma_unchanged_gives_no_row(
    addr: Address,
    block_number: Option<u32>,
    transaction_hash: Option<Vec<u8>>,
    transaction_index: usize,
)
    ensures
        code_diff_row(addr, Delta::Unchanged, block_number, transaction_hash, transaction_index)
            is None,
{
}

/// Code that was added gives no row where it is empty, and otherwise one row
/// that goes from the empty code to the code added.
pub proof fn lemma_added_gives_row_unless_empty(
    addr: Address,
    value: Vec<u8>,
    block_number: Option<u32>,
    transaction_hash: Option<Vec<u8>>,
    transaction_index: usize,
)
    ensures
        code_diff_row(
            addr,
            Delta::Added(value),
            block_number,
            transaction_hash,
            transaction_index,
        ) == if value@.len() == 0 {
            None
        } else {
            Some(
                CodeDiffRow {
                    block_number,
                    transaction_index: Some(transaction_index as u32),
                    transaction_hash: transaction_hash.deep_view(),
                    address: addr@,
                    from_value: Seq::empty(),
                    to_value: value@,
                },
            )
        },
{
}

/// Code that was removed gives one row that goes from that code to the empty
/// code, also where the code removed is empty.
pub proof fn lemma_removed_gives_row(
    addr: Address,
    value: Vec<u8>,
    block_number: Option<u32>,
    transaction_hash: Option<Vec<u8>>,
    transaction_index: usize,
)
    ensures
        code_diff_row(
            addr,
            Delta::Removed(value),
            block_number,
            transaction_hash,
            transaction_index,
        ) == Some(
            CodeDiffRow {
                block_number,
                transaction_index: Some(transaction_index as u32),
                transaction_hash: transaction_hash.deep_view(),
                address: addr@,
                from_value: value@,
                to_value: Seq::empty(),
            },
        ),
{
}

/// Code that changed gives one row that goes from the old code to the new,
/// also where the two are the same.
pub proof fn lemma_changed_gives_row(
    addr: Address,
    from: Vec<u8>,
    to: Vec<u8>,
    block_number: Option<u32>,
    transaction_hash: Option<Vec<u8>>,
    transaction_index: usize,
)
    ensures
        code_diff_row(
            addr,
            Delta::Changed(from, to),
            block_number,
            transaction_hash,
            transaction_index,
        ) == Some(
            CodeDiffRow {
                block_number,
                transaction_index: Some(transaction_index as u32),
                transaction_hash: transaction_hash.deep_view(),
                address: addr@,
                from_value: from@,
                to_value: to@,
            },
        ),
{
}

/// Each row of a trace carries the block number, the transaction hash and
/// the transaction index that the trace was read with.
pub proof fn lemma_trace_rows_carry_context(
    trace: TraceResults,
    block_number: Option<u32>,
    transaction_hash: Option<Vec<u8>>,
    transaction_index: usize,
    row: CodeDiffRow,
)
    requires
        trace_rows(trace, block_number, transaction_hash, transaction_index).contains(row),
    ensures
        row.block_number == block_number,
        row.transaction_hash == transaction_hash.deep_view(),
        row.transaction_index == Some(transaction_index as u32),
{
    let entries = trace.state_diff->0.entries();
    let f = entry_row(block_number, transaction_hash, transaction_index);
    entries.lemma_filter_map_contains(f, row);
}

/// Each row of a response stems from one of its traces, and its transaction
/// index is the position of that trace in the response, as far as positions
/// fit the column.
pub proof fn lemma_transaction_index_is_position(response: BlockTxTraces, k: int)
    requires
        0 <= k < code_diff_rows(response).len(),
        paired(response) <= u32::MAX + 1,
    ensures
        exists|i: int|
            0 <= i < paired(response) && (#[trigger] rows_by_trace(response)[i]).contains(
                code_diff_rows(response)[k],
            ) && code_diff_rows(response)[k].transaction_index == Some(i as u32),
{
    let by_trace = rows_by_trace(response);
    let row = code_diff_rows(response)[k];
    lemma_flatten_member(by_trace, k);
    let i = choose|i: int| 0 <= i < by_trace.len() && (#[trigger] by_trace[i]).contains(row);
    lemma_trace_rows_carry_context(response.2@[i], response.0, response.1@[i], i as usize, row);
}

/// The transaction indices of the rows of a response, trace by trace: the
/// position of the trace, once for each of its rows.
pub open spec fn positions(response: BlockTxTraces) -> Seq<Seq<Option<u32>>> {
    Seq::new(
        paired(response),
        |i: int| Seq::new(rows_by_trace(response)[i].len(), |j: int| Some(i as u32)),
    )
}

/// The transaction indices of the rows of a response are the positions of
/// its traces in ascending order, each as often as its trace has rows, as
/// far as positions fit the column.
pub proof fn lemma_index_column_is_positions(response: BlockTxTraces)
    requires
        paired(response) <= u32::MAX + 1,
    ensures
        code_diff_rows(response).map_values(|row: CodeDiffRow| row.transaction_index) == positions(
            response,
        ).flatten(),
{
    lemma_index_column_prefix(response, paired(response) as int);
    assert(rows_by_trace(response).take(paired(response) as int) =~= rows_by_trace(response));
    assert(positions(response).take(paired(response) as int) =~= positions(response));
}

proof fn lemma_index_column_prefix(response: BlockTxTraces, n: int)
    requires
        paired(response) <= u32::MAX + 1,
        0 <= n <= paired(response),
    ensures
        rows_by_trace(response).take(n).flatten().map_values(
            |row: CodeDiffRow| row.transaction_index,
        ) == positions(response).take(n).flatten(),
    decreases n,
{
    let by_trace = rows_by_trace(response);
    let index = |row: CodeDiffRow| row.transaction_index;
    if n == 0 {
        assert(by_trace.take(0).flatten().map_values(index) =~= positions(response).take(
            0,
        ).flatten());
    } else {
        lemma_index_column_prefix(response, n - 1);
        lemma_flatten_step(by_trace, n - 1);
        lemma_flatten_step(positions(response), n - 1);
        let last = by_trace[n - 1];
        assert(last.map_values(index) =~= positions(response)[n - 1]) by {
            assert forall|j: int| 0 <= j < last.len() implies (#[trigger] last[j]).transaction_index
                == Some((n - 1) as u32) by {
                assert(last.contains(last[j]));
                lemma_trace_rows_carry_context(
                    response.2@[n - 1],
                    response.0,
                    response.1@[n - 1],
                    (n - 1) as usize,
                    last[j],
                );
            }
        }
        assert((by_trace.take(n - 1).flatten() + last).map_values(index) =~= by_trace.take(
            n - 1,
        ).flatten().map_values(index) + last.map_values(index));
    }
}

/// A by-block request asks the source for the very block that it carries,
/// whatever its number.
pub proof fn lemma_block_fetch_asks_for_request_block(
    request: Params,
    schemas: Schemas,
    number: u64,
)
    requires
        schemas@.contains_key(Datatype::CodeDiffs),
        request.block_number == Some(number),
    ensures
        CodeDiffs::planned_block_fetch(request, schemas) matches Ok(fetch) && fetch.block_number
            == number,
{
}

/// Where the schema leaves the transaction hashes out, a by-block request
/// does not ask the source for them, and the column of the hashes stays
/// empty whatever rows are written.
pub proof fn lemma_hashes_left_out(
    request: Params,
    schemas: Schemas,
    columns: CodeDiffColumns,
    rows: Seq<CodeDiffRow>,
)
    requires
        schemas@.contains_key(Datatype::CodeDiffs),
        !schemas@[Datatype::CodeDiffs]@.contains("transaction_hash"@),
        columns.consistent(schemas@[Datatype::CodeDiffs]@),
    ensures
        CodeDiffs::planned_block_fetch(request, schemas) matches Ok(fetch)
            ==> !fetch.include_transaction_hashes,
        columns.push_rows(schemas@[Datatype::CodeDiffs]@, rows).transaction_hash.len() == 0,
{
}

} // verus!
