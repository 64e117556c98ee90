//! Contract code as it was before execution, taken from pre-state traces.

use crate::address::{Address, AddressMap};
use crate::columns::{copy_bytes, copy_hash, lemma_bytes_deep_view, store};
use crate::error::CollectError;
use crate::request::{BlockFetch, Params, TransactionFetch};
use crate::schema::{Datatype, Schemas, Table};
use crate::sequences::{
    lemma_filter_map_prefix_len, lemma_flatten_member, lemma_flatten_prefix_len,
    lemma_flatten_step,
};
use crate::trace::AccountState;
use vstd::prelude::*;

verus! {

/// The columns of the code-reads dataset, as filled for one request.
pub struct CodeReads {
    pub n_rows: u64,
    pub block_number: Vec<Option<u32>>,
    pub transaction_index: Vec<Option<u32>>,
    pub transaction_hash: Vec<Option<Vec<u8>>>,
    pub contract_address: Vec<Vec<u8>>,
    pub code: Vec<Vec<u8>>,
    pub chain_id: Vec<u64>,
}

/// The pre-state traces of one block or of one transaction: the block
/// number, and for each traced transaction its hash and the accounts that it
/// touched, at the same position.
pub type BlockTxsTraces = (Option<u32>, Vec<Option<Vec<u8>>>, Vec<AddressMap<AccountState>>);

/// One row of the dataset.
#[verifier::ext_equal]
pub struct CodeReadRow {
    pub block_number: Option<u32>,
    pub transaction_index: Option<u32>,
    pub transaction_hash: Option<Seq<u8>>,
    pub contract_address: Seq<u8>,
    pub code: Seq<u8>,
}

/// What a `CodeReads` buffer holds.
#[verifier::ext_equal]
pub struct CodeReadColumns {
    pub n_rows: nat,
    pub block_number: Seq<Option<u32>>,
    pub transaction_index: Seq<Option<u32>>,
    pub transaction_hash: Seq<Option<Seq<u8>>>,
    pub contract_address: Seq<Seq<u8>>,
    pub code: Seq<Seq<u8>>,
    pub chain_id: Seq<u64>,
}

impl View for CodeReads {
    type V = CodeReadColumns;

    open spec fn view(&self) -> CodeReadColumns {
        CodeReadColumns {
            n_rows: self.n_rows as nat,
            block_number: self.block_number@,
            transaction_index: self.transaction_index@,
            transaction_hash: self.transaction_hash.deep_view(),
            contract_address: self.contract_address.deep_view(),
            code: self.code.deep_view(),
            chain_id: self.chain_id@,
        }
    }
}

impl CodeReadColumns {
    /// The buffer without rows.
    pub open spec fn empty() -> CodeReadColumns {
        CodeReadColumns {
            n_rows: 0,
            block_number: Seq::empty(),
            transaction_index: Seq::empty(),
            transaction_hash: Seq::empty(),
            contract_address: Seq::empty(),
            code: Seq::empty(),
            chain_id: Seq::empty(),
        }
    }

    /// The buffer after the rows are written under the schema: the row count
    /// grows by their number, each requested column by their values in order,
    /// and every other column stays as it is.
    pub open spec fn push_rows(
        self,
        schema: Set<Seq<char>>,
        rows: Seq<CodeReadRow>,
    ) -> CodeReadColumns {
        CodeReadColumns {
            n_rows: self.n_rows + rows.len(),
            block_number: if schema.contains("block_number"@) {
                self.block_number + rows.map_values(|row: CodeReadRow| row.block_number)
            } else {
                self.block_number
            },
            transaction_index: if schema.contains("transaction_index"@) {
                self.transaction_index + rows.map_values(|row: CodeReadRow| row.transaction_index)
            } else {
                self.transaction_index
            },
            transaction_hash: if schema.contains("transaction_hash"@) {
                self.transaction_hash + rows.map_values(|row: CodeReadRow| row.transaction_hash)
            } else {
                self.transaction_hash
            },
            contract_address: if schema.contains("contract_address"@) {
                self.contract_address + rows.map_values(|row: CodeReadRow| row.contract_address)
            } else {
                self.contract_address
            },
            code: if schema.contains("code"@) {
                self.code + rows.map_values(|row: CodeReadRow| row.code)
            } else {
                self.code
            },
            chain_id: self.chain_id,
        }
    }

    /// The buffer after one row is written under the schema.
    pub open spec fn push_row(self, schema: Set<Seq<char>>, row: CodeReadRow) -> CodeReadColumns {
        self.push_rows(schema, seq![row])
    }

    /// Whether each column that rows are written to is as long as the row
    /// count where the schema requests it, and empty where it does not.
    pub open spec fn consistent(self, schema: Set<Seq<char>>) -> bool {
        &&& self.block_number.len() == if schema.contains("block_number"@) {
            self.n_rows
        } else {
            0
        }
        &&& self.transaction_index.len() == if schema.contains("transaction_index"@) {
            self.n_rows
        } else {
            0
        }
        &&& self.transaction_hash.len() == if schema.contains("transaction_hash"@) {
            self.n_rows
        } else {
            0
        }
        &&& self.contract_address.len() == if schema.contains("contract_address"@) {
            self.n_rows
        } else {
            0
        }
        &&& self.code.len() == if schema.contains("code"@) {
            self.n_rows
        } else {
            0
        }
    }
}

/// The row that the state of one account gives: one where the code is
/// present, be it empty, and none where it is absent.
pub open spec fn code_read_row(
    addr: Address,
    account_state: AccountState,
    block_number: Option<u32>,
    transaction_hash: Option<Vec<u8>>,
    transaction_index: usize,
) -> Option<CodeReadRow> {
    match account_state.code {
        Some(code) => Some(
            CodeReadRow {
                block_number,
                transaction_index: Some(transaction_index as u32),
                transaction_hash: transaction_hash.deep_view(),
                contract_address: addr@,
                code: code@,
            },
        ),
        None => None,
    }
}

/// The function from an account of a trace to its row, for one trace.
pub open spec fn account_row(
    block_number: Option<u32>,
    transaction_hash: Option<Vec<u8>>,
    transaction_index: usize,
) -> spec_fn((Address, AccountState)) -> Option<CodeReadRow> {
    |entry: (Address, AccountState)|
        code_read_row(entry.0, entry.1, block_number, transaction_hash, transaction_index)
}

/// The rows of one trace: those of its accounts, in the order of the trace.
pub open spec fn trace_rows(
    trace: AddressMap<AccountState>,
    block_number: Option<u32>,
    transaction_hash: Option<Vec<u8>>,
    transaction_index: usize,
) -> Seq<CodeReadRow> {
    trace.entries().filter_map(account_row(block_number, transaction_hash, transaction_index))
}

/// The number of traces of the response that have a transaction hash at
/// their position.
pub open spec fn paired(response: BlockTxsTraces) -> nat {
    if response.2@.len() <= response.1@.len() {
        response.2@.len()
    } else {
        response.1@.len()
    }
}

/// The rows of each trace of the response, with the position of the trace as
/// the transaction index.
pub open spec fn rows_by_trace(response: BlockTxsTraces) -> Seq<Seq<CodeReadRow>> {
    Seq::new(
        paired(response),
        |i: int| trace_rows(response.2@[i], response.0, response.1@[i], i as usize),
    )
}

/// The rows of the response: those of its traces, one trace after the other.
pub open spec fn code_read_rows(response: BlockTxsTraces) -> Seq<CodeReadRow> {
    rows_by_trace(response).flatten()
}

impl Default for CodeReads {
    /// The buffer without rows.
    fn default() -> (columns: CodeReads)
        ensures
            columns@ == CodeReadColumns::empty(),
    {
        let columns = CodeReads {
            n_rows: 0,
            block_number: Vec::new(),
            transaction_index: Vec::new(),
            transaction_hash: Vec::new(),
            contract_address: Vec::new(),
            code: Vec::new(),
            chain_id: Vec::new(),
        };
        columns
    }
}

impl CodeReads {
    /// What a by-block request asks of the source: the block of the request,
    /// with the transaction hashes only where the schema requests them.
    pub open spec fn planned_block_fetch(
        request: Params,
        schemas: Schemas,
    ) -> Result<BlockFetch, CollectError> {
        if !schemas@.contains_key(Datatype::CodeReads) {
            Err(CollectError::SchemaNotProvided)
        } else {
            match request.block_number {
                Some(number) => Ok(
                    BlockFetch {
                        block_number: number,
                        include_transaction_hashes: schemas@[Datatype::CodeReads]@.contains(
                            "transaction_hash"@,
                        ),
                    },
                ),
                None => Err(CollectError::BlockNumberNotProvided),
            }
        }
    }

    /// Decides what to fetch for a by-block request.
    pub fn block_fetch(request: &Params, schemas: &Schemas) -> (result: Result<
        BlockFetch,
        CollectError,
    >)
        ensures
            result == Self::planned_block_fetch(*request, *schemas),
    {
        let schema = match schemas.get(Datatype::CodeReads) {
            Some(schema) => schema,
            None => {
                return Err(CollectError::SchemaNotProvided);
            },
        };
        let include_txs = schema.has_column("transaction_hash");
        let number = match request.block_number() {
            Ok(number) => number,
            Err(e) => {
                return Err(e);
            },
        };
        Ok(
            BlockFetch {
                block_number: number,
                include_transaction_hashes: include_txs,
            },
        )
    }

    /// Decides what to fetch for a by-transaction request: the transaction of
    /// the request, with the block number only where the schema requests it.
    /// A missing schema is reported before a missing transaction hash.
    pub fn transaction_fetch(request: &Params, schemas: &Schemas) -> (result: Result<
        TransactionFetch,
        CollectError,
    >)
        ensures
            match result {
                Ok(fetch) => {
                    &&& schemas@.contains_key(Datatype::CodeReads)
                    &&& request.transaction_hash matches Some(hash)
                    &&& fetch.transaction_hash@ == hash@
                    &&& fetch.include_block_number == schemas@[Datatype::CodeReads]@.contains(
                        "block_number"@,
                    )
                },
                Err(e) => e == if !schemas@.contains_key(Datatype::CodeReads) {
                    CollectError::SchemaNotProvided
                } else {
                    CollectError::TransactionHashNotProvided
                } && (schemas@.contains_key(Datatype::CodeReads)
                    ==> request.transaction_hash is None),
            },
    {
        let schema = match schemas.get(Datatype::CodeReads) {
            Some(schema) => schema,
            None => {
                return Err(CollectError::SchemaNotProvided);
            },
        };
        let include_block_number = schema.has_column("block_number");
        let tx = match request.transaction_hash() {
            Ok(tx) => tx,
            Err(e) => {
                return Err(e);
            },
        };
        Ok(TransactionFetch { transaction_hash: tx, include_block_number })
    }

    /// Writes the rows of a response, however it was fetched, into the
    /// buffer. Nothing is written where no schema is registered for the
    /// dataset, or where the row count would no longer fit.
    pub fn transform(response: BlockTxsTraces, columns: &mut CodeReads, schemas: &Schemas) -> (result:
        Result<(), CollectError>)
        ensures
            match result {
                Ok(_) => {
                    &&& schemas@.contains_key(Datatype::CodeReads)
                    &&& old(columns).n_rows + code_read_rows(response).len() <= u64::MAX
                    &&& final(columns)@ == old(columns)@.push_rows(
                        schemas@[Datatype::CodeReads]@,
                        code_read_rows(response),
                    )
                    &&& old(columns)@.consistent(schemas@[Datatype::CodeReads]@)
                        ==> final(columns)@.consistent(schemas@[Datatype::CodeReads]@)
                },
                Err(e) => {
                    &&& *final(columns) == *old(columns)
                    &&& e == if !schemas@.contains_key(Datatype::CodeReads) {
                        CollectError::SchemaNotProvided
                    } else {
                        CollectError::RowCountOverflow
                    }
                    &&& schemas@.contains_key(Datatype::CodeReads) ==> old(columns).n_rows
                        + code_read_rows(response).len() > u64::MAX
                },
            },
    {
        if schemas.get(Datatype::CodeReads).is_none() {
            return Err(CollectError::SchemaNotProvided);
        }
        let fits = match count_code_read_rows(&response) {
            Some(count) => count <= u64::MAX - columns.n_rows,
            None => false,
        };
        if !fits {
            return Err(CollectError::RowCountOverflow);
        }
        process_code_reads(&response, columns, schemas)
    }
}

/// The number of rows of a response, or `None` where it is beyond `u64`.
pub fn count_code_read_rows(response: &BlockTxsTraces) -> (count: Option<u64>)
    ensures
        match count {
            Some(number) => number == code_read_rows(*response).len(),
            None => code_read_rows(*response).len() > u64::MAX,
        },
{
    let txs = &response.1;
    let traces = &response.2;
    let n = if traces.len() <= txs.len() {
        traces.len()
    } else {
        txs.len()
    };
    let ghost by_trace = rows_by_trace(*response);
    let mut count: u64 = 0;
    let mut index: usize = 0;
    while index < n
        invariant
            index <= n,
            n == paired(*response),
            txs == &response.1,
            traces == &response.2,
            by_trace == rows_by_trace(*response),
            count == by_trace.take(index as int).flatten().len(),
        decreases n - index,
    {
        proof {
            lemma_flatten_step(by_trace, index as int);
            lemma_flatten_prefix_len(by_trace, index + 1);
        }
        let trace = &traces[index];
        let ghost entries = trace.entries();
        let ghost row = account_row(response.0, txs@[index as int], index);
        let ghost done = by_trace.take(index as int).flatten().len();
        let m = trace.len();
        let mut k: usize = 0;
        while k < m
            invariant
                k <= m,
                m == entries.len(),
                entries == trace.entries(),
                row == account_row(response.0, txs@[index as int], index as usize),
                0 <= index < by_trace.len(),
                by_trace[index as int] == entries.filter_map(row),
                by_trace.take(index + 1).flatten().len() == done + by_trace[index as int].len(),
                by_trace.take(index + 1).flatten().len() <= by_trace.flatten().len(),
                by_trace == rows_by_trace(*response),
                count == done + entries.take(k as int).filter_map(row).len(),
            decreases m - k,
        {
            proof {
                entries.lemma_filter_map_take_succ(row, k as int);
                lemma_filter_map_prefix_len(entries, row, k + 1);
            }
            if trace.get(k).1.code.is_some() {
                count = match count.checked_add(1) {
                    Some(more) => more,
                    None => {
                        return None;
                    },
                };
            }
            k += 1;
        }
        proof {
            assert(entries.take(m as int) =~= entries);
        }
        index += 1;
    }
    proof {
        assert(by_trace.take(n as int) =~= by_trace);
    }
    Some(count)
}

/// Writes the rows of a response into the buffer, under the schema registered
/// for the dataset. Without such a schema nothing is written.
pub fn process_code_reads(
    response: &BlockTxsTraces,
    columns: &mut CodeReads,
    schemas: &Schemas,
) -> (result: Result<(), CollectError>)
    requires
        schemas@.contains_key(Datatype::CodeReads) ==> old(columns).n_rows + code_read_rows(
            *response,
        ).len() <= u64::MAX,
    ensures
        result is Ok <==> schemas@.contains_key(Datatype::CodeReads),
        result is Ok ==> final(columns)@ == old(columns)@.push_rows(
            schemas@[Datatype::CodeReads]@,
            code_read_rows(*response),
        ),
        result is Ok && old(columns)@.consistent(schemas@[Datatype::CodeReads]@)
            ==> final(columns)@.consistent(schemas@[Datatype::CodeReads]@),
        result is Err ==> result == Err::<(), CollectError>(CollectError::SchemaNotProvided)
            && *final(columns) == *old(columns),
{
    let schema = match schemas.get(Datatype::CodeReads) {
        Some(schema) => schema,
        None => {
            return Err(CollectError::SchemaNotProvided);
        },
    };
    let block_number = &response.0;
    let txs = &response.1;
    let traces = &response.2;
    let n = if traces.len() <= txs.len() {
        traces.len()
    } else {
        txs.len()
    };
    let ghost start = columns@;
    let ghost by_trace = rows_by_trace(*response);
    let mut index: usize = 0;
    while index < n
        invariant
            index <= n,
            n == paired(*response),
            block_number == &response.0,
            txs == &response.1,
            traces == &response.2,
            by_trace == rows_by_trace(*response),
            start.n_rows + by_trace.flatten().len() <= u64::MAX,
            columns@ == start.push_rows(schema@, by_trace.take(index as int).flatten()),
        decreases n - index,
    {
        proof {
            lemma_flatten_step(by_trace, index as int);
            lemma_flatten_prefix_len(by_trace, index + 1);
        }
        process_trace(&traces[index], block_number, &txs[index], index, columns, schema);
        index += 1;
    }
    proof {
        assert(by_trace.take(n as int) =~= by_trace);
    }
    Ok(())
}

/// Writes the rows of one trace into the buffer.
fn process_trace(
    trace: &AddressMap<AccountState>,
    block_number: &Option<u32>,
    transaction_hash: &Option<Vec<u8>>,
    transaction_index: usize,
    columns: &mut CodeReads,
    schema: &Table,
)
    requires
        old(columns).n_rows + trace_rows(
            *trace,
            *block_number,
            *transaction_hash,
            transaction_index,
        ).len() <= u64::MAX,
    ensures
        final(columns)@ == old(columns)@.push_rows(
            schema@,
            trace_rows(*trace, *block_number, *transaction_hash, transaction_index),
        ),
{
    let ghost start = columns@;
    let ghost entries = trace.entries();
    let ghost row = account_row(*block_number, *transaction_hash, transaction_index);
    let n = trace.len();
    let mut k: usize = 0;
    while k < n
        invariant
            k <= n,
            n == entries.len(),
            entries == trace.entries(),
            row == account_row(*block_number, *transaction_hash, transaction_index),
            start.n_rows + entries.filter_map(row).len() <= u64::MAX,
            columns@ == start.push_rows(schema@, entries.take(k as int).filter_map(row)),
        decreases n - k,
    {
        proof {
            entries.lemma_filter_map_take_succ(row, k as int);
            lemma_filter_map_prefix_len(entries, row, k + 1);
        }
        let entry = trace.get(k);
        process_code_read(
            &entry.0,
            &entry.1,
            block_number,
            transaction_hash,
            transaction_index,
            columns,
            schema,
        );
        k += 1;
    }
    proof {
        assert(entries.take(n as int) =~= entries);
    }
}

/// Writes the row of one account's code into the buffer, where the code is
/// present: the row count grows by one, and each column that the schema
/// requests takes the row's value.
pub fn process_code_read(
    addr: &Address,
    account_state: &AccountState,
    block_number: &Option<u32>,
    transaction_hash: &Option<Vec<u8>>,
    transaction_index: usize,
    columns: &mut CodeReads,
    schema: &Table,
)
    requires
        account_state.code is Some ==> old(columns).n_rows < u64::MAX,
    ensures
        match code_read_row(
            *addr,
            *account_state,
            *block_number,
            *transaction_hash,
            transaction_index,
        ) {
            Some(row) => final(columns)@ == old(columns)@.push_row(schema@, row),
            None => *final(columns) == *old(columns),
        },
{
    if let Some(code) = &account_state.code {
        let code = copy_bytes(code);
        let address = addr.to_vec();
        proof {
            lemma_bytes_deep_view(address);
        }
        columns.n_rows += 1;
        store(schema, "block_number", &mut columns.block_number, *block_number);
        store(
            schema,
            "transaction_index",
            &mut columns.transaction_index,
            Some(
                #[verifier::truncate]
                (transaction_index as u32),
            ),
        );
        store(
            schema,
            "transaction_hash",
            &mut columns.transaction_hash,
            copy_hash(transaction_hash),
        );
        store(schema, "contract_address", &mut columns.contract_address, address);
        store(schema, "code", &mut columns.code, code);
    }
}

/// The buffer without rows is consistent with every schema.
pub proof fn lemma_empty_is_consistent(schema: Set<Seq<char>>)
    ensures
        CodeReadColumns::empty().consistent(schema),
{
}

/// Writing rows keeps the buffer consistent with the schema: each column
/// that the schema requests is as long as the row count, each of the others
/// is empty.
pub proof fn lemma_push_rows_keeps_consistent(
    columns: CodeReadColumns,
    schema: Set<Seq<char>>,
    rows: Seq<CodeReadRow>,
)
    requires
        columns.consistent(schema),
    ensures
        columns.push_rows(schema, rows).consistent(schema),
        columns.push_rows(schema, rows).n_rows == columns.n_rows + rows.len(),
{
}

/// A column that the schema does not request is not written to, however
/// many rows there are.
pub proof fn lemma_excluded_columns_untouched(
    columns: CodeReadColumns,
    schema: Set<Seq<char>>,
    rows: Seq<CodeReadRow>,
)
    ensures
        !schema.contains("block_number"@) ==> columns.push_rows(schema, rows).block_number
            == columns.block_number,
        !schema.contains("transaction_index"@) ==> columns.push_rows(
            schema,
            rows,
        ).transaction_index == columns.transaction_index,
        !schema.contains("transaction_hash"@) ==> columns.push_rows(schema, rows).transaction_hash
            == columns.transaction_hash,
        !schema.contains("contract_address"@) ==> columns.push_rows(schema, rows).contract_address
            == columns.contract_address,
        !schema.contains("code"@) ==> columns.push_rows(schema, rows).code == columns.code,
        columns.push_rows(schema, rows).chain_id == columns.chain_id,
{
}

/// An account gives a row exactly where its code is present; code that is
/// present and empty gives a row with the empty code.
pub proof fn lemma_row_iff_code_present(
    addr: Address,
    account_state: AccountState,
    block_number: Option<u32>,
    transaction_hash: Option<Vec<u8>>,
    transaction_index: usize,
)
    ensures
        code_read_row(addr, account_state, block_number, transaction_hash, transaction_index)
            is Some <==> account_state.code is Some,
        account_state.code matches Some(code) ==> code_read_row(
            addr,
            account_state,
            block_number,
            transaction_hash,
            transaction_index,
        ) == Some(
            CodeReadRow {
                block_number,
                transaction_index: Some(transaction_index as u32),
                transaction_hash: transaction_hash.deep_view(),
                contract_address: addr@,
                code: code@,
            },
        ),
{
}

/// Each row of a trace carries the block number, the transaction hash and
/// the transaction index that the trace was read with.
pub proof fn lemma_trace_rows_carry_context(
    trace: AddressMap<AccountState>,
    block_number: Option<u32>,
    transaction_hash: Option<Vec<u8>>,
    transaction_index: usize,
    row: CodeReadRow,
)
    requires
        trace_rows(trace, block_number, transaction_hash, transaction_index).contains(row),
    ensures
        row.block_number == block_number,
        row.transaction_hash == transaction_hash.deep_view(),
        row.transaction_index == Some(transaction_index as u32),
{
    let f = account_row(block_number, transaction_hash, transaction_index);
    trace.entries().lemma_filter_map_contains(f, row);
}

/// Each row of a response stems from one of its traces, and its transaction
/// index is the position of that trace in the response, as far as positions
/// fit the column.
pub proof fn lemma_transaction_index_is_position(response: BlockTxsTraces, k: int)
    requires
        0 <= k < code_read_rows(response).len(),
        paired(response) <= u32::MAX + 1,
    ensures
        exists|i: int|
            0 <= i < paired(response) && (#[trigger] rows_by_trace(response)[i]).contains(
                code_read_rows(response)[k],
            ) && code_read_rows(response)[k].transaction_index == Some(i as u32),
{
    let by_trace = rows_by_trace(response);
    let row = code_read_rows(response)[k];
    lemma_flatten_member(by_trace, k);
    let i = choose|i: int| 0 <= i < by_trace.len() && (#[trigger] by_trace[i]).contains(row);
    lemma_trace_rows_carry_context(response.2@[i], response.0, response.1@[i], i as usize, row);
}

/// The transaction indices of the rows of a response, trace by trace: the
/// position of the trace, once for each of its rows.
pub open spec fn positions(response: BlockTxsTraces) -> Seq<Seq<Option<u32>>> {
    Seq::new(
        paired(response),
        |i: int| Seq::new(rows_by_trace(response)[i].len(), |j: int| Some(i as u32)),
    )
}

/// The transaction indices of the rows of a response are the positions of
/// its traces in ascending order, each as often as its trace has rows, as
/// far as positions fit the column.
pub proof fn lemma_index_column_is_positions(response: BlockTxsTraces)
    requires
        paired(response) <= u32::MAX + 1,
    ensures
        code_read_rows(response).map_values(|row: CodeReadRow| row.transaction_index) == positions(
            response,
        ).flatten(),
{
    lemma_index_column_prefix(response, paired(response) as int);
    assert(rows_by_trace(response).take(paired(response) as int) =~= rows_by_trace(response));
    assert(positions(response).take(paired(response) as int) =~= positions(response));
}

proof fn lemma_index_column_prefix(response: BlockTxsTraces, n: int)
    requires
        paired(response) <= u32::MAX + 1,
        0 <= n <= paired(response),
    ensures
        rows_by_trace(response).take(n).flatten().map_values(
            |row: CodeReadRow| row.transaction_index,
        ) == positions(response).take(n).flatten(),
    decreases n,
{
    let by_trace = rows_by_trace(response);
    let index = |row: CodeReadRow| row.transaction_index;
    if n == 0 {
        assert(by_trace.take(0).flatten().map_values(index) =~= positions(response).take(
            0,
        ).flatten());
    } else {
        lemma_index_column_prefix(response, n - 1);
        lemma_flatten_step(by_trace, n - 1);
        lemma_flatten_step(positions(response), n - 1);
        let last = by_trace[n - 1];
        assert(last.map_values(index) =~= positions(response)[n - 1]) by {
            assert forall|j: int| 0 <= j < last.len() implies (#[trigger] last[j]).transaction_index
                == Some((n - 1) as u32) by {
                assert(last.contains(last[j]));
                lemma_trace_rows_carry_context(
                    response.2@[n - 1],
                    response.0,
                    response.1@[n - 1],
                    (n - 1) as usize,
                    last[j],
                );
            }
        }
        assert((by_trace.take(n - 1).flatten() + last).map_values(index) =~= by_trace.take(
            n - 1,
        ).flatten().map_values(index) + last.map_values(index));
    }
}

/// A by-block request asks the source for the very block that it carries,
/// whatever its number.
pub proof fn lemma_block_fetch_asks_for_request_block(
    request: Params,
    schemas: Schemas,
    number: u64,
)
    requires
        schemas@.contains_key(Datatype::CodeReads),
        request.block_number == Some(number),
    ensures
        CodeReads::planned_block_fetch(request, schemas) matches Ok(fetch) && fetch.block_number
            == number,
{
}

/// Where the schema leaves the transaction hashes out, a by-block request
/// does not ask the source for them, and the column of the hashes stays
/// empty whatever rows are written.
pub proof fn lemma_hashes_left_out(
    request: Params,
    schemas: Schemas,
    columns: CodeReadColumns,
    rows: Seq<CodeReadRow>,
)
    requires
        schemas@.contains_key(Datatype::CodeReads),
        !schemas@[Datatype::CodeReads]@.contains("transaction_hash"@),
        columns.consistent(schemas@[Datatype::CodeReads]@),
    ensures
        CodeReads::planned_block_fetch(request, schemas) matches Ok(fetch)
            ==> !fetch.include_transaction_hashes,
        columns.push_rows(schemas@[Datatype::CodeReads]@, rows).transaction_hash.len() == 0,
{
}

} // verus!
