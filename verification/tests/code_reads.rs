use code_traces::{
    process_code_read, process_code_reads, AccountState, Address, AddressMap, BlockFetch,
    BlockTxsTraces, CodeReads, CollectError, Datatype, Params, Schemas, Table, TransactionFetch,
};

const ALL: [&str; 6] = [
    "block_number",
    "transaction_index",
    "transaction_hash",
    "contract_address",
    "code",
    "chain_id",
];

fn table(columns: &[&str]) -> Table {
    Table::new(columns.iter().map(|c| c.to_string()).collect())
}

fn schemas(columns: &[&str]) -> Schemas {
    let mut schemas = Schemas::new();
    schemas.insert(Datatype::CodeReads, table(columns));
    schemas
}

fn address(byte: u8) -> Address {
    Address::new([byte; 20])
}

fn hash(byte: u8) -> Vec<u8> {
    vec![byte; 32]
}

fn prestate(entries: Vec<(Address, Option<Vec<u8>>)>) -> AddressMap<AccountState> {
    let mut map = AddressMap::new();
    for (addr, code) in entries {
        map.insert(addr, AccountState { code });
    }
    map
}

#[test]
fn transaction_response_with_empty_code_gives_one_row() {
    let response: BlockTxsTraces = (
        Some(12),
        vec![Some(hash(0x44))],
        vec![prestate(vec![(address(0xA1), Some(vec![]))])],
    );
    let mut columns = CodeReads::default();
    let result = process_code_reads(&response, &mut columns, &schemas(&ALL));
    assert_eq!(result, Ok(()));
    assert_eq!(columns.n_rows, 1);
    assert_eq!(columns.code, vec![Vec::<u8>::new()]);
    assert_eq!(columns.contract_address, vec![vec![0xA1; 20]]);
    assert_eq!(columns.block_number, vec![Some(12)]);
    assert_eq!(columns.transaction_index, vec![Some(0)]);
    assert_eq!(columns.transaction_hash, vec![Some(hash(0x44))]);
    assert!(columns.chain_id.is_empty());
}

#[test]
fn code_read_emits_exactly_where_code_is_present() {
    let cases: [(Option<Vec<u8>>, u64); 3] =
        [(None, 0), (Some(vec![]), 1), (Some(vec![0x60, 0x00]), 1)];
    for (code, rows) in cases {
        let mut columns = CodeReads::default();
        process_code_read(
            &address(0x01),
            &AccountState { code: code.clone() },
            &Some(9),
            &None,
            4,
            &mut columns,
            &table(&ALL),
        );
        assert_eq!(columns.n_rows, rows);
        match code {
            Some(code) => {
                assert_eq!(columns.code, vec![code]);
                assert_eq!(columns.contract_address, vec![vec![0x01; 20]]);
                assert_eq!(columns.block_number, vec![Some(9)]);
                assert_eq!(columns.transaction_index, vec![Some(4)]);
                assert_eq!(columns.transaction_hash, vec![None]);
            }
            None => {
                assert!(columns.code.is_empty());
                assert!(columns.contract_address.is_empty());
                assert!(columns.block_number.is_empty());
                assert!(columns.transaction_index.is_empty());
                assert!(columns.transaction_hash.is_empty());
            }
        }
    }
}

fn two_traces() -> BlockTxsTraces {
    (
        None,
        vec![Some(hash(0x01)), None],
        vec![
            prestate(vec![
                (address(0x09), Some(vec![1, 2])),
                (address(0x03), None),
                (address(0x01), Some(vec![])),
            ]),
            prestate(vec![(address(0x02), Some(vec![7]))]),
        ],
    )
}

#[test]
fn code_read_index_is_the_position_of_the_trace() {
    let mut columns = CodeReads::default();
    process_code_reads(&two_traces(), &mut columns, &schemas(&ALL)).unwrap();
    assert_eq!(columns.n_rows, 3);
    assert_eq!(columns.transaction_index, vec![Some(0), Some(0), Some(1)]);
    assert_eq!(columns.transaction_hash, vec![Some(hash(0x01)), Some(hash(0x01)), None]);
    assert_eq!(columns.block_number, vec![None, None, None]);
    assert_eq!(
        columns.contract_address,
        vec![vec![0x01; 20], vec![0x09; 20], vec![0x02; 20]]
    );
    assert_eq!(columns.code, vec![vec![], vec![1, 2], vec![7]]);
}

#[test]
fn code_read_columns_follow_the_schema() {
    let subsets: [&[&str]; 4] =
        [&[], &["code"], &["contract_address", "transaction_hash"], &ALL];
    for subset in subsets {
        let mut columns = CodeReads::default();
        process_code_reads(&two_traces(), &mut columns, &schemas(subset)).unwrap();
        assert_eq!(columns.n_rows, 3);
        let expect = |name: &str| if subset.contains(&name) { 3 } else { 0 };
        assert_eq!(columns.block_number.len(), expect("block_number"));
        assert_eq!(columns.transaction_index.len(), expect("transaction_index"));
        assert_eq!(columns.transaction_hash.len(), expect("transaction_hash"));
        assert_eq!(columns.contract_address.len(), expect("contract_address"));
        assert_eq!(columns.code.len(), expect("code"));
        assert_eq!(columns.chain_id.len(), 0);
    }
}

#[test]
fn code_read_without_schema_leaves_the_buffer_untouched() {
    let mut columns = CodeReads::default();
    process_code_reads(&two_traces(), &mut columns, &schemas(&ALL)).unwrap();
    let mut only_diffs = Schemas::new();
    only_diffs.insert(Datatype::CodeDiffs, table(&ALL));
    let result = process_code_reads(&two_traces(), &mut columns, &only_diffs);
    assert_eq!(result, Err(CollectError::SchemaNotProvided));
    assert_eq!(columns.n_rows, 3);
    assert_eq!(columns.code.len(), 3);
    let result = CodeReads::transform(two_traces(), &mut columns, &only_diffs);
    assert_eq!(result, Err(CollectError::SchemaNotProvided));
    assert_eq!(columns.n_rows, 3);
}

#[test]
fn code_read_transform_writes_the_rows() {
    let mut columns = CodeReads::default();
    assert_eq!(CodeReads::transform(two_traces(), &mut columns, &schemas(&["code"])), Ok(()));
    assert_eq!(columns.n_rows, 3);
    assert_eq!(columns.code, vec![vec![], vec![1, 2], vec![7]]);
    assert!(columns.contract_address.is_empty());
}

#[test]
fn code_read_transform_refuses_rows_beyond_the_row_count() {
    let mut columns = CodeReads::default();
    columns.n_rows = u64::MAX - 1;
    let result = CodeReads::transform(two_traces(), &mut columns, &schemas(&ALL));
    assert_eq!(result, Err(CollectError::RowCountOverflow));
    assert_eq!(columns.n_rows, u64::MAX - 1);
    assert!(columns.code.is_empty());
    assert_eq!(code_traces::code_reads::count_code_read_rows(&two_traces()), Some(3));
}

#[test]
fn code_read_block_fetch_follows_the_schema() {
    let request = Params { block_number: Some(77), transaction_hash: None };
    assert_eq!(
        CodeReads::block_fetch(&request, &schemas(&ALL)),
        Ok(BlockFetch { block_number: 77, include_transaction_hashes: true })
    );
    assert_eq!(
        CodeReads::block_fetch(&request, &schemas(&["code", "block_number"])),
        Ok(BlockFetch { block_number: 77, include_transaction_hashes: false })
    );
    assert_eq!(
        CodeReads::block_fetch(&request, &Schemas::new()),
        Err(CollectError::SchemaNotProvided)
    );
    let request = Params { block_number: None, transaction_hash: None };
    assert_eq!(
        CodeReads::block_fetch(&request, &schemas(&ALL)),
        Err(CollectError::BlockNumberNotProvided)
    );
    let mut columns = CodeReads::default();
    process_code_reads(&two_traces(), &mut columns, &schemas(&["code", "block_number"])).unwrap();
    assert_eq!(columns.n_rows, 3);
    assert_eq!(columns.transaction_hash.len(), 0);
}

#[test]
fn code_read_block_fetch_asks_for_the_block_of_the_request() {
    for number in [0u64, 77, 0xFFFF_FFFF, 0x1_0000_0000, 0x1_0000_0064, u64::MAX] {
        let request = Params { block_number: Some(number), transaction_hash: None };
        assert_eq!(
            CodeReads::block_fetch(&request, &schemas(&["code"])),
            Ok(BlockFetch { block_number: number, include_transaction_hashes: false })
        );
    }
}

#[test]
fn code_read_transaction_fetch_follows_the_schema() {
    let request = Params { block_number: None, transaction_hash: Some(hash(0x0F)) };
    assert_eq!(
        CodeReads::transaction_fetch(&request, &schemas(&ALL)),
        Ok(TransactionFetch { transaction_hash: hash(0x0F), include_block_number: true })
    );
    assert_eq!(
        CodeReads::transaction_fetch(&request, &schemas(&["code"])),
        Ok(TransactionFetch { transaction_hash: hash(0x0F), include_block_number: false })
    );
    assert_eq!(
        CodeReads::transaction_fetch(&request, &Schemas::new()),
        Err(CollectError::SchemaNotProvided)
    );
    let request = Params { block_number: Some(1), transaction_hash: None };
    assert_eq!(
        CodeReads::transaction_fetch(&request, &schemas(&ALL)),
        Err(CollectError::TransactionHashNotProvided)
    );
    assert_eq!(
        CodeReads::transaction_fetch(&request, &Schemas::new()),
        Err(CollectError::SchemaNotProvided)
    );
}
