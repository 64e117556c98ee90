use code_traces::{Address, AddressMap, CollectError, Datatype, Params, Schemas, Table};

fn address(bytes: [u8; 2]) -> Address {
    let mut all = [0u8; 20];
    all[0] = bytes[0];
    all[19] = bytes[1];
    Address::new(all)
}

fn walk(map: &AddressMap<u32>) -> Vec<(Address, u32)> {
    (0..map.len()).map(|i| *map.get(i)).collect()
}

#[test]
fn address_bytes_come_back_in_order() {
    let mut bytes = [0u8; 20];
    for (i, byte) in bytes.iter_mut().enumerate() {
        *byte = i as u8 + 1;
    }
    let addr = Address::new(bytes);
    assert_eq!(addr.to_vec(), (1u8..=20).collect::<Vec<u8>>());
    assert_eq!(addr.bytes, bytes);
}

#[test]
fn addresses_are_ordered_byte_by_byte() {
    let low = address([0x01, 0xFF]);
    let high = address([0x02, 0x00]);
    assert!(low.precedes(&high));
    assert!(!high.precedes(&low));
    assert!(!low.precedes(&low));
    assert!(address([0x01, 0x00]).precedes(&address([0x01, 0x01])));
    assert!(!address([0x01, 0x01]).precedes(&address([0x01, 0x00])));
}

#[test]
fn address_map_is_walked_in_ascending_order() {
    let mut map = AddressMap::new();
    assert_eq!(map.len(), 0);
    assert_eq!(map.insert(address([5, 0]), 50), None);
    assert_eq!(map.insert(address([1, 0]), 10), None);
    assert_eq!(map.insert(address([9, 0]), 90), None);
    assert_eq!(map.insert(address([5, 1]), 51), None);
    assert_eq!(map.len(), 4);
    assert_eq!(
        walk(&map),
        vec![
            (address([1, 0]), 10),
            (address([5, 0]), 50),
            (address([5, 1]), 51),
            (address([9, 0]), 90),
        ]
    );
}

#[test]
fn address_map_insert_replaces_the_value_of_a_bound_address() {
    let mut map = AddressMap::new();
    map.insert(address([5, 0]), 50);
    map.insert(address([1, 0]), 10);
    assert_eq!(map.insert(address([5, 0]), 55), Some(50));
    assert_eq!(map.insert(address([1, 0]), 11), Some(10));
    assert_eq!(map.len(), 2);
    assert_eq!(walk(&map), vec![(address([1, 0]), 11), (address([5, 0]), 55)]);
}

#[test]
fn table_has_the_columns_it_was_made_with() {
    let table = Table::new(vec!["block_number".to_string(), "code".to_string()]);
    assert!(table.has_column("block_number"));
    assert!(table.has_column("code"));
    assert!(!table.has_column("cod"));
    assert!(!table.has_column("codes"));
    assert!(!table.has_column(""));
    assert!(!table.has_column("transaction_hash"));
    assert!(!Table::new(vec![]).has_column("block_number"));
}

#[test]
fn schemas_are_kept_by_dataset() {
    let mut schemas = Schemas::new();
    assert!(schemas.get(Datatype::CodeDiffs).is_none());
    assert!(schemas.get(Datatype::CodeReads).is_none());
    assert!(schemas.insert(Datatype::CodeDiffs, Table::new(vec!["address".to_string()])).is_none());
    assert!(schemas.get(Datatype::CodeDiffs).unwrap().has_column("address"));
    assert!(schemas.get(Datatype::CodeReads).is_none());
    let previous = schemas.insert(Datatype::CodeDiffs, Table::new(vec!["to_value".to_string()]));
    assert!(previous.unwrap().has_column("address"));
    assert!(schemas.get(Datatype::CodeDiffs).unwrap().has_column("to_value"));
    assert!(!schemas.get(Datatype::CodeDiffs).unwrap().has_column("address"));
    assert!(schemas.insert(Datatype::CodeReads, Table::new(vec!["code".to_string()])).is_none());
    assert!(schemas.get(Datatype::CodeReads).unwrap().has_column("code"));
    assert!(schemas.get(Datatype::CodeDiffs).unwrap().has_column("to_value"));
}

#[test]
fn request_fields_are_required_by_their_strategy() {
    let by_block = Params { block_number: Some(42), transaction_hash: None };
    assert_eq!(by_block.block_number(), Ok(42));
    assert_eq!(by_block.transaction_hash(), Err(CollectError::TransactionHashNotProvided));
    let by_transaction = Params { block_number: None, transaction_hash: Some(vec![0xAB; 32]) };
    assert_eq!(by_transaction.block_number(), Err(CollectError::BlockNumberNotProvided));
    assert_eq!(by_transaction.transaction_hash(), Ok(vec![0xAB; 32]));
}

#[test]
fn errors_say_what_failed() {
    assert_eq!(CollectError::SchemaNotProvided.message(), "schema not provided");
    assert_eq!(CollectError::BlockNumberNotProvided.message(), "block number not provided");
    assert_eq!(
        CollectError::TransactionHashNotProvided.message(),
        "transaction hash not provided"
    );
    assert_eq!(CollectError::RowCountOverflow.message(), "row count overflow");
    assert!(CollectError::SchemaNotProvided.is_configuration());
    assert!(!CollectError::BlockNumberNotProvided.is_configuration());
    assert!(!CollectError::TransactionHashNotProvided.is_configuration());
    assert!(!CollectError::RowCountOverflow.is_configuration());
}

#[test]
fn stored_values_follow_the_schema() {
    let table = Table::new(vec!["code".to_string()]);
    let mut column: Vec<u8> = vec![1];
    code_traces::columns::store(&table, "code", &mut column, 2);
    assert_eq!(column, vec![1, 2]);
    code_traces::columns::store(&table, "address", &mut column, 3);
    assert_eq!(column, vec![1, 2]);
    assert_eq!(code_traces::columns::copy_bytes(&vec![4, 5]), vec![4, 5]);
    assert_eq!(code_traces::columns::copy_hash(&Some(vec![6])), Some(vec![6]));
    assert_eq!(code_traces::columns::copy_hash(&None), None);
}
