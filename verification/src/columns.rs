//! Writing values into the columns of a buffer.

use crate::schema::Table;
use vstd::prelude::*;

verus! {

/// Appends `value` to `column` where the schema requests the column of the
/// given name, and leaves the column as it is otherwise.
pub fn store<T: DeepView>(schema: &Table, name: &str, column: &mut Vec<T>, value: T)
    ensures
        final(column)@ == if schema@.contains(name@) {
            old(column)@.push(value)
        } else {
            old(column)@
        },
        final(column).deep_view() == if schema@.contains(name@) {
            old(column).deep_view().push(value.deep_view())
        } else {
            old(column).deep_view()
        },
{
    if schema.has_column(name) {
        column.push(value);
    }
}

/// A copy of a byte string.
pub fn copy_bytes(bytes: &Vec<u8>) -> (copy: Vec<u8>)
    ensures
        copy@ == bytes@,
        copy.deep_view() == bytes@,
{
    bytes.clone()
}

/// A copy of a transaction hash that may be absent.
pub fn copy_hash(hash: &Option<Vec<u8>>) -> (copy: Option<Vec<u8>>)
    ensures
        copy.deep_view() == hash.deep_view(),
{
    match hash {
        Some(bytes) => Some(copy_bytes(bytes)),
        None => None,
    }
}

/// The deep view of a byte string is the string itself.
pub proof fn lemma_bytes_deep_view(bytes: Vec<u8>)
    ensures
        bytes.deep_view() == bytes@,
{
}

} // verus!
