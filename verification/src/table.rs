use crate::model::{bytes_of, found, names, Entries};
use dashmap::DashMap;
use vstd::prelude::*;

verus! {

/// `dashmap::DashMap`, a hash map spread over shards that lock one by one. Proofs see
/// nothing inside a value of it. The functions below take it by exclusive reference where
/// they change it, so no other reference into the table is held while they run.
#[verifier::external_type_specification]
#[verifier::external_body]
#[verifier::reject_recursive_types(K)]
#[verifier::reject_recursive_types(V)]
#[verifier::reject_recursive_types(S)]
pub struct ExDashMap<K, V, S>(DashMap<K, V, S>);

/// The entries that a table holds: the characters of each key it has, mapped to the bytes of
/// the value stored under that key. The functions below say how each call reads or changes
/// them.
pub uninterp spec fn entries(table: DashMap<String, Vec<u8>>) -> Map<Seq<char>, Seq<u8>>;

/// `DashMap::new`: a table that holds nothing.
#[verifier::external_body]
pub(crate) fn table_new() -> (fresh: DashMap<String, Vec<u8>>)
    ensures
        entries(fresh) == Entries::empty(),
{
    DashMap::new()
}

/// `DashMap::insert`: afterwards the key maps to the value, and every other entry is as
/// before. The value that the key had is dropped.
#[verifier::external_body]
pub(crate) fn table_insert(table: &mut DashMap<String, Vec<u8>>, key: String, value: Vec<u8>)
    ensures
        entries(*final(table)) == entries(*old(table)).insert(key@, value@),
{
    table.insert(key, value);
}

/// `DashMap::get`, with the value copied out of the reference it returns: the value that
/// the key maps to, or nothing where the table has no such key.
#[verifier::external_body]
pub(crate) fn table_get(table: &DashMap<String, Vec<u8>>, key: &str) -> (value: Option<Vec<u8>>)
    ensures
        bytes_of(value) == found(entries(*table), key@),
{
    table.get(key).map(|entry| entry.value().clone())
}

/// `DashMap::remove`: the entry of the key leaves the table, every other entry stays, and the
/// value that the key had is returned.
#[verifier::external_body]
pub(crate) fn table_remove(table: &mut DashMap<String, Vec<u8>>, key: &str) -> (value: Option<
    Vec<u8>,
>)
    ensures
        entries(*final(table)) == entries(*old(table)).remove(key@),
        bytes_of(value) == found(entries(*old(table)), key@),
{
    table.remove(key).map(|entry| entry.1)
}

/// `DashMap::len`: the number of entries.
#[verifier::external_body]
pub(crate) fn table_len(table: &DashMap<String, Vec<u8>>) -> (count: usize)
    ensures
        count == entries(*table).len(),
{
    table.len()
}

/// `DashMap::iter`, with each key copied out: every key of the table, each once. The order
/// follows the table's hashing and is not stated.
#[verifier::external_body]
pub(crate) fn table_keys(table: &DashMap<String, Vec<u8>>) -> (keys: Vec<String>)
    ensures
        names(keys@).no_duplicates(),
        names(keys@).to_set() == entries(*table).dom(),
{
    table.iter().map(|entry| entry.key().clone()).collect()
}

} // verus!
