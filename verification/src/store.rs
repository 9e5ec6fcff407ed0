use crate::model::{bytes_of, found, names, prefixed_keys, removed_count, Entries};
use crate::table::{
    entries, table_get, table_insert, table_keys, table_len, table_new, table_remove,
};
use crate::text::starts_with;
use dashmap::DashMap;
use vstd::prelude::*;

verus! {

/// The in-memory store: a mapping from keys to byte-string values, with unique keys.
pub struct CacheCore {
    table: DashMap<String, Vec<u8>>,
}

impl View for CacheCore {
    type V = Map<Seq<char>, Seq<u8>>;

    closed spec fn view(&self) -> Map<Seq<char>, Seq<u8>> {
        entries(self.table)
    }
}

impl CacheCore {
    /// An empty store.
    pub fn new() -> (store: CacheCore)
        ensures
            store@ == Entries::empty(),
    {
        CacheCore { table: table_new() }
    }

    /// Maps `key` to `value`, whatever it mapped to before.
    pub fn set(&mut self, key: String, value: Vec<u8>)
        ensures
            final(self)@ == old(self)@.insert(key@, value@),
    {
        table_insert(&mut self.table, key, value);
    }

    /// A copy of the value that `key` maps to, or nothing where the key is absent.
    pub fn get(&self, key: &str) -> (value: Option<Vec<u8>>)
        ensures
            bytes_of(value) == found(self@, key@),
    {
        table_get(&self.table, key)
    }

    /// Removes `key` and returns the value it mapped to, or nothing where the key is absent,
    /// in which case the store is as before.
    pub fn pop(&mut self, key: &str) -> (value: Option<Vec<u8>>)
        ensures
            final(self)@ == old(self)@.remove(key@),
            bytes_of(value) == found(old(self)@, key@),
    {
        table_remove(&mut self.table, key)
    }

    /// Removes `key` and returns how many entries left the store: 1 where the key was held,
    /// 0 where it was absent.
    pub fn delete(&mut self, key: &str) -> (removed: i64)
        ensures
            final(self)@ == old(self)@.remove(key@),
            removed == removed_count(old(self)@, key@),
    {
        match table_remove(&mut self.table, key) {
            Some(_) => 1,
            None => 0,
        }
    }

    /// The keys that begin with `prefix`, each once, in no stated order.
    pub fn keys_prefix(&self, prefix: &str) -> (keys: Vec<String>)
        ensures
            names(keys@).no_duplicates(),
            names(keys@).to_set() == prefixed_keys(self@, prefix@),
    {
        let all = table_keys(&self.table);
        let ghost all_names = names(all@);
        let mut keys: Vec<String> = Vec::new();
        let mut i: usize = 0;
        while i < all.len()
            invariant
                i <= all.len(),
                all_names == names(all@),
                all_names.no_duplicates(),
                names(keys@).no_duplicates(),
                forall|name: Seq<char>| #[trigger]
                    names(keys@).contains(name) ==> all_names.take(i as int).contains(name)
                        && prefix@.is_prefix_of(name),
                forall|j: int|
                    0 <= j < i && prefix@.is_prefix_of(#[trigger] all_names[j]) ==> names(
                        keys@,
                    ).contains(all_names[j]),
            decreases all.len() - i,
        {
            let ghost before = names(keys@);
            let ghost current = all_names[i as int];
            proof {
                broadcast use vstd::seq_lib::lemma_seq_contains_after_push;

                assert(all_names.take(i + 1) =~= all_names.take(i as int).push(current));
                assert(!before.contains(current)) by {
                    if before.contains(current) {
                        let j = choose|j: int|
                            0 <= j < all_names.take(i as int).len() && all_names.take(
                                i as int,
                            )[j] == current;
                        assert(all_names[j] == all_names[i as int]);
                    }
                }
            }
            if starts_with(all[i].as_str(), prefix) {
                let key = all[i].clone();
                keys.push(key);
                proof {
                    broadcast use vstd::seq_lib::lemma_seq_contains_after_push;

                    assert(names(keys@) =~= before.push(current));
                }
            }
            i += 1;
        }
        proof {
            assert(all_names.take(all.len() as int) =~= all_names);
            assert(names(keys@).to_set() =~= prefixed_keys(self@, prefix@));
        }
        keys
    }

    /// The number of entries.
    pub fn len(&self) -> (count: i64)
        ensures
            count == self@.len() as i64,
            self@.len() <= i64::MAX ==> count == self@.len(),
    {
        table_len(&self.table) as i64
    }
}

/// What is set under a key is what is read back under it, and every other key reads as
/// before.
pub proof fn lemma_set_then_get(held: Entries, key: Seq<char>, value: Seq<u8>, other: Seq<char>)
    ensures
        found(held.insert(key, value), key) == Some(value),
        other != key ==> found(held.insert(key, value), other) == found(held, other),
{
}

/// Deleting an absent key removes nothing and leaves the store as it was; deleting a held
/// key removes one entry; either way the key reads as absent afterwards, and a second
/// delete removes nothing.
pub proof fn lemma_delete(held: Entries, key: Seq<char>)
    ensures
        !held.contains_key(key) ==> removed_count(held, key) == 0 && held.remove(key) == held,
        held.contains_key(key) ==> removed_count(held, key) == 1,
        found(held.remove(key), key) is None,
        removed_count(held.remove(key), key) == 0,
        held.remove(key).remove(key) == held.remove(key),
{
    assert(held.remove(key).remove(key) =~= held.remove(key));
    if !held.contains_key(key) {
        assert(held.remove(key) =~= held);
    }
}

/// A pop right after a set returns the value that was set and leaves the key absent; a pop
/// of an absent key returns nothing and leaves the store, and so its size, as it was.
pub proof fn lemma_pop(held: Entries, key: Seq<char>, value: Seq<u8>)
    ensures
        found(held.insert(key, value), key) == Some(value),
        found(held.insert(key, value).remove(key), key) is None,
        !held.contains_key(key) ==> found(held, key) is None && held.remove(key) == held,
        !held.contains_key(key) ==> held.remove(key).len() == held.len(),
{
    if !held.contains_key(key) {
        assert(held.remove(key) =~= held);
    }
}

/// The empty prefix selects every key.
pub proof fn lemma_empty_prefix(held: Entries)
    ensures
        prefixed_keys(held, Seq::empty()) == held.dom(),
{
    assert(prefixed_keys(held, Seq::empty()) =~= held.dom());
}

/// A set adds one entry where the key was absent and none where it was held; a removal
/// takes away as many entries as it reports.
pub proof fn lemma_sizes(held: Entries, key: Seq<char>, value: Seq<u8>)
    requires
        held.dom().finite(),
    ensures
        held.insert(key, value).dom().finite(),
        held.remove(key).dom().finite(),
        held.insert(key, value).len() == held.len() + 1 - removed_count(held, key),
        held.remove(key).len() == held.len() - removed_count(held, key),
{
}

impl Default for CacheCore {
    fn default() -> (store: CacheCore)
        ensures
            store@ == Entries::empty(),
    {
        CacheCore::new()
    }
}

} // verus!
