use crate::error::CacheError;
use crate::model::{bytes_of, found, names, prefixed_keys, removed_count, Entries};
use crate::store::CacheCore;
use crate::wal::{
    lemma_replay_finite, lemma_replay_push, record_views, replay, replayed, RecordView, WalRecord,
};
use vstd::prelude::*;

verus! {

/// A store whose mutations are written ahead to a log.
///
/// Writing to the log is the caller's part: it appends the record of a mutation, durably, and
/// then hands the outcome of that append to the mutating call. The store changes only where
/// the append succeeded, so what it holds is at every moment what a replay of the log gives.
pub struct PersistentCore {
    core: CacheCore,
    log: Ghost<Seq<RecordView>>,
}

impl View for PersistentCore {
    type V = Map<Seq<char>, Seq<u8>>;

    closed spec fn view(&self) -> Map<Seq<char>, Seq<u8>> {
        self.core@
    }
}

impl PersistentCore {
    /// The records whose append the store was told of, oldest first.
    pub closed spec fn log(&self) -> Seq<RecordView> {
        self.log@
    }

    /// The store holds what a replay of its log into an empty store gives.
    pub open spec fn wf(&self) -> bool {
        self@ == replayed(Entries::empty(), self.log())
    }

    /// Rebuilds a store from the records that its log holds, oldest first.
    pub fn new(records: Vec<WalRecord>) -> (store: PersistentCore)
        ensures
            store.wf(),
            store.log() == record_views(records@),
    {
        let ghost log = record_views(records@);
        let mut core = CacheCore::new();
        replay(&mut core, records);
        PersistentCore { core, log: Ghost(log) }
    }

    /// Maps `key` to `value` once `Put(key, value)` is in the log.
    pub(crate) fn put(&mut self, key: String, value: Vec<u8>)
        requires
            old(self).wf(),
        ensures
            final(self).wf(),
            final(self)@ == old(self)@.insert(key@, value@),
            final(self).log() == old(self).log().push(RecordView::Put(key@, value@)),
    {
        proof {
            lemma_replay_push(Entries::empty(), self.log@, RecordView::Put(key@, value@));
        }
        self.log = Ghost(self.log@.push(RecordView::Put(key@, value@)));
        self.core.set(key, value);
    }

    /// Removes `key` and returns its value once `Pop(key)` is in the log.
    pub(crate) fn take(&mut self, key: &str) -> (value: Option<Vec<u8>>)
        requires
            old(self).wf(),
        ensures
            final(self).wf(),
            final(self)@ == old(self)@.remove(key@),
            final(self).log() == old(self).log().push(RecordView::Pop(key@)),
            bytes_of(value) == found(old(self)@, key@),
    {
        proof {
            lemma_replay_push(Entries::empty(), self.log@, RecordView::Pop(key@));
        }
        self.log = Ghost(self.log@.push(RecordView::Pop(key@)));
        self.core.pop(key)
    }

    /// Removes `key` and counts what left once `Del(key)` is in the log.
    pub(crate) fn remove(&mut self, key: &str) -> (removed: i64)
        requires
            old(self).wf(),
        ensures
            final(self).wf(),
            final(self)@ == old(self)@.remove(key@),
            final(self).log() == old(self).log().push(RecordView::Del(key@)),
            removed == removed_count(old(self)@, key@),
    {
        proof {
            lemma_replay_push(Entries::empty(), self.log@, RecordView::Del(key@));
        }
        self.log = Ghost(self.log@.push(RecordView::Del(key@)));
        self.core.delete(key)
    }

    /// Maps `key` to `value`, given the outcome of appending `Put(key, value)` to the log.
    /// Where the append failed nothing changes and its error is returned.
    pub fn set(&mut self, key: String, value: Vec<u8>, appended: Result<(), CacheError>) -> (outcome:
        Result<(), CacheError>)
        requires
            old(self).wf(),
        ensures
            final(self).wf(),
            appended is Ok ==> outcome is Ok,
            appended is Ok ==> final(self)@ == old(self)@.insert(key@, value@),
            appended is Ok ==> final(self).log() == old(self).log().push(
                RecordView::Put(key@, value@),
            ),
            appended is Err ==> outcome is Err && outcome.unwrap_err() == appended.unwrap_err(),
            appended is Err ==> final(self)@ == old(self)@ && final(self).log() == old(self).log(),
    {
        match appended {
            Ok(()) => {
                self.put(key, value);
                Ok(())
            },
            Err(error) => Err(error),
        }
    }

    /// A copy of the value that `key` maps to, or nothing where the key is absent. The log
    /// has no part in it.
    pub fn get(&self, key: &str) -> (value: Option<Vec<u8>>)
        ensures
            bytes_of(value) == found(self@, key@),
    {
        self.core.get(key)
    }

    /// Removes `key` and returns the value it mapped to, given the outcome of appending
    /// `Pop(key)` to the log. Where the append failed nothing changes and its error is
    /// returned.
    pub fn pop(&mut self, key: &str, appended: Result<(), CacheError>) -> (outcome: Result<
        Option<Vec<u8>>,
        CacheError,
    >)
        requires
            old(self).wf(),
        ensures
            final(self).wf(),
            appended is Ok ==> outcome is Ok && bytes_of(outcome.unwrap()) == found(
                old(self)@,
                key@,
            ),
            appended is Ok ==> final(self)@ == old(self)@.remove(key@),
            appended is Ok ==> final(self).log() == old(self).log().push(RecordView::Pop(key@)),
            appended is Err ==> outcome is Err && outcome.unwrap_err() == appended.unwrap_err(),
            appended is Err ==> final(self)@ == old(self)@ && final(self).log() == old(self).log(),
    {
        match appended {
            Ok(()) => Ok(self.take(key)),
            Err(error) => Err(error),
        }
    }

    /// Removes `key` and returns how many entries left the store, given the outcome of
    /// appending `Del(key)` to the log. Where the append failed nothing changes and its error
    /// is returned.
    pub fn delete(&mut self, key: &str, appended: Result<(), CacheError>) -> (outcome: Result<
        i64,
        CacheError,
    >)
        requires
            old(self).wf(),
        ensures
            final(self).wf(),
            appended is Ok ==> outcome is Ok && outcome.unwrap() == removed_count(
                old(self)@,
                key@,
            ),
            appended is Ok ==> final(self)@ == old(self)@.remove(key@),
            appended is Ok ==> final(self).log() == old(self).log().push(RecordView::Del(key@)),
            appended is Err ==> outcome is Err && outcome.unwrap_err() == appended.unwrap_err(),
            appended is Err ==> final(self)@ == old(self)@ && final(self).log() == old(self).log(),
    {
        match appended {
            Ok(()) => Ok(self.remove(key)),
            Err(error) => Err(error),
        }
    }

    /// The keys that begin with `prefix`, each once, in no stated order.
    pub fn keys_prefix(&self, prefix: &str) -> (keys: Vec<String>)
        ensures
            names(keys@).no_duplicates(),
            names(keys@).to_set() == prefixed_keys(self@, prefix@),
    {
        self.core.keys_prefix(prefix)
    }

    /// The number of entries.
    pub fn len(&self) -> (count: i64)
        ensures
            count == self@.len() as i64,
            self@.len() <= i64::MAX ==> count == self@.len(),
    {
        self.core.len()
    }
}

/// A store that is rebuilt from the log of another holds what the other holds: nothing that
/// was appended is lost, and nothing else appears.
pub proof fn lemma_recovery(before: PersistentCore, rebuilt: PersistentCore)
    requires
        before.wf(),
        rebuilt.wf(),
        rebuilt.log() == before.log(),
    ensures
        rebuilt@ == before@,
{
}

/// A well-formed store holds finitely many entries.
pub proof fn lemma_store_finite(store: PersistentCore)
    requires
        store.wf(),
    ensures
        store@.dom().finite(),
{
    lemma_replay_finite(Entries::empty(), store.log());
}

} // verus!
