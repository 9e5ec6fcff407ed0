use crate::error::CacheError;
use crate::model::Entries;
use crate::protocol::{frame_len, framed, le_value, lemma_frame_round_trip};
use crate::store::CacheCore;
use vstd::prelude::*;
use vstd::slice::slice_to_vec;

verus! {

/// A mutation as the write-ahead log records it.
#[derive(Clone, Debug, PartialEq, Eq)]
pub enum WalRecord {
    Put(String, Vec<u8>),
    Del(String),
    Pop(String),
}

/// A log record as contracts see it: the key by its characters, the value by its bytes.
pub enum RecordView {
    Put(Seq<char>, Seq<u8>),
    Del(Seq<char>),
    Pop(Seq<char>),
}

impl View for WalRecord {
    type V = RecordView;

    open spec fn view(&self) -> RecordView {
        match self {
            WalRecord::Put(key, value) => RecordView::Put(key@, value@),
            WalRecord::Del(key) => RecordView::Del(key@),
            WalRecord::Pop(key) => RecordView::Pop(key@),
        }
    }
}

impl WalRecord {
    /// A copy of the record.
    pub fn duplicate(&self) -> (copy: WalRecord)
        ensures
            copy@ == self@,
    {
        match self {
            WalRecord::Put(key, value) => {
                let bytes = value.clone();
                assert(bytes@ =~= value@);
                WalRecord::Put(key.clone(), bytes)
            },
            WalRecord::Del(key) => WalRecord::Del(key.clone()),
            WalRecord::Pop(key) => WalRecord::Pop(key.clone()),
        }
    }
}

/// Each record of a list as contracts see it, in the list's order.
pub open spec fn record_views(records: Seq<WalRecord>) -> Seq<RecordView> {
    records.map_values(|record: WalRecord| record@)
}

/// The bytes of each payload of a list, in the list's order.
pub open spec fn payloads(frames: Seq<Vec<u8>>) -> Seq<Seq<u8>> {
    frames.map_values(|payload: Vec<u8>| payload@)
}

/// What a store holds once a record has been applied to it.
pub open spec fn applied(held: Entries, record: RecordView) -> Entries {
    match record {
        RecordView::Put(key, value) => held.insert(key, value),
        RecordView::Del(key) => held.remove(key),
        RecordView::Pop(key) => held.remove(key),
    }
}

/// What a store holds once the records of a log have been applied to it, oldest first.
pub open spec fn replayed(held: Entries, log: Seq<RecordView>) -> Entries
    decreases log.len(),
{
    if log.len() == 0 {
        held
    } else {
        applied(replayed(held, log.drop_last()), log.last())
    }
}

/// The bytes of a log file that holds the given payloads, oldest first, each in its frame.
pub open spec fn log_of(frames: Seq<Seq<u8>>) -> Seq<u8>
    decreases frames.len(),
{
    if frames.len() == 0 {
        Seq::empty()
    } else {
        framed(frames.first()) + log_of(frames.drop_first())
    }
}

/// The payloads that the bytes of a log file hold, oldest first. The file ends where fewer
/// than four bytes are left. A length prefix that declares more bytes than follow it makes
/// the whole file unreadable.
pub open spec fn log_frames(log: Seq<u8>) -> Option<Seq<Seq<u8>>>
    decreases log.len(),
{
    if log.len() < 4 {
        Some(Seq::empty())
    } else {
        let len = le_value(log.subrange(0, 4)) as int;
        if log.len() < 4 + len {
            None
        } else {
            match log_frames(log.skip(4 + len)) {
                Some(rest) => Some(seq![log.subrange(4, 4 + len)] + rest),
                None => None,
            }
        }
    }
}

/// The payloads of `frames` followed by whatever `rest` holds, if `rest` can be read.
pub open spec fn then_frames(frames: Seq<Seq<u8>>, rest: Option<Seq<Seq<u8>>>) -> Option<
    Seq<Seq<u8>>,
> {
    match rest {
        Some(more) => Some(frames + more),
        None => None,
    }
}

/// Whether each payload's length fits in the 32 bits of a length prefix.
pub open spec fn all_fit(frames: Seq<Seq<u8>>) -> bool {
    forall|i: int| 0 <= i < frames.len() ==> (#[trigger] frames[i]).len() <= u32::MAX
}

/// Applying one more record to a replayed log is replaying the log with that record at its
/// end.
pub proof fn lemma_replay_push(held: Entries, log: Seq<RecordView>, record: RecordView)
    ensures
        replayed(held, log.push(record)) == applied(replayed(held, log), record),
{
    assert(log.push(record).drop_last() =~= log);
}

/// A replay keeps a store finite.
pub proof fn lemma_replay_finite(held: Entries, log: Seq<RecordView>)
    requires
        held.dom().finite(),
    ensures
        replayed(held, log).dom().finite(),
    decreases log.len(),
{
    if log.len() > 0 {
        lemma_replay_finite(held, log.drop_last());
    }
}

/// A file that begins with whole frames holds their payloads, followed by what the bytes
/// after them hold.
pub proof fn lemma_log_frames_after(frames: Seq<Seq<u8>>, tail: Seq<u8>)
    requires
        all_fit(frames),
    ensures
        log_frames(log_of(frames) + tail) == then_frames(frames, log_frames(tail)),
    decreases frames.len(),
{
    if frames.len() == 0 {
        assert(log_of(frames) + tail =~= tail);
        if log_frames(tail) is Some {
            assert(frames + log_frames(tail).unwrap() =~= log_frames(tail).unwrap());
        }
    } else {
        let first = frames.first();
        let others = frames.drop_first();
        let log = log_of(frames) + tail;
        let len = first.len() as int;
        assert(first.len() <= u32::MAX);
        assert(all_fit(others)) by {
            assert forall|i: int| 0 <= i < others.len() implies (#[trigger] others[i]).len()
                <= u32::MAX by {
                assert(others[i] == frames[i + 1]);
            }
        }
        lemma_frame_round_trip(first);
        lemma_log_frames_after(others, tail);
        assert(log =~= framed(first) + (log_of(others) + tail));
        assert(log.subrange(0, 4) =~= framed(first).subrange(0, 4));
        assert(log.subrange(4, 4 + len) =~= first);
        assert(log.skip(4 + len) =~= log_of(others) + tail);
        if log_frames(tail) is Some {
            assert(seq![first] + (others + log_frames(tail).unwrap()) =~= frames + log_frames(
                tail,
            ).unwrap());
        }
    }
}

/// Reading back a log of whole frames gives the payloads that were framed, in their order.
pub proof fn lemma_log_round_trip(frames: Seq<Seq<u8>>)
    requires
        all_fit(frames),
    ensures
        log_frames(log_of(frames)) == Some(frames),
{
    lemma_log_frames_after(frames, Seq::empty());
    assert(log_of(frames) + Seq::<u8>::empty() =~= log_of(frames));
    assert(frames + Seq::<Seq<u8>>::empty() =~= frames);
}

/// Appending a frame to a log file adds its payload at the end of what the file holds.
pub proof fn lemma_log_append(frames: Seq<Seq<u8>>, payload: Seq<u8>)
    ensures
        log_of(frames.push(payload)) == log_of(frames) + framed(payload),
    decreases frames.len(),
{
    if frames.len() == 0 {
        assert(frames.push(payload).drop_first() =~= frames);
        assert(log_of(frames.push(payload)) =~= log_of(frames) + framed(payload));
    } else {
        lemma_log_append(frames.drop_first(), payload);
        assert(frames.push(payload).drop_first() =~= frames.drop_first().push(payload));
        assert(log_of(frames.push(payload)) =~= log_of(frames) + framed(payload));
    }
}

/// Fewer than four bytes after the last whole frame end the file without harm: the frames
/// before them are read.
pub proof fn lemma_torn_prefix(frames: Seq<Seq<u8>>, tail: Seq<u8>)
    requires
        all_fit(frames),
        tail.len() < 4,
    ensures
        log_frames(log_of(frames) + tail) == Some(frames),
{
    lemma_log_frames_after(frames, tail);
    assert(frames + Seq::<Seq<u8>>::empty() =~= frames);
}

/// A last frame that was cut after its length prefix and before its end makes the file
/// unreadable.
pub proof fn lemma_torn_record(frames: Seq<Seq<u8>>, payload: Seq<u8>, kept: int)
    requires
        all_fit(frames),
        payload.len() <= u32::MAX,
        4 <= kept < 4 + payload.len(),
    ensures
        log_frames(log_of(frames) + framed(payload).take(kept)) is None,
{
    let tail = framed(payload).take(kept);
    lemma_log_frames_after(frames, tail);
    lemma_frame_round_trip(payload);
    assert(tail.subrange(0, 4) =~= framed(payload).subrange(0, 4));
}

/// Applies one record of the log to a store.
pub fn apply(core: &mut CacheCore, record: WalRecord)
    ensures
        final(core)@ == applied(old(core)@, record@),
{
    match record {
        WalRecord::Put(key, value) => {
            core.set(key, value);
        },
        WalRecord::Del(key) => {
            core.delete(key.as_str());
        },
        WalRecord::Pop(key) => {
            core.pop(key.as_str());
        },
    }
}

/// Applies the records of a log to a store, oldest first.
pub fn replay(core: &mut CacheCore, records: Vec<WalRecord>)
    ensures
        final(core)@ == replayed(old(core)@, record_views(records@)),
{
    let ghost log = record_views(records@);
    let ghost start = core@;
    for record in it: records
        invariant
            core@ == replayed(start, log.take(it.index() as int)),
            log == record_views(it.seq()),
    {
        proof {
            let i = it.index() as int;
            assert(log.take(i + 1) =~= log.take(i).push(log[i]));
            lemma_replay_push(start, log.take(i), log[i]);
        }
        apply(core, record);
    }
    proof {
        assert(log.take(log.len() as int) =~= log);
    }
}

/// Reads the payloads of a log file, oldest first.
pub fn read_log(log: &[u8]) -> (outcome: Result<Vec<Vec<u8>>, CacheError>)
    ensures
        log_frames(log@) is Some ==> outcome is Ok && payloads(outcome.unwrap()@) == log_frames(
            log@,
        ).unwrap(),
        log_frames(log@) is None ==> outcome is Err && outcome.unwrap_err().is_internal(
            "read WAL rec: failed to fill whole buffer"@,
        ),
{
    let mut frames: Vec<Vec<u8>> = Vec::new();
    let mut pos: usize = 0;
    proof {
        assert(log@.skip(0) =~= log@);
        if log_frames(log@) is Some {
            assert(payloads(frames@) + log_frames(log@).unwrap() =~= log_frames(log@).unwrap());
        }
    }
    while log.len() - pos >= 4
        invariant
            pos <= log.len(),
            log_frames(log@) == then_frames(payloads(frames@), log_frames(log@.skip(pos as int))),
        decreases log.len() - pos,
    {
        let ghost rest = log@.skip(pos as int);
        let header: [u8; 4] = [log[pos], log[pos + 1], log[pos + 2], log[pos + 3]];
        let len = frame_len(&header);
        proof {
            assert(header@ =~= rest.subrange(0, 4));
        }
        if log.len() - pos - 4 < len {
            return Err(
                CacheError::Internal(String::from_str("read WAL rec: failed to fill whole buffer")),
            );
        }
        let payload = slice_to_vec(&log[pos + 4..pos + 4 + len]);
        proof {
            let before = payloads(frames@);
            assert(payload@ =~= rest.subrange(4, 4 + len));
            assert(rest.skip(4 + len) =~= log@.skip(pos + 4 + len));
            assert(payloads(frames@.push(payload)) =~= before.push(payload@));
            if log_frames(log@.skip(pos + 4 + len)) is Some {
                let more = log_frames(log@.skip(pos + 4 + len)).unwrap();
                assert(before.push(payload@) + more =~= before + (seq![payload@] + more));
            }
        }
        frames.push(payload);
        pos = pos + 4 + len;
    }
    proof {
        assert(payloads(frames@) + Seq::<Seq<u8>>::empty() =~= payloads(frames@));
    }
    Ok(frames)
}

} // verus!
