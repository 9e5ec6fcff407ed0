use crate::error::CacheError;
use crate::model::{bytes_of, found, names, prefixed_keys, removed_count, Entries};
use crate::persistent::PersistentCore;
use crate::protocol::{
    checked_frame_len, le_value, CacheCommand, CacheResponse, CommandView, ResponseView,
    MAX_FRAME_LEN,
};
use crate::wal::{applied, RecordView, WalRecord};
use vstd::prelude::*;

verus! {

/// Where a connection stands between two pieces of outside work.
#[derive(Debug, PartialEq, Eq)]
pub enum ConnState {
    /// Waiting for the four bytes of a length prefix.
    ReadLength,
    /// Waiting for a payload of the given length, decoded as a command.
    ReadBody(usize),
    /// Waiting for the given record to be appended to the log.
    Dispatch(WalRecord),
    /// Waiting for the response frame to be written and flushed.
    WriteResponse,
    /// Over: nothing more is read or written.
    Closed,
}

/// What the outside work that a connection asked for has come to.
#[derive(Debug, PartialEq, Eq)]
pub enum Event {
    /// The four bytes of a length prefix were read.
    Header([u8; 4]),
    /// The stream ended before a length prefix was complete.
    Eof,
    /// A payload was read in full and decoded.
    Command(CacheCommand),
    /// The record was appended to the log and flushed.
    Appended,
    /// The response frame was written and flushed.
    Written,
    /// Reading, decoding, appending or writing failed.
    Failed(CacheError),
}

/// The outside work that a connection asks for next.
#[derive(Debug, PartialEq, Eq)]
pub enum Action {
    /// Read exactly four bytes.
    ReadHeader,
    /// Read exactly this many bytes and decode them as a command.
    ReadBody(usize),
    /// Append this record to the log and flush it, before anything else happens.
    Append(WalRecord),
    /// Encode this response, write its frame and flush.
    Write(CacheResponse),
    /// Close the stream; the connection ends cleanly or with this error.
    Finish(Result<(), CacheError>),
}

/// The record that a command writes ahead, where it changes the store.
pub open spec fn record_of(command: CommandView) -> Option<RecordView> {
    match command {
        CommandView::Put(key, value) => Some(RecordView::Put(key, value)),
        CommandView::Pop(key) => Some(RecordView::Pop(key)),
        CommandView::Del(key) => Some(RecordView::Del(key)),
        _ => None,
    }
}

/// The response that carries a value, or reports that there is none.
pub open spec fn value_or_nil(value: Option<Seq<u8>>) -> ResponseView {
    match value {
        Some(bytes) => ResponseView::Value(bytes),
        None => ResponseView::Nil,
    }
}

/// The prefix that a key pattern asks for: what stands before its last character, where
/// that character is `*`. Any other pattern asks for nothing.
pub open spec fn pattern_prefix(pattern: Seq<char>) -> Option<Seq<char>> {
    if pattern.len() > 0 && pattern.last() == '*' {
        Some(pattern.drop_last())
    } else {
        None
    }
}

/// Whether `response` is a right answer to a key pattern on a store that holds `held`: the
/// keys that begin with the pattern's prefix, each once, in any order; no keys where the
/// pattern does not end in `*`.
pub open spec fn lists_keys(held: Entries, pattern: Seq<char>, response: ResponseView) -> bool {
    match pattern_prefix(pattern) {
        Some(prefix) => response matches ResponseView::Keys(keys) && keys.no_duplicates()
            && keys.to_set() == prefixed_keys(held, prefix),
        None => response == ResponseView::Keys(Seq::empty()),
    }
}

/// Whether `response` is the answer to a mutation that found the store holding `held`.
pub open spec fn acknowledges(held: Entries, record: RecordView, response: ResponseView) -> bool {
    match record {
        RecordView::Put(_, _) => response == ResponseView::Ack,
        RecordView::Pop(key) => response == value_or_nil(found(held, key)),
        RecordView::Del(key) => response == ResponseView::Int(removed_count(held, key) as i64),
    }
}

/// Whether `response` is the answer to a command that found the store holding `held`.
pub open spec fn answers(held: Entries, command: CommandView, response: ResponseView) -> bool {
    match command {
        CommandView::Get(key) => response == value_or_nil(found(held, key)),
        CommandView::Keys(pattern) => lists_keys(held, pattern, response),
        CommandView::Len => response == ResponseView::Int(held.len() as i64),
        CommandView::Put(key, value) => acknowledges(held, RecordView::Put(key, value), response),
        CommandView::Pop(key) => acknowledges(held, RecordView::Pop(key), response),
        CommandView::Del(key) => acknowledges(held, RecordView::Del(key), response),
    }
}

impl ConnState {
    /// Whether the state waits for the append of the given record.
    pub open spec fn awaits(self, record: RecordView) -> bool {
        self matches ConnState::Dispatch(pending) && pending@ == record
    }
}

impl Action {
    /// Whether the action asks for the given record to be appended.
    pub open spec fn appends(self, record: RecordView) -> bool {
        self matches Action::Append(copy) && copy@ == record
    }

    /// The response that the action asks to be written, if it asks for one.
    pub open spec fn response(self) -> Option<ResponseView> {
        match self {
            Action::Write(response) => Some(response@),
            _ => None,
        }
    }

    /// Whether the action ends the connection without an error.
    pub open spec fn ends_cleanly(self) -> bool {
        self matches Action::Finish(end) && end is Ok
    }

    /// Whether the action ends the connection with an internal error of the given detail.
    pub open spec fn ends_refusing(self, detail: Seq<char>) -> bool {
        self matches Action::Finish(Err(error)) && error.is_internal(detail)
    }
}

/// Whether a step asked for the given record to be appended, and waits for that.
pub open spec fn pends(next: (ConnState, Action), record: RecordView) -> bool {
    next.0.awaits(record) && next.1.appends(record)
}

/// Whether a step asked for a response to be written, and waits for that.
pub open spec fn replies(next: (ConnState, Action)) -> bool {
    next.0 is WriteResponse && next.1 is Write
}

/// Whether a step ended the connection with an internal error of the given detail.
pub open spec fn refuses(next: (ConnState, Action), detail: Seq<char>) -> bool {
    next.0 is Closed && next.1.ends_refusing(detail)
}

/// One step of a connection: from its state, what the store held and its log, and an event,
/// to the next state, what the store holds and its log afterwards, and the work to do next.
///
/// A connection reads a length prefix, then a payload of the declared length; a command that
/// changes the store waits for its record to be appended to the log and is applied after
/// that; the response is written, and the next length prefix is read. A stream that ends
/// before a length prefix ends the connection cleanly. A failure, a length over the limit or
/// an event that the state did not ask for ends it with an error, and the store is as
/// before.
pub open spec fn transition(
    state: ConnState,
    held: Entries,
    log: Seq<RecordView>,
    event: Event,
    next: (ConnState, Action),
    held_after: Entries,
    log_after: Seq<RecordView>,
) -> bool {
    let same = held_after == held && log_after == log;
    match (state, event) {
        (ConnState::Closed, _) => same && refuses(next, "connection closed"@),
        (_, Event::Failed(error)) => same && next.0 is Closed && next.1 == Action::Finish(
            Err(error),
        ),
        (ConnState::ReadLength, Event::Eof) => same && next.0 is Closed && next.1.ends_cleanly(),
        (ConnState::ReadLength, Event::Header(header)) => same && if le_value(header@)
            <= MAX_FRAME_LEN {
            next.0 == ConnState::ReadBody(le_value(header@) as usize) && next.1
                == Action::ReadBody(le_value(header@) as usize)
        } else {
            refuses(next, "command too large"@)
        },
        (ConnState::ReadBody(_), Event::Command(command)) => same && match record_of(command@) {
            Some(record) => pends(next, record),
            None => replies(next) && answers(held, command@, next.1.response().unwrap()),
        },
        (ConnState::Dispatch(record), Event::Appended) => held_after == applied(held, record@)
            && log_after == log.push(record@) && replies(next) && acknowledges(
            held,
            record@,
            next.1.response().unwrap(),
        ),
        (ConnState::WriteResponse, Event::Written) => same && next.0 is ReadLength
            && next.1 is ReadHeader,
        _ => same && refuses(next, "unexpected event"@),
    }
}

/// A length prefix that declares more than the limit ends the connection at once: no body
/// is asked for, and the store is as before.
pub proof fn lemma_oversized_frame_is_refused(
    held: Entries,
    log: Seq<RecordView>,
    header: [u8; 4],
    next: (ConnState, Action),
    held_after: Entries,
    log_after: Seq<RecordView>,
)
    requires
        le_value(header@) > MAX_FRAME_LEN,
        transition(
            ConnState::ReadLength,
            held,
            log,
            Event::Header(header),
            next,
            held_after,
            log_after,
        ),
    ensures
        next.0 is Closed,
        next.1.ends_refusing("command too large"@),
        !(next.1 is ReadBody),
        held_after == held,
        log_after == log,
{
}

/// A failure, whatever the connection was waiting for, ends it with that failure and leaves
/// the store as it was. So a record whose append failed is never applied.
pub proof fn lemma_failure_changes_nothing(
    state: ConnState,
    held: Entries,
    log: Seq<RecordView>,
    error: CacheError,
    next: (ConnState, Action),
    held_after: Entries,
    log_after: Seq<RecordView>,
)
    requires
        transition(state, held, log, Event::Failed(error), next, held_after, log_after),
    ensures
        next.0 is Closed,
        next.1 is Finish,
        !(state is Closed) ==> next.1 == Action::Finish(Err(error)),
        held_after == held,
        log_after == log,
{
}

/// The store changes in one step only: where the append of the awaited record has
/// succeeded. Then it holds what applying that record gives, and the log has the record at
/// its end.
pub proof fn lemma_store_changes_only_after_append(
    state: ConnState,
    held: Entries,
    log: Seq<RecordView>,
    event: Event,
    next: (ConnState, Action),
    held_after: Entries,
    log_after: Seq<RecordView>,
)
    requires
        transition(state, held, log, event, next, held_after, log_after),
    ensures
        (held_after == held && log_after == log) || (state is Dispatch && event is Appended
            && log_after.len() == log.len() + 1 && held_after == applied(
            held,
            log_after.last(),
        )),
{
}

/// The prefix that a key pattern asks for, if it ends in `*`.
pub fn key_pattern_prefix<'a>(pattern: &'a str) -> (prefix: Option<&'a str>)
    ensures
        prefix is Some <==> pattern_prefix(pattern@) is Some,
        prefix is Some ==> prefix.unwrap()@ == pattern_prefix(pattern@).unwrap(),
{
    let n: usize = pattern.unicode_len();
    if n > 0 && pattern.get_char(n - 1) == '*' {
        Some(pattern.substring_char(0, n - 1))
    } else {
        None
    }
}

/// Answers a key pattern.
pub fn list_keys(store: &PersistentCore, pattern: &str) -> (response: CacheResponse)
    ensures
        lists_keys(store@, pattern@, response@),
{
    match key_pattern_prefix(pattern) {
        Some(prefix) => CacheResponse::Keys(store.keys_prefix(prefix)),
        None => {
            let keys: Vec<String> = Vec::new();
            assert(names(keys@) =~= Seq::empty());
            CacheResponse::Keys(keys)
        },
    }
}

/// The response that carries a value, or reports that there is none.
pub fn value_response(value: Option<Vec<u8>>) -> (response: CacheResponse)
    ensures
        response@ == value_or_nil(bytes_of(value)),
{
    match value {
        Some(bytes) => CacheResponse::Value(bytes),
        None => CacheResponse::Nil,
    }
}

/// Applies a record whose append has succeeded, and answers the command it stands for.
pub fn commit(store: &mut PersistentCore, record: WalRecord) -> (response: CacheResponse)
    requires
        old(store).wf(),
    ensures
        final(store).wf(),
        final(store)@ == applied(old(store)@, record@),
        final(store).log() == old(store).log().push(record@),
        acknowledges(old(store)@, record@, response@),
{
    match record {
        WalRecord::Put(key, value) => {
            store.put(key, value);
            CacheResponse::Ack
        },
        WalRecord::Pop(key) => value_response(store.take(key.as_str())),
        WalRecord::Del(key) => CacheResponse::Int(store.remove(key.as_str())),
    }
}

/// Takes up a command that was read: one that changes the store asks for its record to be
/// appended, any other is answered at once.
pub fn receive(store: &PersistentCore, command: CacheCommand) -> (next: (ConnState, Action))
    ensures
        match record_of(command@) {
            Some(record) => pends(next, record),
            None => replies(next) && answers(store@, command@, next.1.response().unwrap()),
        },
{
    match command {
        CacheCommand::Put(key, value) => pend(WalRecord::Put(key, value)),
        CacheCommand::Pop(key) => pend(WalRecord::Pop(key)),
        CacheCommand::Del(key) => pend(WalRecord::Del(key)),
        CacheCommand::Get(key) => (
            ConnState::WriteResponse,
            Action::Write(value_response(store.get(key.as_str()))),
        ),
        CacheCommand::Keys(pattern) => (
            ConnState::WriteResponse,
            Action::Write(list_keys(store, pattern.as_str())),
        ),
        CacheCommand::Len => (ConnState::WriteResponse, Action::Write(CacheResponse::Int(store.len()))),
    }
}

fn pend(record: WalRecord) -> (next: (ConnState, Action))
    ensures
        pends(next, record@),
{
    let copy = record.duplicate();
    (ConnState::Dispatch(record), Action::Append(copy))
}

fn refuse(detail: &str) -> (next: (ConnState, Action))
    ensures
        refuses(next, detail@),
{
    (ConnState::Closed, Action::Finish(Err(CacheError::Internal(String::from_str(detail)))))
}

/// The state in which a connection begins, and its first piece of work.
pub fn start() -> (next: (ConnState, Action))
    ensures
        next.0 is ReadLength,
        next.1 is ReadHeader,
{
    (ConnState::ReadLength, Action::ReadHeader)
}

/// Takes a connection one step further: see `transition`.
pub fn step(state: ConnState, store: &mut PersistentCore, event: Event) -> (next: (
    ConnState,
    Action,
))
    requires
        old(store).wf(),
    ensures
        final(store).wf(),
        transition(
            state,
            old(store)@,
            old(store).log(),
            event,
            next,
            final(store)@,
            final(store).log(),
        ),
{
    match (state, event) {
        (ConnState::Closed, _) => refuse("connection closed"),
        (_, Event::Failed(error)) => (ConnState::Closed, Action::Finish(Err(error))),
        (ConnState::ReadLength, Event::Eof) => (ConnState::Closed, Action::Finish(Ok(()))),
        (ConnState::ReadLength, Event::Header(header)) => match checked_frame_len(&header) {
            Ok(len) => (ConnState::ReadBody(len), Action::ReadBody(len)),
            Err(error) => (ConnState::Closed, Action::Finish(Err(error))),
        },
        (ConnState::ReadBody(_), Event::Command(command)) => receive(store, command),
        (ConnState::Dispatch(record), Event::Appended) => {
            let response = commit(store, record);
            (ConnState::WriteResponse, Action::Write(response))
        },
        (ConnState::WriteResponse, Event::Written) => (ConnState::ReadLength, Action::ReadHeader),
        _ => refuse("unexpected event"),
    }
}

} // verus!
