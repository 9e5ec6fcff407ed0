use crate::error::CacheError;
use crate::model::names;
use vstd::arithmetic::div_mod::lemma_fundamental_div_mod_converse;
use vstd::prelude::*;

verus! {

/// The largest payload, in bytes, that a received frame may declare.
pub const MAX_FRAME_LEN: usize = 1_000_000;

/// A request of a client.
#[derive(Clone, Debug, PartialEq, Eq)]
pub enum CacheCommand {
    Put(String, Vec<u8>),
    Get(String),
    Pop(String),
    Del(String),
    Keys(String),
    Len,
}

/// The answer to one request.
#[derive(Debug, PartialEq, Eq)]
pub enum CacheResponse {
    Ack,
    Value(Vec<u8>),
    Nil,
    Int(i64),
    Keys(Vec<String>),
}

/// A request as contracts see it: keys by their characters, values by their bytes.
pub enum CommandView {
    Put(Seq<char>, Seq<u8>),
    Get(Seq<char>),
    Pop(Seq<char>),
    Del(Seq<char>),
    Keys(Seq<char>),
    Len,
}

/// An answer as contracts see it.
pub enum ResponseView {
    Ack,
    Value(Seq<u8>),
    Nil,
    Int(i64),
    Keys(Seq<Seq<char>>),
}

impl View for CacheCommand {
    type V = CommandView;

    open spec fn view(&self) -> CommandView {
        match self {
            CacheCommand::Put(key, value) => CommandView::Put(key@, value@),
            CacheCommand::Get(key) => CommandView::Get(key@),
            CacheCommand::Pop(key) => CommandView::Pop(key@),
            CacheCommand::Del(key) => CommandView::Del(key@),
            CacheCommand::Keys(pattern) => CommandView::Keys(pattern@),
            CacheCommand::Len => CommandView::Len,
        }
    }
}

impl View for CacheResponse {
    type V = ResponseView;

    open spec fn view(&self) -> ResponseView {
        match self {
            CacheResponse::Ack => ResponseView::Ack,
            CacheResponse::Value(bytes) => ResponseView::Value(bytes@),
            CacheResponse::Nil => ResponseView::Nil,
            CacheResponse::Int(count) => ResponseView::Int(*count),
            CacheResponse::Keys(keys) => ResponseView::Keys(names(keys@)),
        }
    }
}

/// The four bytes that stand for `n`, least significant first.
pub open spec fn le_bytes(n: u32) -> Seq<u8> {
    seq![
        (n % 256) as u8,
        (n / 256 % 256) as u8,
        (n / 65536 % 256) as u8,
        (n / 16777216) as u8,
    ]
}

/// The number that four bytes stand for, least significant first.
pub open spec fn le_value(header: Seq<u8>) -> nat
    recommends
        header.len() == 4,
{
    (header[0] + header[1] * 256 + header[2] * 65536 + header[3] * 16777216) as nat
}

/// A frame: the payload's length in four bytes, then the payload. A length that does not fit
/// in 32 bits is cut to its low 32 bits.
pub open spec fn framed(payload: Seq<u8>) -> Seq<u8> {
    le_bytes(payload.len() as u32) + payload
}

/// Four bytes and the number they stand for determine each other.
pub proof fn lemma_length_prefix_round_trip(n: u32)
    ensures
        le_bytes(n).len() == 4,
        le_value(le_bytes(n)) == n,
{
}

/// Any four bytes are the prefix of the number they stand for.
pub proof fn lemma_length_prefix_unique(header: Seq<u8>)
    requires
        header.len() == 4,
    ensures
        le_value(header) <= u32::MAX,
        le_bytes(le_value(header) as u32) == header,
{
    let b0 = header[0] as int;
    let b1 = header[1] as int;
    let b2 = header[2] as int;
    let b3 = header[3] as int;
    let n = le_value(header) as int;
    lemma_fundamental_div_mod_converse(n, 256, b1 + b2 * 256 + b3 * 65536, b0);
    lemma_fundamental_div_mod_converse(n / 256, 256, b2 + b3 * 256, b1);
    lemma_fundamental_div_mod_converse(n, 65536, b2 + b3 * 256, b0 + b1 * 256);
    lemma_fundamental_div_mod_converse(n / 65536, 256, b3, b2);
    lemma_fundamental_div_mod_converse(n, 16777216, b3, b0 + b1 * 256 + b2 * 65536);
    assert(le_bytes(n as u32) =~= header);
}

/// A frame whose payload fits in 32 bits declares the payload's length and carries the
/// payload right after the prefix.
pub proof fn lemma_frame_round_trip(payload: Seq<u8>)
    requires
        payload.len() <= u32::MAX,
    ensures
        framed(payload).len() == 4 + payload.len(),
        le_value(framed(payload).subrange(0, 4)) == payload.len(),
        framed(payload).subrange(4, 4 + payload.len() as int) == payload,
{
    let n = payload.len() as u32;
    lemma_length_prefix_round_trip(n);
    assert(framed(payload).subrange(0, 4) =~= le_bytes(n));
    assert(framed(payload).subrange(4, 4 + payload.len() as int) =~= payload);
}

/// The length prefix of a payload of `len` bytes.
pub fn length_prefix(len: usize) -> (header: [u8; 4])
    ensures
        header@ == le_bytes(len as u32),
{
    let n: u32 = len as u32;
    let header: [u8; 4] = [
        (n % 256) as u8,
        (n / 256 % 256) as u8,
        (n / 65536 % 256) as u8,
        (n / 16777216) as u8,
    ];
    assert(header@ =~= le_bytes(len as u32));
    header
}

/// Puts a payload in a frame.
pub fn frame(payload: &[u8]) -> (bytes: Vec<u8>)
    ensures
        bytes@ == framed(payload@),
{
    let header = length_prefix(payload.len());
    let mut bytes: Vec<u8> = Vec::new();
    bytes.push(header[0]);
    bytes.push(header[1]);
    bytes.push(header[2]);
    bytes.push(header[3]);
    bytes.extend_from_slice(payload);
    assert(bytes@ =~= framed(payload@));
    bytes
}

/// The payload length that a length prefix declares.
pub fn frame_len(header: &[u8; 4]) -> (len: usize)
    ensures
        len == le_value(header@),
{
    let n: u32 = header[0] as u32 + header[1] as u32 * 256 + header[2] as u32 * 65536 + header[3] as u32
        * 16777216;
    n as usize
}

/// The payload length that a received length prefix declares, refused where it is over
/// `MAX_FRAME_LEN`. Nothing of the payload is looked at or made room for.
pub fn checked_frame_len(header: &[u8; 4]) -> (outcome: Result<usize, CacheError>)
    ensures
        le_value(header@) <= MAX_FRAME_LEN ==> outcome is Ok && outcome.unwrap() == le_value(
            header@,
        ),
        le_value(header@) > MAX_FRAME_LEN ==> outcome is Err && outcome.unwrap_err().is_internal(
            "command too large"@,
        ),
{
    let len = frame_len(header);
    if len > MAX_FRAME_LEN {
        Err(CacheError::Internal(String::from_str("command too large")))
    } else {
        Ok(len)
    }
}

} // verus!
