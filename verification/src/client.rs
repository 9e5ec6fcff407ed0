use crate::protocol::CacheResponse;
use crate::text::strip_prefix;
use vstd::prelude::*;

verus! {

/// Where a server is reached: a TCP endpoint or the path of a local stream socket.
#[derive(Clone, Debug, PartialEq, Eq)]
pub enum TransportAddr {
    /// `host:port`.
    Tcp(String),
    /// The path of a local stream socket.
    Unix(String),
}

/// An address as contracts see it.
pub enum AddrView {
    Tcp(Seq<char>),
    Unix(Seq<char>),
}

impl View for TransportAddr {
    type V = AddrView;

    open spec fn view(&self) -> AddrView {
        match self {
            TransportAddr::Tcp(endpoint) => AddrView::Tcp(endpoint@),
            TransportAddr::Unix(path) => AddrView::Unix(path@),
        }
    }
}

/// The address that a text names: after `tcp://` a TCP endpoint, after `unix://` the path of
/// a local socket, and a TCP endpoint where the text begins with neither.
pub open spec fn parsed(text: Seq<char>) -> AddrView {
    if "tcp://"@.is_prefix_of(text) {
        AddrView::Tcp(text.skip("tcp://"@.len() as int))
    } else if "unix://"@.is_prefix_of(text) {
        AddrView::Unix(text.skip("unix://"@.len() as int))
    } else {
        AddrView::Tcp(text)
    }
}

impl TransportAddr {
    /// Reads an address.
    pub fn parse(text: &str) -> (addr: TransportAddr)
        ensures
            addr@ == parsed(text@),
    {
        match strip_prefix(text, "tcp://") {
            Some(endpoint) => {
                assert(endpoint@ =~= text@.skip("tcp://"@.len() as int));
                TransportAddr::Tcp(String::from_str(endpoint))
            },
            None => match strip_prefix(text, "unix://") {
                Some(path) => {
                    assert(path@ =~= text@.skip("unix://"@.len() as int));
                    TransportAddr::Unix(String::from_str(path))
                },
                None => TransportAddr::Tcp(String::from_str(text)),
            },
        }
    }
}

/// What a call that sets a value makes of the server's response: success on `Ack`, and any
/// other response handed back as the failure.
pub fn expect_ack(response: CacheResponse) -> (outcome: Result<(), CacheResponse>)
    ensures
        response is Ack ==> outcome is Ok,
        !(response is Ack) ==> outcome is Err && outcome.unwrap_err() == response,
{
    match response {
        CacheResponse::Ack => Ok(()),
        other => Err(other),
    }
}

/// What a call that reads or pops a value makes of the server's response: the value on
/// `Value`, nothing on `Nil`, and any other response handed back as the failure.
pub fn expect_value(response: CacheResponse) -> (outcome: Result<Option<Vec<u8>>, CacheResponse>)
    ensures
        match response {
            CacheResponse::Value(bytes) => outcome is Ok && outcome.unwrap() == Some(bytes),
            CacheResponse::Nil => outcome is Ok && outcome.unwrap() is None,
            _ => outcome is Err && outcome.unwrap_err() == response,
        },
{
    match response {
        CacheResponse::Value(bytes) => Ok(Some(bytes)),
        CacheResponse::Nil => Ok(None),
        other => Err(other),
    }
}

/// What a call that deletes a key or asks for the size makes of the server's response: the
/// number on `Int`, and any other response handed back as the failure.
pub fn expect_int(response: CacheResponse) -> (outcome: Result<i64, CacheResponse>)
    ensures
        match response {
            CacheResponse::Int(count) => outcome is Ok && outcome.unwrap() == count,
            _ => outcome is Err && outcome.unwrap_err() == response,
        },
{
    match response {
        CacheResponse::Int(count) => Ok(count),
        other => Err(other),
    }
}

/// What a call that lists keys makes of the server's response: the keys on `Keys`, and any
/// other response handed back as the failure.
pub fn expect_keys(response: CacheResponse) -> (outcome: Result<Vec<String>, CacheResponse>)
    ensures
        match response {
            CacheResponse::Keys(keys) => outcome is Ok && outcome.unwrap() == keys,
            _ => outcome is Err && outcome.unwrap_err() == response,
        },
{
    match response {
        CacheResponse::Keys(keys) => Ok(keys),
        other => Err(other),
    }
}

} // verus!
