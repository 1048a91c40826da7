use vstd::prelude::*;

use crate::types::Digest;

verus! {

/// Default interval between the client's own pings, in milliseconds.
pub const DEFAULT_PING_INTERVAL_MS: u64 = 10_000;

/// Error body of the order stream's API responses.
#[derive(Clone, Debug, PartialEq, Eq)]
pub struct ErrMsg {
    /// Error type.
    pub error_type: String,
    /// Error message body.
    pub msg: String,
}

impl ErrMsg {
    /// An error body with the given type and message.
    pub fn new(error_type: &str, msg: &str) -> (r: Self)
        ensures
            r.error_type@ == error_type@,
            r.msg@ == msg@,
    {
        ErrMsg { error_type: error_type.to_owned(), msg: msg.to_owned() }
    }
}

/// Nonce, hex encoded, that the server hands out for websocket authentication.
#[derive(Clone, Debug, PartialEq, Eq)]
pub struct Nonce {
    pub nonce: String,
}

/// The ping interval: the configured one when it was given and well formed,
/// the default otherwise.
pub fn ping_interval_ms(configured: Option<u64>) -> (r: u64)
    ensures
        r == match configured {
            Some(ms) => ms,
            None => DEFAULT_PING_INTERVAL_MS,
        },
{
    match configured {
        Some(ms) => ms,
        None => DEFAULT_PING_INTERVAL_MS,
    }
}

/// What the order websocket delivered, or the ping timer firing with fresh
/// random payload.
#[derive(Clone, Debug, PartialEq, Eq)]
pub enum SocketEvent {
    Text,
    Ping(Vec<u8>),
    Pong(Vec<u8>),
    Close,
    Binary,
    Frame,
    Error,
    End,
    Tick(Vec<u8>),
}

/// What the stream does in answer to an event.
#[derive(Clone, Debug, PartialEq, Eq)]
pub enum StreamAction {
    /// Parse the text message as an order and yield it.
    ParseOrder,
    /// Answer a server ping with this payload.
    SendPong(Vec<u8>),
    /// Send our own ping with this payload.
    SendPing(Vec<u8>),
    /// Nothing to do.
    Ignore,
    /// Close the stream.
    Stop,
}

/// The keep-alive state of an order stream: the payload of the ping that still
/// awaits its pong.
#[derive(Clone, Debug, PartialEq, Eq)]
pub struct StreamState {
    pub awaiting_pong: Option<Vec<u8>>,
}

/// Whether `a` and `b` hold the same bytes.
pub fn bytes_eq(a: &Vec<u8>, b: &Vec<u8>) -> (r: bool)
    ensures
        r == (a@ == b@),
{
    if a.len() != b.len() {
        return false;
    }
    let mut i: usize = 0;
    while i < a.len()
        invariant
            i <= a.len(),
            a@.len() == b@.len(),
            forall|j: int| 0 <= j < i ==> a@[j] == b@[j],
        decreases a.len() - i,
    {
        if a[i] != b[i] {
            return false;
        }
        i = i + 1;
    }
    assert(a@ =~= b@);
    true
}

impl StreamState {
    /// A fresh stream, with no ping outstanding.
    pub fn new() -> (r: Self)
        ensures
            r.awaiting_pong is None,
    {
        StreamState { awaiting_pong: None }
    }

    /// Answers one event. Text is parsed as an order; a server ping gets a pong
    /// with its payload; a pong settles the outstanding ping, and one whose
    /// payload differs from it stops the stream; the timer sends a ping and
    /// remembers its payload; close, end of stream and errors stop the stream;
    /// binary and raw frames are ignored.
    pub fn on_event(&mut self, ev: SocketEvent) -> (r: StreamAction)
        ensures
            match ev {
                SocketEvent::Text => r == StreamAction::ParseOrder && *final(self) == *old(self),
                SocketEvent::Ping(d) => r == StreamAction::SendPong(d) && *final(self) == *old(self),
                SocketEvent::Pong(d) => {
                    &&& final(self).awaiting_pong is None
                    &&& old(self).awaiting_pong is None ==> r == StreamAction::Ignore
                    &&& old(self).awaiting_pong is Some ==> r == (if old(self).awaiting_pong->0@
                        == d@ {
                        StreamAction::Ignore
                    } else {
                        StreamAction::Stop
                    })
                },
                SocketEvent::Tick(d) => r == StreamAction::SendPing(d) && final(self).awaiting_pong is Some
                    && final(self).awaiting_pong->0@ == d@,
                SocketEvent::Binary | SocketEvent::Frame => r == StreamAction::Ignore && *final(self) == *old(self),
                SocketEvent::Close | SocketEvent::Error | SocketEvent::End => r
                    == StreamAction::Stop && *final(self) == *old(self),
            },
    {
        match ev {
            SocketEvent::Text => StreamAction::ParseOrder,
            SocketEvent::Ping(d) => StreamAction::SendPong(d),
            SocketEvent::Pong(d) => {
                let expected = self.awaiting_pong.take();
                match expected {
                    Some(e) => {
                        if bytes_eq(&e, &d) {
                            StreamAction::Ignore
                        } else {
                            StreamAction::Stop
                        }
                    },
                    None => StreamAction::Ignore,
                }
            },
            SocketEvent::Tick(d) => {
                self.awaiting_pong = Some(d.clone());
                StreamAction::SendPing(d)
            },
            SocketEvent::Binary | SocketEvent::Frame => StreamAction::Ignore,
            SocketEvent::Close | SocketEvent::Error | SocketEvent::End => StreamAction::Stop,
        }
    }
}

/// Why no order could be picked from a fetch.
#[derive(Clone, Copy, Debug, PartialEq, Eq, Structural)]
pub enum FetchOrderError {
    /// No order matched.
    NotFound,
    /// Several orders matched and no digest was given to tell them apart.
    Ambiguous,
}

/// Whether `i` is the first index of `digests` that holds `d`.
pub open spec fn first_match(digests: Seq<Digest>, d: Digest, i: int) -> bool {
    &&& 0 <= i < digests.len()
    &&& digests[i] == d
    &&& forall|j: int| 0 <= j < i ==> digests[j] != d
}

/// Picks the order to take from a fetch that returned orders with request
/// digests `digests`: the only one; else the first with the wanted digest.
/// Returns its index.
pub fn select_fetched_order(digests: &Vec<Digest>, wanted: Option<Digest>) -> (r: Result<
    usize,
    FetchOrderError,
>)
    ensures
        digests@.len() == 0 ==> r == Err::<usize, FetchOrderError>(FetchOrderError::NotFound),
        digests@.len() == 1 ==> r == Ok::<usize, FetchOrderError>(0),
        digests@.len() >= 2 && wanted is None ==> r == Err::<usize, FetchOrderError>(
            FetchOrderError::Ambiguous,
        ),
        digests@.len() >= 2 && wanted is Some ==> match r {
            Ok(i) => first_match(digests@, wanted->0, i as int),
            Err(e) => e == FetchOrderError::NotFound && forall|j: int|
                0 <= j < digests@.len() ==> digests@[j] != wanted->0,
        },
{
    if digests.len() == 0 {
        return Err(FetchOrderError::NotFound);
    }
    if digests.len() == 1 {
        return Ok(0);
    }
    match wanted {
        None => Err(FetchOrderError::Ambiguous),
        Some(d) => {
            let mut i: usize = 0;
            while i < digests.len()
                invariant
                    i <= digests.len(),
                    digests@.len() >= 2,
                    wanted == Some(d),
                    forall|j: int| 0 <= j < i ==> digests@[j] != d,
                decreases digests.len() - i,
            {
                if digests[i] == d {
                    return Ok(i);
                }
                i = i + 1;
            }
            Err(FetchOrderError::NotFound)
        },
    }
}

} // verus!
