//! Websocket messages, and the proxy that relays signaling between a client
//! and a roomserver.
//!
//! The orchestrator meets websockets from two sides: connections it
//! accepts, from clients and services, and connections it opens, to
//! roomservers. A message of an opened connection can also be a raw frame.
use vstd::prelude::*;

verus! {

/// The close frame of a websocket: a close code and a reason.
pub struct CloseFrame {
    pub code: u16,
    pub reason: String,
}

/// A message on a websocket connection the orchestrator accepted.
pub enum AcceptedMessage {
    Text(String),
    Binary(Vec<u8>),
    Ping(Vec<u8>),
    Pong(Vec<u8>),
    Close(Option<CloseFrame>),
}

/// A message on a websocket connection the orchestrator opened.
pub enum DialedMessage {
    Text(String),
    Binary(Vec<u8>),
    Ping(Vec<u8>),
    Pong(Vec<u8>),
    Close(Option<CloseFrame>),
    /// A raw frame
    Frame,
}

/// The same close frame.
pub open spec fn same_close(a: Option<CloseFrame>, b: Option<CloseFrame>) -> bool {
    match (a, b) {
        (None, None) => true,
        (Some(x), Some(y)) => x.code == y.code && x.reason@ == y.reason@,
        _ => false,
    }
}

/// The message relayed to the roomserver for a message of the client: the
/// same message, except that pongs are dropped, since the roomserver's side
/// answers pings by itself and a relayed pong would be a second answer.
pub open spec fn relayed_to_roomserver(msg: AcceptedMessage, out: Option<DialedMessage>) -> bool {
    match msg {
        AcceptedMessage::Text(t) => out matches Some(DialedMessage::Text(u)) && u@ == t@,
        AcceptedMessage::Binary(b) => out matches Some(DialedMessage::Binary(c)) && c@ == b@,
        AcceptedMessage::Ping(b) => out matches Some(DialedMessage::Ping(c)) && c@ == b@,
        AcceptedMessage::Pong(_) => out is None,
        AcceptedMessage::Close(f) => out matches Some(DialedMessage::Close(g)) && same_close(f, g),
    }
}

/// The message relayed to the client for a message of the roomserver: the
/// same message, except that pongs and raw frames are dropped.
pub open spec fn relayed_to_client(msg: DialedMessage, out: Option<AcceptedMessage>) -> bool {
    match msg {
        DialedMessage::Text(t) => out matches Some(AcceptedMessage::Text(u)) && u@ == t@,
        DialedMessage::Binary(b) => out matches Some(AcceptedMessage::Binary(c)) && c@ == b@,
        DialedMessage::Ping(b) => out matches Some(AcceptedMessage::Ping(c)) && c@ == b@,
        DialedMessage::Pong(_) => out is None,
        DialedMessage::Frame => out is None,
        DialedMessage::Close(f) => out matches Some(AcceptedMessage::Close(g)) && same_close(f, g),
    }
}

/// Translates a message of the client for the roomserver.
pub fn axum_to_tungstenite(msg: AcceptedMessage) -> (r: Option<DialedMessage>)
    ensures
        relayed_to_roomserver(msg, r),
{
    match msg {
        AcceptedMessage::Text(text) => Some(DialedMessage::Text(text)),
        AcceptedMessage::Binary(bin) => Some(DialedMessage::Binary(bin)),
        AcceptedMessage::Close(frame) => Some(DialedMessage::Close(frame)),
        AcceptedMessage::Ping(ping) => Some(DialedMessage::Ping(ping)),
        AcceptedMessage::Pong(_) => None,
    }
}

/// Translates a message of the roomserver for the client.
pub fn tungstenite_to_axum(msg: DialedMessage) -> (r: Option<AcceptedMessage>)
    ensures
        relayed_to_client(msg, r),
{
    match msg {
        DialedMessage::Text(text) => Some(AcceptedMessage::Text(text)),
        DialedMessage::Binary(bin) => Some(AcceptedMessage::Binary(bin)),
        DialedMessage::Close(frame) => Some(AcceptedMessage::Close(frame)),
        DialedMessage::Ping(ping) => Some(AcceptedMessage::Ping(ping)),
        DialedMessage::Pong(_) => None,
        DialedMessage::Frame => None,
    }
}

/// A text or binary message relayed in one direction and back arrives
/// unchanged.
pub proof fn law_relay_round_trip(msg: AcceptedMessage, there: Option<DialedMessage>, back: Option<AcceptedMessage>)
    requires
        relayed_to_roomserver(msg, there),
        there matches Some(m) ==> relayed_to_client(m, back),
        !(msg is Pong),
    ensures
        back is Some,
        match (msg, back) {
            (AcceptedMessage::Text(a), Some(AcceptedMessage::Text(b))) => a@ == b@,
            (AcceptedMessage::Binary(a), Some(AcceptedMessage::Binary(b))) => a@ == b@,
            (AcceptedMessage::Ping(a), Some(AcceptedMessage::Ping(b))) => a@ == b@,
            (AcceptedMessage::Close(a), Some(AcceptedMessage::Close(b))) => same_close(a, b),
            _ => false,
        },
{
}

} // verus!
