//! Values that the storage server hands back, and the notifications it
//! publishes.
use vstd::prelude::*;

use vstd::utf8::{decode_utf8, valid_utf8};

use crate::text::{concat3, string_from_utf8, to_owned_text};

verus! {

/// A reply value of the storage server, as far as this crate reads it.
#[derive(Clone, Debug, PartialEq, Eq)]
pub enum RedisValue {
    /// No value
    Nil,
    /// An integer
    Int(i64),
    /// A binary-safe string
    BulkString(Vec<u8>),
    /// A status string
    SimpleString(String),
    /// The `OK` status
    Okay,
    /// Any other kind of value
    Other,
}

/// A copy of some bytes.
pub fn bytes_to_vec(bytes: &[u8]) -> (v: Vec<u8>)
    ensures
        v@ == bytes@,
{
    let mut v: Vec<u8> = Vec::new();
    let mut i: usize = 0;
    while i < bytes.len()
        invariant
            i <= bytes@.len(),
            v@ == bytes@.subrange(0, i as int),
        decreases bytes.len() - i,
    {
        v.push(bytes[i]);
        i = i + 1;
    }
    assert(v@ =~= bytes@);
    v
}

/// Why a reply value is not a string.
#[derive(Clone, Copy, Debug, PartialEq, Eq, Structural)]
pub enum RedisValueError {
    /// A bulk string that is not UTF-8
    NonUtf8,
    /// A value that is no string at all
    UnexpectedType,
}

/// The text of a reply value, if it is a string.
pub open spec fn redis_text(value: RedisValue) -> Result<Seq<char>, RedisValueError> {
    match value {
        RedisValue::BulkString(bytes) => if valid_utf8(bytes@) {
            Ok(decode_utf8(bytes@))
        } else {
            Err(RedisValueError::NonUtf8)
        },
        RedisValue::SimpleString(s) => Ok(s@),
        _ => Err(RedisValueError::UnexpectedType),
    }
}

/// The text of a reply value: a bulk string read as UTF-8, or a status
/// string.
pub fn redis_to_string(value: &RedisValue) -> (r: Result<String, RedisValueError>)
    ensures
        match r {
            Ok(s) => redis_text(*value) == Ok::<Seq<char>, RedisValueError>(s@),
            Err(e) => redis_text(*value) == Err::<Seq<char>, RedisValueError>(e),
        },
{
    match value {
        RedisValue::BulkString(bytes) => match string_from_utf8(bytes.clone()) {
            Some(s) => Ok(s),
            None => Err(RedisValueError::NonUtf8),
        },
        RedisValue::SimpleString(s) => Ok(to_owned_text(s.as_str())),
        _ => Err(RedisValueError::UnexpectedType),
    }
}

/// Why a notification is not a pattern message.
#[derive(Clone, Copy, Debug, PartialEq, Eq, Structural)]
pub enum PMessageError {
    /// The notification does not have three parts; their number is given
    WrongLength(usize),
    /// The pattern is no string
    Pattern(RedisValueError),
    /// The channel is no string
    Channel(RedisValueError),
    /// The payload is no string
    Payload(RedisValueError),
}

/// A notification that the storage server publishes for a subscribed
/// pattern.
pub struct PMessageData {
    /// The pattern that matched the channel, e.g.
    /// `__keyspace@*__:ot-orchestrator:orchestrator:*:alive`
    pub pattern: String,
    /// The channel the message was published to, e.g.
    /// `__keyspace@0__:ot-orchestrator:orchestrator:e13127e7-899a-4dcc-993a-28e5bc15cb11:alive`
    pub channel: String,
    /// The payload, e.g. `expired` or `set`
    pub payload: String,
}

impl PMessageData {
    /// The pattern message made of the three parts of a notification.
    pub fn try_from(values: Vec<RedisValue>) -> (r: Result<PMessageData, PMessageError>)
        ensures
            values@.len() != 3 ==> r == Err::<PMessageData, PMessageError>(PMessageError::WrongLength(values@.len() as usize)),
            values@.len() == 3 ==> match (redis_text(values@[0]), redis_text(values@[1]), redis_text(values@[2])) {
                (Err(e), _, _) => r == Err::<PMessageData, PMessageError>(PMessageError::Pattern(e)),
                (Ok(_), Err(e), _) => r == Err::<PMessageData, PMessageError>(PMessageError::Channel(e)),
                (Ok(_), Ok(_), Err(e)) => r == Err::<PMessageData, PMessageError>(PMessageError::Payload(e)),
                (Ok(p), Ok(c), Ok(l)) => r matches Ok(m) && m.pattern@ == p && m.channel@ == c && m.payload@ == l,
            },
    {
        if values.len() != 3 {
            return Err(PMessageError::WrongLength(values.len()));
        }
        let pattern = match redis_to_string(&values[0]) {
            Ok(s) => s,
            Err(e) => return Err(PMessageError::Pattern(e)),
        };
        let channel = match redis_to_string(&values[1]) {
            Ok(s) => s,
            Err(e) => return Err(PMessageError::Channel(e)),
        };
        let payload = match redis_to_string(&values[2]) {
            Ok(s) => s,
            Err(e) => return Err(PMessageError::Payload(e)),
        };
        Ok(PMessageData { pattern, channel, payload })
    }

    /// The message as `Display` writes it.
    pub fn to_text(&self) -> (s: String)
        ensures
            s@ == "PMessageData { pattern: "@ + self.pattern@ + ", channel: "@ + self.channel@ + ", payload: "@
                + self.payload@ + " }"@,
    {
        let first = concat3("PMessageData { pattern: ", self.pattern.as_str(), ", channel: ");
        let second = concat3(first.as_str(), self.channel.as_str(), ", payload: ");
        concat3(second.as_str(), self.payload.as_str(), " }")
    }
}

} // verus!
