//! The watch over the other orchestrators of a cluster.
//!
//! Every orchestrator refreshes an expiring alive key. When the key of
//! another orchestrator expires, the storage server publishes a keyspace
//! notification, and the state that orchestrator registered is cleaned up.
use vstd::prelude::*;

use crate::ids::{parse_uuid, uuid_parse};
use crate::storage::redis::util::PMessageData;
use crate::text::{
    has_prefix, has_suffix, parse_i64, parse_i64_spec, split_first_text, split_once_text,
    strip_prefix, strip_suffix, text_eq,
};

verus! {

/// The keyspace notification pattern for the alive keys of orchestrators,
/// in any database.
pub const ORCHESTRATOR_ALIVE_KEY_SUBSCRIPTION: &'static str = "__keyspace@*__:ot-orchestrator:orchestrator:*:alive";

/// Why the channel of an alive key notification cannot be read.
#[derive(Clone, Copy, Debug, PartialEq, Eq, Structural)]
pub enum ChannelError {
    /// The channel does not start with `__keyspace@`
    Prefix,
    /// No `__:` ends the database number
    Database,
    /// The database number is no integer
    DatabaseNumber,
    /// The key does not start with `ot-orchestrator:orchestrator:`
    KeyPrefix,
    /// The key does not end with `:alive`
    KeySuffix,
    /// The orchestrator id is no UUID
    Uuid,
}

/// What the channel of an alive key notification says, for the database
/// `db`: the id of the orchestrator whose key it is, `None` for another
/// database.
pub open spec fn alive_key_event(channel: Seq<char>, db: i64) -> Result<Option<u128>, ChannelError> {
    if !has_prefix(channel, "__keyspace@"@) {
        Err(ChannelError::Prefix)
    } else {
        let after_at = channel.skip("__keyspace@"@.len() as int);
        match split_first_text(after_at, "__:"@) {
            None => Err(ChannelError::Database),
            Some((db_text, rest)) => match parse_i64_spec(db_text) {
                None => Err(ChannelError::DatabaseNumber),
                Some(n) => if n != db {
                    Ok(None)
                } else if !has_prefix(rest, "ot-orchestrator:orchestrator:"@) {
                    Err(ChannelError::KeyPrefix)
                } else {
                    let key = rest.skip("ot-orchestrator:orchestrator:"@.len() as int);
                    if !has_suffix(key, ":alive"@) {
                        Err(ChannelError::KeySuffix)
                    } else {
                        match uuid_parse(key.subrange(0, key.len() - ":alive"@.len())) {
                            Some(id) => Ok(Some(id)),
                            None => Err(ChannelError::Uuid),
                        }
                    }
                },
            },
        }
    }
}

/// Reads the orchestrator id out of the channel of an alive key
/// notification, such as
/// `__keyspace@0__:ot-orchestrator:orchestrator:e13127e7-899a-4dcc-993a-28e5bc15cb11:alive`.
/// A notification for another database than `redis_db` gives `None`.
pub fn parse_alive_key_event(channel: &str, redis_db: i64) -> (r: Result<Option<u128>, ChannelError>)
    ensures
        r == alive_key_event(channel@, redis_db),
{
    let after_at = match strip_prefix(channel, "__keyspace@") {
        Some(rest) => rest,
        None => return Err(ChannelError::Prefix),
    };
    let (db_text, rest) = match split_once_text(after_at, "__:") {
        Some(parts) => parts,
        None => return Err(ChannelError::Database),
    };
    let db = match parse_i64(db_text) {
        Some(n) => n,
        None => return Err(ChannelError::DatabaseNumber),
    };
    if db != redis_db {
        return Ok(None);
    }
    let key = match strip_prefix(rest, "ot-orchestrator:orchestrator:") {
        Some(k) => k,
        None => return Err(ChannelError::KeyPrefix),
    };
    let uuid_part = match strip_suffix(key, ":alive") {
        Some(u) => u,
        None => return Err(ChannelError::KeySuffix),
    };
    match parse_uuid(uuid_part) {
        Some(id) => Ok(Some(id)),
        None => Err(ChannelError::Uuid),
    }
}

/// What a pattern message asks of this orchestrator.
#[derive(Clone, Copy, Debug, PartialEq, Eq, Structural)]
pub enum PeerAction {
    /// Nothing: the message is of another pattern, event or database
    Ignore,
    /// Clean up the state of the orchestrator with this id, whose alive key
    /// expired
    Cleanup(u128),
}

/// Why a pattern message cannot be handled.
#[derive(Clone, Copy, Debug, PartialEq, Eq, Structural)]
pub enum PeerError {
    /// The channel cannot be read
    Channel(ChannelError),
    /// The alive key of this very orchestrator expired
    OwnKeyExpired(u128),
}

/// The handling of a pattern message by the orchestrator `own_id` on the
/// database `redis_db`.
pub open spec fn peer_action(
    pattern: Seq<char>,
    channel: Seq<char>,
    payload: Seq<char>,
    redis_db: i64,
    own_id: u128,
) -> Result<PeerAction, PeerError> {
    if pattern != ORCHESTRATOR_ALIVE_KEY_SUBSCRIPTION@ || payload != "expired"@ {
        Ok(PeerAction::Ignore)
    } else {
        match alive_key_event(channel, redis_db) {
            Err(e) => Err(PeerError::Channel(e)),
            Ok(None) => Ok(PeerAction::Ignore),
            Ok(Some(id)) => if id == own_id {
                Err(PeerError::OwnKeyExpired(id))
            } else {
                Ok(PeerAction::Cleanup(id))
            },
        }
    }
}

/// Decides what a pattern message asks: only the expiry of the alive key of
/// another orchestrator in this database leads to a cleanup, and the expiry
/// of this orchestrator's own key is an error.
pub fn handle_pmessage(message: &PMessageData, redis_db: i64, own_id: u128) -> (r: Result<PeerAction, PeerError>)
    ensures
        r == peer_action(message.pattern@, message.channel@, message.payload@, redis_db, own_id),
{
    if !text_eq(message.pattern.as_str(), ORCHESTRATOR_ALIVE_KEY_SUBSCRIPTION) {
        return Ok(PeerAction::Ignore);
    }
    if !text_eq(message.payload.as_str(), "expired") {
        return Ok(PeerAction::Ignore);
    }
    match parse_alive_key_event(message.channel.as_str(), redis_db) {
        Err(e) => Err(PeerError::Channel(e)),
        Ok(None) => Ok(PeerAction::Ignore),
        Ok(Some(id)) => if id == own_id {
            Err(PeerError::OwnKeyExpired(id))
        } else {
            Ok(PeerAction::Cleanup(id))
        },
    }
}

/// The keyspace notification flags with `K` (keyspace events) and `x`
/// (expiry events) added where missing, in that order; `None` when both
/// are set already.
pub open spec fn keyspace_config_update(config: Seq<char>) -> Option<Seq<char>> {
    if config.contains('K') && config.contains('x') {
        None
    } else {
        let with_k = if config.contains('K') {
            config
        } else {
            config.push('K')
        };
        Some(
            if config.contains('x') {
                with_k
            } else {
                with_k.push('x')
            },
        )
    }
}

/// After the update the flags publish keyspace events and expiry events,
/// and every flag that was set stays set; no update is made only when both
/// are set already.
pub proof fn law_keyspace_flags_complete(config: Seq<char>)
    ensures
        match keyspace_config_update(config) {
            Some(updated) => {
                &&& updated.contains('K')
                &&& updated.contains('x')
                &&& forall|c: char| config.contains(c) ==> #[trigger] updated.contains(c)
            },
            None => config.contains('K') && config.contains('x'),
        },
{
    broadcast use vstd::seq_lib::lemma_seq_contains_after_push;

}

/// The notification flags to set so that the expiry of alive keys is
/// published; `None` when the current flags suffice.
pub fn keyspace_config_to_set(config: String) -> (r: Option<String>)
    ensures
        match r {
            Some(s) => keyspace_config_update(config@) == Some(s@),
            None => keyspace_config_update(config@) is None,
        },
{
    let has_k = crate::text::contains_char(config.as_str(), 'K');
    let has_x = crate::text::contains_char(config.as_str(), 'x');
    if has_k && has_x {
        return None;
    }
    let mut updated = config;
    if !has_k {
        proof {
            reveal_strlit("K");
        }
        updated.append("K");
    }
    if !has_x {
        proof {
            reveal_strlit("x");
        }
        updated.append("x");
    }
    Some(updated)
}

} // verus!
