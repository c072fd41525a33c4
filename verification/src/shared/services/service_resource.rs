//! The resources that service instances manage, and their text form.
//!
//! The text form is `roomserver:{room}`, `recorder:{room}[:{breakout}]` or
//! `transcription:{room}[:{breakout}]`, where `{room}` is the hyphenated
//! room id and `{breakout}` the decimal breakout room number.
use vstd::prelude::*;

use crate::ids::{hyphenated, lemma_no_colon, room_id_parse, RoomId};
use crate::shared::services::recorder::RecorderResource;
use crate::shared::services::transcription::TranscriptionResource;
use crate::shared::ServiceKind;
use crate::text::{
    concat2, concat3, decimal, has_prefix, lemma_parse_u32_decimal, parse_u32, parse_u32_spec,
    split_first, split_once, strip_prefix, u32_to_text,
};

verus! {

/// A resource managed by some service instance.
#[derive(Clone, Copy, Debug, PartialEq, Eq, Hash, Structural)]
pub enum ServiceResource {
    Roomserver(RoomId),
    Recorder(RecorderResource),
    Transcription(TranscriptionResource),
}

/// The kind of service that manages a resource.
pub open spec fn resource_kind(r: ServiceResource) -> ServiceKind {
    match r {
        ServiceResource::Roomserver(_) => ServiceKind::Roomserver,
        ServiceResource::Recorder(_) => ServiceKind::Recorder,
        ServiceResource::Transcription(_) => ServiceKind::Transcription,
    }
}

/// `{room}` or `{room}:{breakout}`.
pub open spec fn room_and_breakout_text(room_id: RoomId, breakout_id: Option<u32>) -> Seq<char> {
    match breakout_id {
        Some(b) => hyphenated(room_id.0) + ":"@ + decimal(b as nat),
        None => hyphenated(room_id.0),
    }
}

/// The text form of a resource.
pub open spec fn resource_text(r: ServiceResource) -> Seq<char> {
    match r {
        ServiceResource::Roomserver(room_id) => "roomserver:"@ + hyphenated(room_id.0),
        ServiceResource::Recorder(rr) => "recorder:"@ + room_and_breakout_text(rr.room_id, rr.breakout_id),
        ServiceResource::Transcription(t) => "transcription:"@ + room_and_breakout_text(t.room_id, t.breakout_id),
    }
}

/// Why a text is not a resource.
pub enum ResourceParseFailure {
    UnknownKind,
    InvalidRoomId,
    InvalidBreakoutId,
}

/// `{room}` or `{room}:{breakout}`, split at the first colon.
pub open spec fn parse_room_and_breakout_spec(rest: Seq<char>) -> Result<(RoomId, Option<u32>), ResourceParseFailure> {
    let room_part = match split_first(rest, ':') {
        Some(parts) => parts.0,
        None => rest,
    };
    match room_id_parse(room_part) {
        None => Err(ResourceParseFailure::InvalidRoomId),
        Some(v) => match split_first(rest, ':') {
            None => Ok((RoomId(v), None)),
            Some(parts) => match parse_u32_spec(parts.1) {
                Some(b) => Ok((RoomId(v), Some(b))),
                None => Err(ResourceParseFailure::InvalidBreakoutId),
            },
        },
    }
}

/// The resource that a text denotes, or why it denotes none.
pub open spec fn parse_resource_spec(s: Seq<char>) -> Result<ServiceResource, ResourceParseFailure> {
    if has_prefix(s, "roomserver:"@) {
        match room_id_parse(s.skip("roomserver:"@.len() as int)) {
            Some(v) => Ok(ServiceResource::Roomserver(RoomId(v))),
            None => Err(ResourceParseFailure::InvalidRoomId),
        }
    } else if has_prefix(s, "recorder:"@) {
        match parse_room_and_breakout_spec(s.skip("recorder:"@.len() as int)) {
            Ok(p) => Ok(ServiceResource::Recorder(RecorderResource { room_id: p.0, breakout_id: p.1 })),
            Err(f) => Err(f),
        }
    } else if has_prefix(s, "transcription:"@) {
        match parse_room_and_breakout_spec(s.skip("transcription:"@.len() as int)) {
            Ok(p) => Ok(ServiceResource::Transcription(TranscriptionResource { room_id: p.0, breakout_id: p.1 })),
            Err(f) => Err(f),
        }
    } else {
        Err(ResourceParseFailure::UnknownKind)
    }
}

/// Error returned when failing to parse a [`ServiceResource`] from its text form. Each
/// variant holds the whole input.
#[derive(Clone, Debug, PartialEq, Eq)]
pub enum ServiceResourceParseError {
    UnknownKind(String),
    InvalidRoomId { input: String },
    InvalidBreakoutId { input: String },
}

impl ServiceResourceParseError {
    /// The input that failed to parse.
    pub open spec fn input_view(&self) -> Seq<char> {
        match self {
            ServiceResourceParseError::UnknownKind(s) => s@,
            ServiceResourceParseError::InvalidRoomId { input } => input@,
            ServiceResourceParseError::InvalidBreakoutId { input } => input@,
        }
    }

    /// Why the input failed to parse.
    pub open spec fn failure(&self) -> ResourceParseFailure {
        match self {
            ServiceResourceParseError::UnknownKind(_) => ResourceParseFailure::UnknownKind,
            ServiceResourceParseError::InvalidRoomId { .. } => ResourceParseFailure::InvalidRoomId,
            ServiceResourceParseError::InvalidBreakoutId { .. } => ResourceParseFailure::InvalidBreakoutId,
        }
    }
}

/// The outcome of parsing, with the error reduced to why it failed.
pub open spec fn parse_outcome(r: Result<ServiceResource, ServiceResourceParseError>) -> Result<ServiceResource, ResourceParseFailure> {
    match r {
        Ok(x) => Ok(x),
        Err(e) => Err(e.failure()),
    }
}

/// Parses `{room}` or `{room}:{breakout}`; `full` is the whole input, kept for the error.
fn parse_room_and_breakout(full: &str, rest: &str) -> (r: Result<(RoomId, Option<u32>), ServiceResourceParseError>)
    ensures
        match r {
            Ok(p) => parse_room_and_breakout_spec(rest@) == Ok::<(RoomId, Option<u32>), ResourceParseFailure>(p),
            Err(e) => parse_room_and_breakout_spec(rest@) == Err::<(RoomId, Option<u32>), ResourceParseFailure>(e.failure())
                && e.input_view() == full@,
        },
{
    let parts = split_once(rest, ':');
    let room_part = match parts {
        Some((a, _)) => a,
        None => rest,
    };
    let room_id = match RoomId::parse(room_part) {
        Some(id) => id,
        None => return Err(ServiceResourceParseError::InvalidRoomId { input: full.to_owned() }),
    };
    match parts {
        None => Ok((room_id, None)),
        Some((_, b)) => match parse_u32(b) {
            Some(n) => Ok((room_id, Some(n))),
            None => Err(ServiceResourceParseError::InvalidBreakoutId { input: full.to_owned() }),
        },
    }
}

impl ServiceResource {
    /// The kind of service that manages this resource.
    pub fn kind(&self) -> (k: ServiceKind)
        ensures
            k == resource_kind(*self),
    {
        match self {
            ServiceResource::Roomserver(_) => ServiceKind::Roomserver,
            ServiceResource::Recorder(_) => ServiceKind::Recorder,
            ServiceResource::Transcription(_) => ServiceKind::Transcription,
        }
    }

    /// The text form of this resource (its `Display`). Parsing it gives the resource back.
    pub fn to_text(&self) -> (s: String)
        ensures
            s@ == resource_text(*self),
            parse_resource_spec(s@) == Ok::<ServiceResource, ResourceParseFailure>(*self),
    {
        match self {
            ServiceResource::Roomserver(room_id) => {
                let id = room_id.to_text();
                let s = concat2("roomserver:", id.as_str());
                proof {
                    lemma_prefix_skip("roomserver:"@, id@);
                }
                s
            },
            ServiceResource::Recorder(r) => {
                let rest = room_and_breakout(r.room_id, r.breakout_id);
                let s = concat2("recorder:", rest.as_str());
                proof {
                    reveal_strlit("recorder:");
                    reveal_strlit("roomserver:");
                    lemma_prefix_skip("recorder:"@, rest@);
                    assert(s@[1] == 'e');
                    assert(!has_prefix(s@, "roomserver:"@)) by {
                        if has_prefix(s@, "roomserver:"@) {
                            assert(s@.subrange(0, 11)[1] == "roomserver:"@[1]);
                        }
                    }
                }
                s
            },
            ServiceResource::Transcription(t) => {
                let rest = room_and_breakout(t.room_id, t.breakout_id);
                let s = concat2("transcription:", rest.as_str());
                proof {
                    reveal_strlit("transcription:");
                    reveal_strlit("recorder:");
                    reveal_strlit("roomserver:");
                    lemma_prefix_skip("transcription:"@, rest@);
                    assert(s@[1] == 'r');
                    assert(!has_prefix(s@, "roomserver:"@)) by {
                        if has_prefix(s@, "roomserver:"@) {
                            assert(s@.subrange(0, 11)[1] == "roomserver:"@[1]);
                        }
                    }
                    assert(!has_prefix(s@, "recorder:"@)) by {
                        if has_prefix(s@, "recorder:"@) {
                            assert(s@.subrange(0, 9)[1] == "recorder:"@[1]);
                        }
                    }
                }
                s
            },
        }
    }

    /// Parses a resource from its text form.
    pub fn try_from_text(s: &str) -> (r: Result<ServiceResource, ServiceResourceParseError>)
        ensures
            parse_outcome(r) == parse_resource_spec(s@),
            r matches Err(e) ==> e.input_view() == s@,
    {
        if let Some(rest) = strip_prefix(s, "roomserver:") {
            return match RoomId::parse(rest) {
                Some(room_id) => Ok(ServiceResource::Roomserver(room_id)),
                None => Err(ServiceResourceParseError::InvalidRoomId { input: s.to_owned() }),
            };
        }
        if let Some(rest) = strip_prefix(s, "recorder:") {
            let (room_id, breakout_id) = parse_room_and_breakout(s, rest)?;
            return Ok(ServiceResource::Recorder(RecorderResource { room_id, breakout_id }));
        }
        if let Some(rest) = strip_prefix(s, "transcription:") {
            let (room_id, breakout_id) = parse_room_and_breakout(s, rest)?;
            return Ok(ServiceResource::Transcription(TranscriptionResource { room_id, breakout_id }));
        }
        Err(ServiceResourceParseError::UnknownKind(s.to_owned()))
    }

    /// The resource of a room on a roomserver.
    pub fn from_room_id(room_id: RoomId) -> (r: ServiceResource)
        ensures
            r == ServiceResource::Roomserver(room_id),
    {
        ServiceResource::Roomserver(room_id)
    }

    /// The resource of a recording.
    pub fn from_recorder_resource(resource: RecorderResource) -> (r: ServiceResource)
        ensures
            r == ServiceResource::Recorder(resource),
    {
        ServiceResource::Recorder(resource)
    }

    /// The resource of a transcription.
    pub fn from_transcription_resource(resource: TranscriptionResource) -> (r: ServiceResource)
        ensures
            r == ServiceResource::Transcription(resource),
    {
        ServiceResource::Transcription(resource)
    }
}

proof fn lemma_prefix_skip(p: Seq<char>, rest: Seq<char>)
    ensures
        has_prefix(p + rest, p),
        (p + rest).skip(p.len() as int) == rest,
{
    assert((p + rest).subrange(0, p.len() as int) =~= p);
    assert((p + rest).skip(p.len() as int) =~= rest);
}

/// `{room}` or `{room}:{breakout}`, which parses back to the room and breakout room.
fn room_and_breakout(room_id: RoomId, breakout_id: Option<u32>) -> (s: String)
    ensures
        s@ == room_and_breakout_text(room_id, breakout_id),
        parse_room_and_breakout_spec(s@) == Ok::<(RoomId, Option<u32>), ResourceParseFailure>((room_id, breakout_id)),
{
    let id = room_id.to_text();
    proof {
        lemma_no_colon(room_id.0, 0);
    }
    match breakout_id {
        Some(b) => {
            let n = u32_to_text(b);
            let s = concat3(id.as_str(), ":", n.as_str());
            proof {
                reveal_strlit(":");
                assert(":"@ =~= seq![':']);
                lemma_no_colon(room_id.0, b as nat);
                lemma_parse_u32_decimal(b);
                lemma_split_at_separator(id@, n@, ':');
            }
            s
        },
        None => {
            proof {
                lemma_no_separator(id@, ':');
            }
            id
        },
    }
}

/// Splitting `a + [c] + b` at the first `c`, where `a` holds no `c`, gives `a` and `b`.
pub proof fn lemma_split_at_separator(a: Seq<char>, b: Seq<char>, c: char)
    requires
        !a.contains(c),
    ensures
        split_first(a + seq![c] + b, c) == Some((a, b)),
{
    let s = a + seq![c] + b;
    let i = a.len() as int;
    assert(s[i] == c);
    assert(exists|k: int| 0 <= k < s.len() && s[k] == c);
    assert forall|j: int| 0 <= j < i implies s[j] != c by {
        assert(s[j] == a[j]);
        if s[j] == c {
            assert(a.contains(c));
        }
    }
    let k = choose|k: int| 0 <= k < s.len() && s[k] == c && forall|j: int| 0 <= j < k ==> s[j] != c;
    assert(0 <= i < s.len() && s[i] == c && forall|j: int| 0 <= j < i ==> s[j] != c);
    assert(k == i) by {
        if k < i {
            assert(s[k] == a[k]);
            assert(a.contains(c));
        }
        if k > i {
            assert(s[i] != c);
        }
    }
    assert(s.subrange(0, i) =~= a);
    assert(s.subrange(i + 1, s.len() as int) =~= b);
}

/// A text without `c` cannot be split at `c`.
pub proof fn lemma_no_separator(a: Seq<char>, c: char)
    requires
        !a.contains(c),
    ensures
        split_first(a, c) is None,
{
    if exists|i: int| 0 <= i < a.len() && a[i] == c {
        let i = choose|i: int| 0 <= i < a.len() && a[i] == c;
        assert(a.contains(c));
    }
}

} // verus!
