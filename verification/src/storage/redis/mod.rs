//! The orchestrator state in a shared storage server, which several
//! orchestrators of a cluster use together.
use vstd::prelude::*;

use crate::shared::register::{register_kind, RegisterType};
use crate::shared::services::{InstanceData, InstanceDataView, ServiceResource};
use crate::shared::ServiceKind;
use crate::storage::redis::keys::{service_id_from_text, ServiceId, ServiceIdError};
use crate::shared::Metrics;
use crate::storage::redis::scripts::{api_key_ids_of, reply_data, texts, ReplyError};
use crate::text::{has_prefix, has_suffix, strip_prefix, strip_suffix, to_owned_text};

pub mod keys;
pub mod peer_monitor;
pub mod scripts;
pub mod util;

verus! {

/// The seconds an orchestrator's alive key lives; an orchestrator whose key
/// expired is dead and is cleaned up.
pub const KEEP_ALIVE_TTL: u64 = 5;

/// The resources that a registration carries.
pub open spec fn registration_resource_list(register_type: RegisterType) -> Seq<ServiceResource> {
    match register_type {
        RegisterType::Recorder(r) => r.rooms@.map_values(|x| ServiceResource::Recorder(x)),
        RegisterType::Roomserver(r) => r.rooms@.map_values(|x| ServiceResource::Roomserver(x)),
        RegisterType::Transcription(r) => r.rooms@.map_values(|x| ServiceResource::Transcription(x)),
    }
}

/// The kind of a registration and the resources it carries.
pub fn registration_resources(register_type: &RegisterType) -> (r: (ServiceKind, Vec<ServiceResource>))
    ensures
        r.0 == register_kind(*register_type),
        r.1@ == registration_resource_list(*register_type),
{
    let mut out: Vec<ServiceResource> = Vec::new();
    match register_type {
        RegisterType::Recorder(r) => {
            let mut i: usize = 0;
            while i < r.rooms.len()
                invariant
                    i <= r.rooms@.len(),
                    out@ == r.rooms@.map_values(|x| ServiceResource::Recorder(x)).subrange(0, i as int),
                decreases r.rooms.len() - i,
            {
                out.push(ServiceResource::Recorder(r.rooms[i]));
                i = i + 1;
            }
            assert(out@ =~= registration_resource_list(*register_type));
            (ServiceKind::Recorder, out)
        },
        RegisterType::Roomserver(r) => {
            let mut i: usize = 0;
            while i < r.rooms.len()
                invariant
                    i <= r.rooms@.len(),
                    out@ == r.rooms@.map_values(|x| ServiceResource::Roomserver(x)).subrange(0, i as int),
                decreases r.rooms.len() - i,
            {
                out.push(ServiceResource::Roomserver(r.rooms[i]));
                i = i + 1;
            }
            assert(out@ =~= registration_resource_list(*register_type));
            (ServiceKind::Roomserver, out)
        },
        RegisterType::Transcription(r) => {
            let mut i: usize = 0;
            while i < r.rooms.len()
                invariant
                    i <= r.rooms@.len(),
                    out@ == r.rooms@.map_values(|x| ServiceResource::Transcription(x)).subrange(0, i as int),
                decreases r.rooms.len() - i,
            {
                out.push(ServiceResource::Transcription(r.rooms[i]));
                i = i + 1;
            }
            assert(out@ =~= registration_resource_list(*register_type));
            (ServiceKind::Transcription, out)
        },
    }
}

/// The service ids that texts stand for, or the error of the first that
/// stands for none.
pub open spec fn parsed_service_ids(texts: Seq<Seq<char>>) -> Result<Seq<Seq<char>>, ServiceIdError>
    decreases texts.len(),
{
    if texts.len() == 0 {
        Ok(Seq::empty())
    } else {
        match parsed_service_ids(texts.drop_last()) {
            Err(e) => Err(e),
            Ok(ids) => match service_id_from_text(texts.last()) {
                Ok(id) => Ok(ids.push(id)),
                Err(e) => Err(e),
            },
        }
    }
}

/// An error in a prefix is the error of the whole list.
proof fn lemma_parsed_service_ids_prefix_error(s: Seq<Seq<char>>, n: int, e: ServiceIdError)
    requires
        0 <= n <= s.len(),
        parsed_service_ids(s.subrange(0, n)) == Err::<Seq<Seq<char>>, ServiceIdError>(e),
    ensures
        parsed_service_ids(s) == Err::<Seq<Seq<char>>, ServiceIdError>(e),
    decreases s.len() - n,
{
    if n < s.len() {
        let p = s.subrange(0, n + 1);
        assert(p.drop_last() =~= s.subrange(0, n));
        lemma_parsed_service_ids_prefix_error(s, n + 1, e);
    } else {
        assert(s.subrange(0, n) =~= s);
    }
}

/// The reply to the query for one instance: its api key ids, the ids of
/// all services of its kind, and its metrics. A field is `None` where the
/// storage holds no value.
pub struct InstanceQueryReply {
    /// The JSON list of the instance's api key ids
    pub api_key_ids: Option<String>,
    /// The ids of the services of the kind asked for
    pub service_ids: Vec<String>,
    /// The load
    pub load: Option<u8>,
    /// Whether the instance accepts jobs
    pub accepting_jobs: Option<bool>,
}

/// What the query reply says of the instance with service id `id`.
pub open spec fn instance_reply_data(
    id: Seq<char>,
    api_key_ids: Option<Seq<char>>,
    service_ids: Seq<Seq<char>>,
    load: Option<u8>,
    accepting_jobs: Option<bool>,
) -> Result<Option<InstanceDataView>, ReplyError> {
    match parsed_service_ids(service_ids) {
        Err(e) => Err(ReplyError::ServiceId(e)),
        Ok(ids) => if !ids.contains(id) {
            Ok(None)
        } else {
            match (api_key_ids, load, accepting_jobs) {
                (Some(json), Some(l), Some(a)) => match reply_data(json, l, a) {
                    Some(d) => Ok(Some(d)),
                    None => Err(ReplyError::ApiKeyIds),
                },
                _ => Ok(None),
            }
        },
    }
}

/// The instance data of the instance with service id `id` out of the
/// query reply: `None` when the instance is not among the services of its
/// kind, or a field is missing.
pub fn instance_from_reply(id: &ServiceId, reply: &InstanceQueryReply) -> (r: Result<Option<InstanceData>, ReplyError>)
    ensures
        ({
            let expected = instance_reply_data(
                id@,
                match reply.api_key_ids {
                    Some(s) => Some(s@),
                    None => None,
                },
                texts(reply.service_ids@),
                reply.load,
                reply.accepting_jobs,
            );
            match r {
                Ok(Some(d)) => expected == Ok::<Option<InstanceDataView>, ReplyError>(Some(d@)),
                Ok(None) => expected == Ok::<Option<InstanceDataView>, ReplyError>(None),
                Err(e) => expected == Err::<Option<InstanceDataView>, ReplyError>(e),
            }
        }),
{
    let ghost all = texts(reply.service_ids@);
    let mut found = false;
    let ghost mut ids: Seq<Seq<char>> = Seq::empty();
    let mut i: usize = 0;
    while i < reply.service_ids.len()
        invariant
            i <= reply.service_ids@.len(),
            all == texts(reply.service_ids@),
            parsed_service_ids(all.subrange(0, i as int)) == Ok::<Seq<Seq<char>>, ServiceIdError>(ids),
            found == ids.contains(id@),
        decreases reply.service_ids.len() - i,
    {
        let ghost prefix = all.subrange(0, i as int + 1);
        proof {
            assert(prefix.drop_last() =~= all.subrange(0, i as int));
            assert(prefix.last() == reply.service_ids@[i as int]@);
        }
        match ServiceId::try_from_text(reply.service_ids[i].as_str()) {
            Ok(parsed) => {
                let same = crate::text::text_eq(parsed.as_str(), id.as_str());
                proof {
                    let next = ids.push(parsed@);
                    assert forall|x: Seq<char>| next.contains(x) <==> (ids.contains(x) || x == parsed@) by {
                        if next.contains(x) {
                            let k = choose|k: int| 0 <= k < next.len() && next[k] == x;
                            if k < ids.len() {
                                assert(ids[k] == x);
                            }
                        }
                        if ids.contains(x) {
                            let k = choose|k: int| 0 <= k < ids.len() && ids[k] == x;
                            assert(next[k] == x);
                        }
                        if x == parsed@ {
                            assert(next[ids.len() as int] == x);
                        }
                    }
                    ids = next;
                }
                found = found || same;
            },
            Err(e) => {
                proof {
                    lemma_parsed_service_ids_prefix_error(all, i as int + 1, e);
                }
                return Err(ReplyError::ServiceId(e));
            },
        }
        i = i + 1;
    }
    assert(all.subrange(0, all.len() as int) =~= all);
    if !found {
        return Ok(None);
    }
    match (&reply.api_key_ids, reply.load, reply.accepting_jobs) {
        (Some(json), Some(load), Some(accepting_jobs)) => {
            let api_key_ids = match crate::storage::redis::scripts::api_key_ids_from_json(json.as_str()) {
                Ok(ids) => ids,
                Err(e) => return Err(e),
            };
            Ok(Some(InstanceData { metrics: crate::shared::Metrics { load, accepting_jobs }, api_key_ids }))
        },
        _ => Ok(None),
    }
}

/// The resource name inside a lookup key
/// `ot-orchestrator:resource:{resource}:owner`, if it is one.
pub open spec fn lookup_key_name(key: Seq<char>) -> Option<Seq<char>> {
    if has_prefix(key, "ot-orchestrator:resource:"@) {
        let rest = key.skip("ot-orchestrator:resource:"@.len() as int);
        if has_suffix(rest, ":owner"@) {
            Some(rest.subrange(0, rest.len() - ":owner"@.len()))
        } else {
            None
        }
    } else {
        None
    }
}

/// The resource names inside lookup keys; other keys are skipped.
pub open spec fn lookup_key_names(keys: Seq<Seq<char>>) -> Seq<Seq<char>>
    decreases keys.len(),
{
    if keys.len() == 0 {
        Seq::empty()
    } else {
        match lookup_key_name(keys.last()) {
            Some(n) => lookup_key_names(keys.drop_last()).push(n),
            None => lookup_key_names(keys.drop_last()),
        }
    }
}

/// The names of the resources whose lookup keys are listed.
pub fn resource_names_from_keys(keys: &Vec<String>) -> (r: Vec<String>)
    ensures
        texts(r@) == lookup_key_names(texts(keys@)),
{
    let mut out: Vec<String> = Vec::new();
    let mut i: usize = 0;
    while i < keys.len()
        invariant
            i <= keys@.len(),
            texts(out@) == lookup_key_names(texts(keys@).subrange(0, i as int)),
        decreases keys.len() - i,
    {
        let ghost prefix = texts(keys@).subrange(0, i as int + 1);
        proof {
            assert(prefix.drop_last() =~= texts(keys@).subrange(0, i as int));
            assert(prefix.last() == keys@[i as int]@);
        }
        if let Some(rest) = strip_prefix(keys[i].as_str(), "ot-orchestrator:resource:") {
            if let Some(name) = strip_suffix(rest, ":owner") {
                let ghost before = out@;
                out.push(to_owned_text(name));
                proof {
                    assert(texts(out@) =~= texts(before).push(name@));
                }
            }
        }
        i = i + 1;
    }
    assert(texts(keys@).subrange(0, keys@.len() as int) =~= texts(keys@));
    out
}

/// The lookup key of a resource gives back the resource's name.
pub proof fn law_lookup_key_name(resource: ServiceResource)
    ensures
        lookup_key_name(crate::storage::redis::keys::resource_lookup_key_text(resource))
            == Some(crate::shared::services::service_resource::resource_text(resource)),
{
    let name = crate::shared::services::service_resource::resource_text(resource);
    let p = "ot-orchestrator:resource:"@;
    let sfx = ":owner"@;
    let key = p + name + sfx;
    assert(key.subrange(0, p.len() as int) =~= p);
    let rest = key.skip(p.len() as int);
    assert(rest =~= name + sfx);
    assert(rest.subrange(rest.len() - sfx.len(), rest.len() as int) =~= sfx);
    assert(rest.subrange(0, rest.len() - sfx.len()) =~= name);
}

/// An instance is found wherever its id stands in the set of its kind:
/// when the ids of the set parse and one of them, at any position, is
/// `id`, a reply with all three fields and a readable key list gives the
/// instance with exactly the load, the flag and the key ids of the reply.
/// The instance is missing for its id only when no id of the set is `id`.
pub proof fn law_instance_found_anywhere_in_the_set(
    id: Seq<char>,
    json: Seq<char>,
    service_ids: Seq<Seq<char>>,
    load: u8,
    accepting_jobs: bool,
)
    ensures
        parsed_service_ids(service_ids) matches Ok(ids) ==> {
            &&& ids.contains(id) && api_key_ids_of(json) is Some ==> instance_reply_data(
                id,
                Some(json),
                service_ids,
                Some(load),
                Some(accepting_jobs),
            ) == Ok::<Option<InstanceDataView>, ReplyError>(
                Some(
                    InstanceDataView {
                        metrics: Metrics { load, accepting_jobs },
                        api_key_ids: api_key_ids_of(json)->0,
                    },
                ),
            )
            &&& instance_reply_data(id, Some(json), service_ids, Some(load), Some(accepting_jobs)) == Ok::<
                Option<InstanceDataView>,
                ReplyError,
            >(None) ==> !ids.contains(id)
        },
{
}

} // verus!
