//! The calls of the storage server's scripts and the reading of their
//! replies.
//!
//! The scripts run on the server, atomically; what this module holds is
//! what the orchestrator hands them and what it makes of their answers.
use vstd::prelude::*;

use vstd::utf8::{decode_utf8, valid_utf8};

use crate::ids::{key_ids_view, parse_uuid, uuid_parse, uuid_text, ApiKeyId};
use crate::shared::error::RegistrationError;
use crate::shared::services::service_resource::{parse_outcome, parse_resource_spec, resource_text};
use crate::shared::services::{InstanceData, InstanceDataView, ResourceType, ServiceResource, ServiceState};
use crate::shared::{kind_text, Metrics, ServiceKind};
use crate::storage::redis::keys::{
    b64_decode, decode_base64, resource_lookup_key_text, service_id_from_text, service_id_text,
    service_id_url, OrchestratorServicesKey, ResourceLookupKey, ServiceId, ServiceIdError,
    ServiceInstanceKey, ServiceKindKey, ServiceMetricsKey, ServiceResourceKey,
};
use crate::storage::table::{dedup, dedup_vec};
use crate::storage::AddInstanceError;
use crate::url_model::{url_parse, UrlView, WebUrl};

verus! {

/// What `serde_json::from_str::<Vec<String>>` makes of a text: the list of
/// strings, or `None` where the text is no JSON list of strings.
pub uninterp spec fn json_string_list(text: Seq<char>) -> Option<Seq<Seq<char>>>;

/// What `serde_json::to_string` makes of a list of strings.
pub uninterp spec fn json_of_string_list(items: Seq<Seq<char>>) -> Seq<char>;

/// The texts of a list of strings.
pub open spec fn texts(items: Seq<String>) -> Seq<Seq<char>> {
    items.map_values(|s: String| s@)
}

/// `serde_json::from_str::<Vec<String>>`; its result is named
/// `json_string_list`, and the error is dropped.
#[verifier::external_body]
pub(crate) fn parse_json_string_list(text: &str) -> (r: Option<Vec<String>>)
    ensures
        match r {
            Some(v) => json_string_list(text@) == Some(texts(v@)),
            None => json_string_list(text@) is None,
        },
{
    serde_json::from_str::<Vec<String>>(text).ok()
}

/// `serde_json::to_string` of a list of strings; its result is named
/// `json_of_string_list`, and parsing it gives the list back. Its
/// documentation says it fails only for a failing `Serialize` impl or a map
/// with non-string keys, neither of which a list of strings has.
#[verifier::external_body]
pub(crate) fn string_list_json(items: &Vec<String>) -> (s: String)
    ensures
        s@ == json_of_string_list(texts(items@)),
        json_string_list(s@) == Some(texts(items@)),
{
    serde_json::to_string(items).unwrap_or_default()
}

/// What `String::from_utf8_lossy` makes of bytes that are not UTF-8.
pub uninterp spec fn utf8_lossy(bytes: Seq<u8>) -> Seq<char>;

/// The text `String::from_utf8_lossy` makes of some bytes: their decoding
/// where they are UTF-8.
pub open spec fn lossy_text(bytes: Seq<u8>) -> Seq<char> {
    if valid_utf8(bytes) {
        decode_utf8(bytes)
    } else {
        utf8_lossy(bytes)
    }
}

/// `String::from_utf8_lossy`: UTF-8 is decoded as it is; for other bytes
/// the result, with replacement characters, is named `utf8_lossy`.
#[verifier::external_body]
pub(crate) fn text_from_utf8_lossy(bytes: &[u8]) -> (s: String)
    ensures
        valid_utf8(bytes@) ==> s@ == decode_utf8(bytes@),
        !valid_utf8(bytes@) ==> s@ == utf8_lossy(bytes@),
{
    String::from_utf8_lossy(bytes).into_owned()
}

/// Why a reply of the storage server cannot be used.
#[derive(Clone, Copy, Debug, PartialEq, Eq, Structural)]
pub enum ReplyError {
    /// A service id does not stand for a URL
    ServiceId(ServiceIdError),
    /// The api key ids are no JSON list of strings
    ApiKeyIds,
    /// A script answered with a code it does not have
    UnexpectedCode(i64),
    /// No instance can take the resource
    NoInstanceAvailable,
    /// The instance to remove is not registered
    NotFound,
}

/// The api key ids that a JSON text lists.
pub open spec fn api_key_ids_of(json: Seq<char>) -> Option<Seq<Seq<char>>> {
    json_string_list(json)
}

/// Reads a JSON list of api key ids.
pub fn api_key_ids_from_json(json: &str) -> (r: Result<Vec<ApiKeyId>, ReplyError>)
    ensures
        match r {
            Ok(ids) => api_key_ids_of(json@) == Some(key_ids_view(ids@)),
            Err(e) => api_key_ids_of(json@) is None && e == ReplyError::ApiKeyIds,
        },
{
    let items = match parse_json_string_list(json) {
        Some(items) => items,
        None => return Err(ReplyError::ApiKeyIds),
    };
    let mut ids: Vec<ApiKeyId> = Vec::new();
    let mut i: usize = 0;
    while i < items.len()
        invariant
            i <= items@.len(),
            key_ids_view(ids@) == texts(items@).subrange(0, i as int),
        decreases items.len() - i,
    {
        let id = ApiKeyId::from_text(items[i].as_str());
        let ghost before = ids@;
        ids.push(id);
        proof {
            assert(key_ids_view(ids@) =~= key_ids_view(before).push(id@));
            assert(texts(items@).subrange(0, i as int + 1) =~= texts(items@).subrange(0, i as int).push(items@[i as int]@));
        }
        i = i + 1;
    }
    assert(texts(items@).subrange(0, items@.len() as int) =~= texts(items@));
    Ok(ids)
}

/// The instance data made of a reply's metrics and api key ids.
pub open spec fn reply_data(json: Seq<char>, load: u8, accepting_jobs: bool) -> Option<InstanceDataView> {
    match api_key_ids_of(json) {
        Some(ids) => Some(InstanceDataView { metrics: Metrics { load, accepting_jobs }, api_key_ids: ids }),
        None => None,
    }
}

/// The instance data of a reply.
fn instance_data_from_reply(json: &str, load: u8, accepting_jobs: bool) -> (r: Result<InstanceData, ReplyError>)
    ensures
        match r {
            Ok(d) => reply_data(json@, load, accepting_jobs) == Some(d@),
            Err(e) => reply_data(json@, load, accepting_jobs) is None && e == ReplyError::ApiKeyIds,
        },
{
    let api_key_ids = api_key_ids_from_json(json)?;
    Ok(InstanceData { metrics: Metrics { load, accepting_jobs }, api_key_ids })
}

/// An instance as a script hands it back.
pub struct ReturnedInstance {
    /// The service id, the base64 of the instance's URL
    pub service_id: String,
    /// The JSON list of the instance's api key ids
    pub api_key_ids: String,
    /// The current load
    pub load: u8,
    /// Whether the instance accepts jobs
    pub accepting_jobs: bool,
}

/// The reply of the scripts that look an instance up: the instance, or a
/// code.
pub enum InstanceReply {
    Instance(ReturnedInstance),
    Code(i64),
}

/// The URL that the selection script's service id stands for: decoded
/// from base64, read as UTF-8 with replacement characters, and parsed.
pub open spec fn selected_url(service_id: Seq<char>) -> Result<UrlView, ReplyError> {
    match b64_decode(service_id) {
        None => Err(ReplyError::ServiceId(ServiceIdError::InvalidBase64)),
        Some(b) => match url_parse(lossy_text(b)) {
            Ok(u) => Ok(u),
            Err(_) => Err(ReplyError::ServiceId(ServiceIdError::InvalidUrl)),
        },
    }
}

/// What the selection script's reply says: the selected instance, or
/// `NoInstanceAvailable` for the code 1.
pub fn select_instance_outcome(reply: InstanceReply) -> (r: Result<(WebUrl, InstanceData), ReplyError>)
    ensures
        match reply {
            InstanceReply::Code(c) => r == Err::<(WebUrl, InstanceData), ReplyError>(
                if c == 1 {
                    ReplyError::NoInstanceAvailable
                } else {
                    ReplyError::UnexpectedCode(c)
                },
            ),
            InstanceReply::Instance(i) => match selected_url(i.service_id@) {
                Err(e) => r == Err::<(WebUrl, InstanceData), ReplyError>(e),
                Ok(u) => match reply_data(i.api_key_ids@, i.load, i.accepting_jobs) {
                    None => r == Err::<(WebUrl, InstanceData), ReplyError>(ReplyError::ApiKeyIds),
                    Some(d) => r matches Ok(p) && p.0@ == u && p.1@ == d,
                },
            },
        },
{
    let instance = match reply {
        InstanceReply::Code(c) => {
            if c == 1 {
                return Err(ReplyError::NoInstanceAvailable);
            } else {
                return Err(ReplyError::UnexpectedCode(c));
            }
        },
        InstanceReply::Instance(i) => i,
    };
    let bytes = match decode_base64(instance.service_id.as_str()) {
        Some(b) => b,
        None => return Err(ReplyError::ServiceId(ServiceIdError::InvalidBase64)),
    };
    let text = text_from_utf8_lossy(bytes.as_slice());
    let url = match WebUrl::parse(text.as_str()) {
        Ok(u) => u,
        Err(_) => return Err(ReplyError::ServiceId(ServiceIdError::InvalidUrl)),
    };
    let data = instance_data_from_reply(instance.api_key_ids.as_str(), instance.load, instance.accepting_jobs)?;
    Ok((url, data))
}

/// The URL that a text holding a service id stands for.
pub open spec fn id_text_url(text: Seq<char>) -> Result<UrlView, ServiceIdError> {
    match service_id_from_text(text) {
        Err(e) => Err(e),
        Ok(id) => service_id_url(id),
    }
}

/// The URL of the instance a text holding its service id stands for.
fn url_of_id_text(text: &str) -> (r: Result<WebUrl, ReplyError>)
    ensures
        match r {
            Ok(u) => id_text_url(text@) == Ok::<UrlView, ServiceIdError>(u@),
            Err(e) => id_text_url(text@) matches Err(x) && e == ReplyError::ServiceId(x),
        },
{
    let id = match ServiceId::try_from_text(text) {
        Ok(id) => id,
        Err(e) => return Err(ReplyError::ServiceId(e)),
    };
    match id.to_url() {
        Ok(u) => Ok(u),
        Err(e) => Err(ReplyError::ServiceId(e)),
    }
}

/// What the reply of the lookup by resource says: the instance that
/// manages the resource, `None` for the code 1.
pub fn instance_by_resource_outcome(reply: InstanceReply) -> (r: Result<Option<(WebUrl, InstanceData)>, ReplyError>)
    ensures
        match reply {
            InstanceReply::Code(c) => if c == 1 {
                r matches Ok(None)
            } else {
                r matches Err(e) && e == ReplyError::UnexpectedCode(c)
            },
            InstanceReply::Instance(i) => match id_text_url(i.service_id@) {
                Err(x) => r matches Err(e) && e == ReplyError::ServiceId(x),
                Ok(u) => match reply_data(i.api_key_ids@, i.load, i.accepting_jobs) {
                    None => r matches Err(e) && e == ReplyError::ApiKeyIds,
                    Some(d) => r matches Ok(Some(p)) && p.0@ == u && p.1@ == d,
                },
            },
        },
{
    let instance = match reply {
        InstanceReply::Code(c) => {
            if c == 1 {
                return Ok(None);
            } else {
                return Err(ReplyError::UnexpectedCode(c));
            }
        },
        InstanceReply::Instance(i) => i,
    };
    let url = url_of_id_text(instance.service_id.as_str())?;
    let data = instance_data_from_reply(instance.api_key_ids.as_str(), instance.load, instance.accepting_jobs)?;
    Ok(Some((url, data)))
}

/// One service as the metrics script hands it back.
pub struct ServiceMetricsEntry {
    /// The service id, the base64 of the service's URL
    pub service_id: String,
    /// The JSON list of the service's api key ids
    pub api_key_ids_json: String,
    /// The current load
    pub load: u8,
    /// Whether the service accepts jobs
    pub accepting_jobs: bool,
    /// The names of the resources it manages
    pub resources: Vec<String>,
}

/// The resources of type `T` among resource names: the names that parse
/// and are of the kind `T` stands for, in order. Others are skipped.
pub open spec fn kept_resources<T: ResourceType>(names: Seq<Seq<char>>) -> Seq<T>
    decreases names.len(),
{
    if names.len() == 0 {
        Seq::empty()
    } else {
        let prefix = kept_resources::<T>(names.drop_last());
        match parse_resource_spec(names.last()) {
            Ok(resource) => match T::spec_from_service_resource(resource) {
                Some(x) => prefix.push(x),
                None => prefix,
            },
            Err(_) => prefix,
        }
    }
}

/// The resource of type `T` that a name stands for, if any.
pub open spec fn named_resource<T: ResourceType>(name: Seq<char>) -> Option<T> {
    match parse_resource_spec(name) {
        Ok(resource) => T::spec_from_service_resource(resource),
        Err(_) => None,
    }
}

/// Every resource of the kind that a name stands for is kept, and nothing
/// else: the kept list holds the resource of each name that stands for one
/// of type `T`, each value it holds is the resource of one of the names,
/// and it is no longer than the list of names.
pub proof fn law_kept_resources_are_the_named_ones<T: ResourceType>(names: Seq<Seq<char>>)
    ensures
        forall|k: int| 0 <= k < names.len() ==> (#[trigger] named_resource::<T>(names[k]) matches Some(x)
            ==> kept_resources::<T>(names).contains(x)),
        forall|x: T| kept_resources::<T>(names).contains(x) ==> exists|k: int| 0 <= k < names.len()
            && #[trigger] named_resource::<T>(names[k]) == Some(x),
        kept_resources::<T>(names).len() <= names.len(),
    decreases names.len(),
{
    if names.len() > 0 {
        let init = names.drop_last();
        law_kept_resources_are_the_named_ones::<T>(init);
        let prefix = kept_resources::<T>(init);
        let kept = kept_resources::<T>(names);
        let last = names.last();
        assert(kept == match named_resource::<T>(last) {
            Some(x) => prefix.push(x),
            None => prefix,
        });
        assert forall|y: T| prefix.contains(y) implies kept.contains(y) by {
            let i = choose|i: int| 0 <= i < prefix.len() && prefix[i] == y;
            assert(kept[i] == y);
        }
        assert forall|k: int| 0 <= k < names.len() implies (#[trigger] named_resource::<T>(names[k]) matches Some(x)
            ==> kept.contains(x)) by {
            if k < init.len() {
                assert(names[k] == init[k]);
                assert(named_resource::<T>(init[k]) == named_resource::<T>(names[k]));
            } else {
                if let Some(x) = named_resource::<T>(last) {
                    assert(kept[prefix.len() as int] == x);
                }
            }
        }
        assert forall|x: T| kept.contains(x) implies exists|k: int| 0 <= k < names.len()
            && #[trigger] named_resource::<T>(names[k]) == Some(x) by {
            let i = choose|i: int| 0 <= i < kept.len() && kept[i] == x;
            if i < prefix.len() {
                assert(prefix.contains(x));
                let k = choose|k: int| 0 <= k < init.len() && #[trigger] named_resource::<T>(init[k]) == Some(x);
                assert(names[k] == init[k]);
                assert(named_resource::<T>(names[k]) == Some(x));
            } else {
                assert(names[names.len() - 1] == last);
                assert(named_resource::<T>(names[names.len() - 1]) == Some(x));
            }
        }
    }
}

/// The resources of type `T` that the names stand for.
fn resources_from_names<T: ResourceType>(names: &Vec<String>) -> (r: Vec<T>)
    ensures
        r@ == kept_resources::<T>(texts(names@)),
{
    let mut r: Vec<T> = Vec::new();
    let mut i: usize = 0;
    while i < names.len()
        invariant
            i <= names@.len(),
            r@ == kept_resources::<T>(texts(names@).subrange(0, i as int)),
        decreases names.len() - i,
    {
        let ghost prefix = texts(names@).subrange(0, i as int + 1);
        proof {
            assert(prefix.drop_last() =~= texts(names@).subrange(0, i as int));
            assert(prefix.last() == names@[i as int]@);
        }
        let parsed = ServiceResource::try_from_text(names[i].as_str());
        if let Ok(resource) = parsed {
            if let Some(x) = T::from_service_resource(resource) {
                r.push(x);
            }
        }
        i = i + 1;
    }
    assert(texts(names@).subrange(0, names@.len() as int) =~= texts(names@));
    r
}

/// The state of one service of the metrics reply.
pub open spec fn entry_state<T: ResourceType>(
    service_id: Seq<char>,
    json: Seq<char>,
    load: u8,
    accepting_jobs: bool,
    names: Seq<Seq<char>>,
) -> Result<(UrlView, InstanceDataView, Seq<T>), ReplyError> {
    match id_text_url(service_id) {
        Err(x) => Err(ReplyError::ServiceId(x)),
        Ok(u) => match reply_data(json, load, accepting_jobs) {
            None => Err(ReplyError::ApiKeyIds),
            Some(d) => Ok((u, d, dedup(kept_resources::<T>(names)))),
        },
    }
}

/// The address and state of one service of the metrics reply. Resource
/// names that do not parse, or are of another kind, are skipped, and each
/// resource is kept once.
pub fn service_state_from_entry<T: ResourceType>(entry: &ServiceMetricsEntry) -> (r: Result<(WebUrl, ServiceState<T>), ReplyError>)
    ensures
        match r {
            Ok(p) => entry_state::<T>(entry.service_id@, entry.api_key_ids_json@, entry.load, entry.accepting_jobs, texts(entry.resources@))
                == Ok::<(UrlView, InstanceDataView, Seq<T>), ReplyError>((p.0@, p.1.instance_data@, p.1.managed_resources@)),
            Err(e) => entry_state::<T>(entry.service_id@, entry.api_key_ids_json@, entry.load, entry.accepting_jobs, texts(entry.resources@))
                == Err::<(UrlView, InstanceDataView, Seq<T>), ReplyError>(e),
        },
        r matches Ok(p) ==> p.1.wf(),
{
    let url = url_of_id_text(entry.service_id.as_str())?;
    let instance_data = instance_data_from_reply(entry.api_key_ids_json.as_str(), entry.load, entry.accepting_jobs)?;
    let kept = resources_from_names::<T>(&entry.resources);
    let managed_resources = dedup_vec(&kept);
    proof {
        crate::storage::table::lemma_dedup(kept@);
    }
    Ok((url, ServiceState { instance_data, managed_resources }))
}

/// The views of an address and a state.
pub open spec fn state_view<T: ResourceType>(p: (WebUrl, ServiceState<T>)) -> (UrlView, InstanceDataView, Seq<T>) {
    (p.0@, p.1.instance_data@, p.1.managed_resources@)
}

/// The states of all services of the metrics reply, in the order of the
/// reply; the first entry that cannot be read fails them all.
pub fn service_states_from_entries<T: ResourceType>(entries: &Vec<ServiceMetricsEntry>) -> (r: Result<Vec<(WebUrl, ServiceState<T>)>, ReplyError>)
    ensures
        match r {
            Ok(v) => {
                &&& v@.len() == entries@.len()
                &&& forall|i: int| #![trigger v@[i]] 0 <= i < v@.len() ==> entry_state::<T>(
                    entries@[i].service_id@,
                    entries@[i].api_key_ids_json@,
                    entries@[i].load,
                    entries@[i].accepting_jobs,
                    texts(entries@[i].resources@),
                ) == Ok::<(UrlView, InstanceDataView, Seq<T>), ReplyError>(state_view(v@[i]))
            },
            Err(e) => exists|k: int| 0 <= k < entries@.len()
                && entry_state::<T>(
                    entries@[k].service_id@,
                    entries@[k].api_key_ids_json@,
                    entries@[k].load,
                    entries@[k].accepting_jobs,
                    texts(entries@[k].resources@),
                ) == Err::<(UrlView, InstanceDataView, Seq<T>), ReplyError>(e)
                && forall|j: int| 0 <= j < k ==> #[trigger] entry_state::<T>(
                    entries@[j].service_id@,
                    entries@[j].api_key_ids_json@,
                    entries@[j].load,
                    entries@[j].accepting_jobs,
                    texts(entries@[j].resources@),
                ) is Ok,
        },
{
    let mut out: Vec<(WebUrl, ServiceState<T>)> = Vec::new();
    let mut i: usize = 0;
    while i < entries.len()
        invariant
            i <= entries@.len(),
            out@.len() == i,
            forall|j: int| #![trigger out@[j]] 0 <= j < i ==> entry_state::<T>(
                entries@[j].service_id@,
                entries@[j].api_key_ids_json@,
                entries@[j].load,
                entries@[j].accepting_jobs,
                texts(entries@[j].resources@),
            ) == Ok::<(UrlView, InstanceDataView, Seq<T>), ReplyError>(state_view(out@[j])),
        decreases entries.len() - i,
    {
        match service_state_from_entry::<T>(&entries[i]) {
            Ok(p) => out.push(p),
            Err(e) => {
                assert forall|j: int| 0 <= j < i implies #[trigger] entry_state::<T>(
                    entries@[j].service_id@,
                    entries@[j].api_key_ids_json@,
                    entries@[j].load,
                    entries@[j].accepting_jobs,
                    texts(entries@[j].resources@),
                ) is Ok by {
                    assert(out@[j] == out@[j]);
                }
                return Err(e);
            },
        }
        i = i + 1;
    }
    Ok(out)
}

/// What the add script answers: 0 for success, 1 for an address in use, 2
/// for a resource that another instance manages.
pub open spec fn add_code_outcome(code: i64) -> Result<(), AddInstanceScriptError> {
    if code == 0 {
        Ok(())
    } else if code == 1 {
        Err(AddInstanceScriptError::Registration(RegistrationError::AddressAlreadyInUse))
    } else if code == 2 {
        Err(AddInstanceScriptError::Registration(RegistrationError::ResourceAlreadyExists))
    } else {
        Err(AddInstanceScriptError::UnexpectedCode(code))
    }
}

/// Why the add script did not add an instance.
#[derive(Clone, Debug, PartialEq, Eq)]
pub enum AddInstanceScriptError {
    /// The registration is refused
    Registration(RegistrationError),
    /// The script answered with a code it does not have
    UnexpectedCode(i64),
    /// The storage server failed; its message is given
    Redis(String),
}

/// Reads the answer of the add script.
pub fn add_instance_result(code: i64) -> (r: Result<(), AddInstanceScriptError>)
    ensures
        r == add_code_outcome(code),
{
    if code == 0 {
        Ok(())
    } else if code == 1 {
        Err(AddInstanceScriptError::Registration(RegistrationError::AddressAlreadyInUse))
    } else if code == 2 {
        Err(AddInstanceScriptError::Registration(RegistrationError::ResourceAlreadyExists))
    } else {
        Err(AddInstanceScriptError::UnexpectedCode(code))
    }
}

/// How a failed add is reported to the storage's caller: a refused
/// registration as it is, anything else as an internal failure.
pub fn add_instance_error(error: AddInstanceScriptError) -> (r: AddInstanceError)
    ensures
        match error {
            AddInstanceScriptError::Registration(e) => r == AddInstanceError::RegistrationError(e),
            _ => r is Internal,
        },
{
    match error {
        AddInstanceScriptError::Registration(e) => AddInstanceError::RegistrationError(e),
        AddInstanceScriptError::UnexpectedCode(_) => AddInstanceError::Internal("Failed to add instance".to_owned()),
        AddInstanceScriptError::Redis(message) => AddInstanceError::Internal(message),
    }
}

/// Reads the answer of the remove script: 0 when the instance was removed,
/// 1 when it is not registered.
pub fn remove_instance_result(code: i64) -> (r: Result<(), ReplyError>)
    ensures
        r == (if code == 0 {
            Ok::<(), ReplyError>(())
        } else if code == 1 {
            Err(ReplyError::NotFound)
        } else {
            Err(ReplyError::UnexpectedCode(code))
        }),
{
    if code == 0 {
        Ok(())
    } else if code == 1 {
        Err(ReplyError::NotFound)
    } else {
        Err(ReplyError::UnexpectedCode(code))
    }
}

/// What the cleanup script did for one orchestrator.
#[derive(Clone, Copy, Debug, PartialEq, Eq, Structural)]
pub enum CleanupResult {
    /// The orchestrator was dead and its state was removed
    Cleaned,
    /// Its alive key is still there; nothing was removed
    StillAlive,
    /// It is not in the set of orchestrators, e.g. because another
    /// orchestrator cleaned it up already
    NotFound,
}
/// The orchestrators that the cleanup removed, given the ids tried, in
/// order, and the cleanup script's answer for each: the ids answered with
/// 0, in order; an answer that is no cleanup code fails the whole cleanup
/// at the first such answer.
pub open spec fn cleaned_spec(ids: Seq<u128>, codes: Seq<i64>) -> Result<Seq<u128>, ReplyError>
    decreases ids.len(),
{
    if ids.len() == 0 || codes.len() == 0 {
        Ok(Seq::empty())
    } else {
        match cleaned_spec(ids.drop_last(), codes.drop_last()) {
            Err(e) => Err(e),
            Ok(done) => {
                let code = codes.last();
                if code == 0 {
                    Ok(done.push(ids.last()))
                } else if code == 1 || code == 2 {
                    Ok(done)
                } else {
                    Err(ReplyError::UnexpectedCode(code))
                }
            },
        }
    }
}

/// The orchestrators that the cleanup removed (see [`cleaned_spec`]).
pub fn cleaned_ids(ids: &Vec<u128>, codes: &Vec<i64>) -> (r: Result<Vec<u128>, ReplyError>)
    requires
        ids.len() == codes.len(),
    ensures
        match r {
            Ok(v) => cleaned_spec(ids@, codes@) == Ok::<Seq<u128>, ReplyError>(v@),
            Err(e) => cleaned_spec(ids@, codes@) == Err::<Seq<u128>, ReplyError>(e),
        },
{
    let mut cleaned: Vec<u128> = Vec::new();
    let mut i: usize = 0;
    while i < ids.len()
        invariant
            i <= ids.len(),
            ids.len() == codes.len(),
            cleaned_spec(ids@.subrange(0, i as int), codes@.subrange(0, i as int)) == Ok::<Seq<u128>, ReplyError>(cleaned@),
        decreases ids.len() - i,
    {
        proof {
            let a = ids@.subrange(0, i as int + 1);
            let b = codes@.subrange(0, i as int + 1);
            assert(a.drop_last() =~= ids@.subrange(0, i as int));
            assert(b.drop_last() =~= codes@.subrange(0, i as int));
            assert(a.last() == ids@[i as int]);
            assert(b.last() == codes@[i as int]);
        }
        match cleanup_result(codes[i]) {
            Ok(CleanupResult::Cleaned) => cleaned.push(ids[i]),
            Ok(_) => {},
            Err(e) => {
                proof {
                    lemma_cleaned_error_stays(ids@, codes@, i as int + 1, e);
                }
                return Err(e);
            },
        }
        i = i + 1;
    }
    assert(ids@.subrange(0, i as int) =~= ids@);
    assert(codes@.subrange(0, i as int) =~= codes@);
    Ok(cleaned)
}

/// A failed cleanup stays failed whatever answers follow.
proof fn lemma_cleaned_error_stays(ids: Seq<u128>, codes: Seq<i64>, k: int, e: ReplyError)
    requires
        0 <= k <= ids.len(),
        ids.len() == codes.len(),
        cleaned_spec(ids.subrange(0, k), codes.subrange(0, k)) == Err::<Seq<u128>, ReplyError>(e),
    ensures
        cleaned_spec(ids, codes) == Err::<Seq<u128>, ReplyError>(e),
    decreases ids.len() - k,
{
    if k == ids.len() {
        assert(ids.subrange(0, k) =~= ids);
        assert(codes.subrange(0, k) =~= codes);
    } else {
        let a = ids.subrange(0, k + 1);
        let b = codes.subrange(0, k + 1);
        assert(a.drop_last() =~= ids.subrange(0, k));
        assert(b.drop_last() =~= codes.subrange(0, k));
        lemma_cleaned_error_stays(ids, codes, k + 1, e);
    }
}

/// Reads the answer of the cleanup script: 0, 1 or 2.
pub fn cleanup_result(code: i64) -> (r: Result<CleanupResult, ReplyError>)
    ensures
        r == (if code == 0 {
            Ok::<CleanupResult, ReplyError>(CleanupResult::Cleaned)
        } else if code == 1 {
            Ok(CleanupResult::StillAlive)
        } else if code == 2 {
            Ok(CleanupResult::NotFound)
        } else {
            Err(ReplyError::UnexpectedCode(code))
        }),
{
    if code == 0 {
        Ok(CleanupResult::Cleaned)
    } else if code == 1 {
        Ok(CleanupResult::StillAlive)
    } else if code == 2 {
        Ok(CleanupResult::NotFound)
    } else {
        Err(ReplyError::UnexpectedCode(code))
    }
}

/// How often a start retries with a new id after a collision.
pub const UUID_COLLISION_RETRIES: u32 = 3;

/// What to do after the init script answered.
#[derive(Clone, Copy, Debug, PartialEq, Eq, Structural)]
pub enum InitStep {
    /// The orchestrator is registered under its id
    Done,
    /// The id was taken; try a new one, with this many retries made
    Retry(u32),
    /// The id was taken too often; give up after this many retries
    GiveUp(u32),
}

/// The decision after the init script's answer, `collision` telling
/// whether the generated id was taken, with `retries` retries made before.
pub fn init_step(retries: u32, collision: bool) -> (r: InitStep)
    requires
        retries <= UUID_COLLISION_RETRIES,
    ensures
        !collision ==> r == InitStep::Done,
        collision && retries + 1 > UUID_COLLISION_RETRIES ==> r == InitStep::GiveUp((retries + 1) as u32),
        collision && retries + 1 <= UUID_COLLISION_RETRIES ==> r == InitStep::Retry((retries + 1) as u32),
{
    if !collision {
        return InitStep::Done;
    }
    let made = retries + 1;
    if made > UUID_COLLISION_RETRIES {
        InitStep::GiveUp(made)
    } else {
        InitStep::Retry(made)
    }
}

/// The orchestrator ids that texts stand for, or the index of the first
/// text that is no UUID.
pub open spec fn orchestrator_ids(texts: Seq<Seq<char>>) -> Result<Seq<u128>, int>
    decreases texts.len(),
{
    if texts.len() == 0 {
        Ok(Seq::empty())
    } else {
        match orchestrator_ids(texts.drop_last()) {
            Err(k) => Err(k),
            Ok(ids) => match uuid_parse(texts.last()) {
                Some(id) => Ok(ids.push(id)),
                None => Err(texts.len() - 1),
            },
        }
    }
}

/// Reads the ids of the dead orchestrators that a script lists; one that
/// is no UUID fails the whole list, with its index.
pub fn parse_orchestrator_ids(ids: &Vec<String>) -> (r: Result<Vec<u128>, usize>)
    ensures
        match r {
            Ok(v) => orchestrator_ids(texts(ids@)) == Ok::<Seq<u128>, int>(v@),
            Err(k) => orchestrator_ids(texts(ids@)) == Err::<Seq<u128>, int>(k as int),
        },
{
    let mut out: Vec<u128> = Vec::new();
    let mut i: usize = 0;
    while i < ids.len()
        invariant
            i <= ids@.len(),
            orchestrator_ids(texts(ids@).subrange(0, i as int)) == Ok::<Seq<u128>, int>(out@),
        decreases ids.len() - i,
    {
        let ghost prefix = texts(ids@).subrange(0, i as int + 1);
        proof {
            assert(prefix.drop_last() =~= texts(ids@).subrange(0, i as int));
            assert(prefix.last() == ids@[i as int]@);
        }
        match parse_uuid(ids[i].as_str()) {
            Some(id) => out.push(id),
            None => {
                proof {
                    lemma_orchestrator_ids_prefix_error(texts(ids@), i as int + 1, i as int);
                }
                return Err(i);
            },
        }
        i = i + 1;
    }
    assert(texts(ids@).subrange(0, ids@.len() as int) =~= texts(ids@));
    Ok(out)
}

/// An error in a prefix is the error of the whole list.
proof fn lemma_orchestrator_ids_prefix_error(s: Seq<Seq<char>>, n: int, k: int)
    requires
        0 <= n <= s.len(),
        orchestrator_ids(s.subrange(0, n)) == Err::<Seq<u128>, int>(k),
    ensures
        orchestrator_ids(s) == Err::<Seq<u128>, int>(k),
    decreases s.len() - n,
{
    if n < s.len() {
        let p = s.subrange(0, n + 1);
        assert(p.drop_last() =~= s.subrange(0, n));
        lemma_orchestrator_ids_prefix_error(s, n + 1, k);
    } else {
        assert(s.subrange(0, n) =~= s);
    }
}

/// The call of the add script for one registration.
pub struct AddInstanceCall {
    /// `ot-orchestrator:service:{id}`
    pub instance_key: String,
    /// `ot-orchestrator:service:{id}:metrics`
    pub metrics_key: String,
    /// `ot-orchestrator:service:{id}:resources`
    pub resources_key: String,
    /// `ot-orchestrator:services:{kind}`
    pub kind_key: String,
    /// `ot-orchestrator:orchestrator:{orchestrator_id}:services`
    pub orchestrator_services_key: String,
    /// The service id
    pub service_id: String,
    /// The URL of the service
    pub url: String,
    /// The name of the service kind
    pub kind: String,
    /// The JSON list of the api key ids
    pub key_ids_json: String,
    /// The current load
    pub load: u8,
    /// Whether the service accepts jobs
    pub accepting_jobs: bool,
    /// The JSON list of the names of the managed resources
    pub resource_values_json: String,
    /// The JSON list of the lookup keys of the managed resources
    pub resource_keys_json: String,
}

/// The names of resources.
pub open spec fn resource_names(resources: Seq<ServiceResource>) -> Seq<Seq<char>> {
    resources.map_values(|r: ServiceResource| resource_text(r))
}

/// The lookup keys of resources.
pub open spec fn resource_keys(resources: Seq<ServiceResource>) -> Seq<Seq<char>> {
    resources.map_values(|r: ServiceResource| resource_lookup_key_text(r))
}

/// The arguments of the add script for a service of `kind` under `url`
/// that registers with the given api key ids, metrics and resources, on
/// behalf of the orchestrator `orchestrator_id`.
pub fn add_instance_call(
    url: &WebUrl,
    kind: ServiceKind,
    key_ids: &Vec<ApiKeyId>,
    metrics: Metrics,
    resources: &Vec<ServiceResource>,
    orchestrator_id: u128,
) -> (c: AddInstanceCall)
    ensures
        c.service_id@ == service_id_text(url@.serialization),
        c.instance_key@ == "ot-orchestrator:service:"@ + c.service_id@,
        c.metrics_key@ == "ot-orchestrator:service:"@ + c.service_id@ + ":metrics"@,
        c.resources_key@ == "ot-orchestrator:service:"@ + c.service_id@ + ":resources"@,
        c.kind_key@ == "ot-orchestrator:services:"@ + kind_text(kind),
        c.orchestrator_services_key@ == "ot-orchestrator:orchestrator:"@ + crate::ids::hyphenated(orchestrator_id)
            + ":services"@,
        c.url@ == url@.serialization,
        c.kind@ == kind_text(kind),
        json_string_list(c.key_ids_json@) == Some(key_ids_view(key_ids@)),
        c.load == metrics.load,
        c.accepting_jobs == metrics.accepting_jobs,
        json_string_list(c.resource_values_json@) == Some(resource_names(resources@)),
        json_string_list(c.resource_keys_json@) == Some(resource_keys(resources@)),
{
    let id = ServiceId::from_url(url);
    let instance_key = ServiceInstanceKey { id: id.duplicate() }.key();
    let metrics_key = ServiceMetricsKey { id: id.duplicate() }.key();
    let resources_key = ServiceResourceKey { id: id.duplicate() }.key();
    let kind_key = ServiceKindKey { kind }.key();
    let orchestrator_services_key = OrchestratorServicesKey { id: uuid_text(orchestrator_id) }.key();
    let mut key_id_texts: Vec<String> = Vec::new();
    let mut i: usize = 0;
    while i < key_ids.len()
        invariant
            i <= key_ids@.len(),
            texts(key_id_texts@) == key_ids_view(key_ids@).subrange(0, i as int),
        decreases key_ids.len() - i,
    {
        let ghost before = key_id_texts@;
        key_id_texts.push(crate::text::to_owned_text(key_ids[i].0.as_str()));
        proof {
            assert(texts(key_id_texts@) =~= texts(before).push(key_ids@[i as int]@));
            assert(key_ids_view(key_ids@).subrange(0, i as int + 1) =~= key_ids_view(key_ids@).subrange(0, i as int).push(
                key_ids@[i as int]@,
            ));
        }
        i = i + 1;
    }
    assert(key_ids_view(key_ids@).subrange(0, key_ids@.len() as int) =~= key_ids_view(key_ids@));
    let mut values: Vec<String> = Vec::new();
    let mut lookup_keys: Vec<String> = Vec::new();
    let mut k: usize = 0;
    while k < resources.len()
        invariant
            k <= resources@.len(),
            texts(values@) == resource_names(resources@).subrange(0, k as int),
            texts(lookup_keys@) == resource_keys(resources@).subrange(0, k as int),
        decreases resources.len() - k,
    {
        let value = resources[k].to_text();
        let lookup = ResourceLookupKey { resource: resources[k] }.key();
        let ghost before_values = values@;
        let ghost before_keys = lookup_keys@;
        values.push(value);
        lookup_keys.push(lookup);
        proof {
            assert(texts(values@) =~= texts(before_values).push(resource_text(resources@[k as int])));
            assert(texts(lookup_keys@) =~= texts(before_keys).push(resource_lookup_key_text(resources@[k as int])));
            assert(resource_names(resources@).subrange(0, k as int + 1) =~= resource_names(resources@).subrange(
                0,
                k as int,
            ).push(resource_text(resources@[k as int])));
            assert(resource_keys(resources@).subrange(0, k as int + 1) =~= resource_keys(resources@).subrange(
                0,
                k as int,
            ).push(resource_lookup_key_text(resources@[k as int])));
        }
        k = k + 1;
    }
    assert(resource_names(resources@).subrange(0, resources@.len() as int) =~= resource_names(resources@));
    assert(resource_keys(resources@).subrange(0, resources@.len() as int) =~= resource_keys(resources@));
    AddInstanceCall {
        instance_key,
        metrics_key,
        resources_key,
        kind_key,
        orchestrator_services_key,
        service_id: id.inner(),
        url: crate::text::to_owned_text(url.as_str()),
        kind: kind.to_text(),
        key_ids_json: string_list_json(&key_id_texts),
        load: metrics.load,
        accepting_jobs: metrics.accepting_jobs,
        resource_values_json: string_list_json(&values),
        resource_keys_json: string_list_json(&lookup_keys),
    }
}

} // verus!
