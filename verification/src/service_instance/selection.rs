//! The choice of the instance that serves a resource, and the
//! authorization for the requests sent to it.
use vstd::prelude::*;

use crate::api::{is_failure, ApiErrorKind, ApiFailure};
use crate::ids::{duplicate_key_ids, generate_jwt, key_ids_view, made_with_key, ApiKey, ApiKeyId, EncodingError};
use crate::shared::services::{InstanceData, InstanceDataView, ServiceResource};
use crate::storage::local::{select_effect, LocalStorage};
use crate::storage::StorageError;
use crate::text::concat2;
use crate::url_model::{UrlView, WebUrl};

verus! {

/// The index of the first key with id `id`, from index `start` on.
pub open spec fn key_index_from(keys: Seq<ApiKey>, id: Seq<char>, start: int) -> Option<int>
    decreases keys.len() - start,
{
    if start < 0 || start >= keys.len() {
        None
    } else if keys[start].id@ == id {
        Some(start)
    } else {
        key_index_from(keys, id, start + 1)
    }
}

/// The index of the first key with id `id`.
pub open spec fn key_index(keys: Seq<ApiKey>, id: Seq<char>) -> Option<int> {
    key_index_from(keys, id, 0)
}

/// The search from `start` finds the first key with the id at or after
/// `start`, and none where no key after `start` has it.
proof fn lemma_key_index_from(keys: Seq<ApiKey>, id: Seq<char>, start: int)
    requires
        0 <= start,
    ensures
        match key_index_from(keys, id, start) {
            Some(j) => start <= j < keys.len() && keys[j].id@ == id && forall|k: int| start <= k < j ==> keys[k].id@ != id,
            None => forall|k: int| start <= k < keys.len() ==> keys[k].id@ != id,
        },
    decreases keys.len() - start,
{
    if start < keys.len() && keys[start].id@ != id {
        lemma_key_index_from(keys, id, start + 1);
    }
}

/// Some key has one of the ids.
pub open spec fn knows_any(keys: Seq<ApiKey>, ids: Seq<Seq<char>>) -> bool {
    exists|i: int, j: int| 0 <= i < ids.len() && 0 <= j < keys.len() && keys[j].id@ == ids[i]
}

/// The key used for the ids: for the first id that some key has, the
/// first key with that id.
pub open spec fn first_key_for(keys: Seq<ApiKey>, ids: Seq<Seq<char>>) -> Option<int>
    decreases ids.len(),
{
    if ids.len() == 0 {
        None
    } else {
        match key_index(keys, ids[0]) {
            Some(j) => Some(j),
            None => first_key_for(keys, ids.drop_first()),
        }
    }
}

/// The API keys of the services, with which the orchestrator authorizes its
/// requests to them.
pub struct ServiceKeys {
    pub keys: Vec<ApiKey>,
}

/// The first key with id `id`, if any.
fn find_key(keys: &Vec<ApiKey>, id: &ApiKeyId) -> (r: Option<usize>)
    ensures
        match r {
            Some(j) => key_index(keys@, id@) == Some(j as int) && j < keys@.len() && keys@[j as int].id@ == id@,
            None => key_index(keys@, id@) is None,
        },
{
    let mut j: usize = 0;
    while j < keys.len()
        invariant
            j <= keys@.len(),
            key_index(keys@, id@) == key_index_from(keys@, id@, j as int),
        decreases keys.len() - j,
    {
        if keys[j].id.same(id) {
            return Some(j);
        }
        j = j + 1;
    }
    None
}

/// The first key for the ids that remain after the first `i` ids, when the
/// first `i` have no key.
proof fn lemma_first_key_skip(keys: Seq<ApiKey>, ids: Seq<Seq<char>>, i: int)
    requires
        0 <= i <= ids.len(),
        forall|k: int| 0 <= k < i ==> key_index(keys, #[trigger] ids[k]) is None,
    ensures
        first_key_for(keys, ids) == first_key_for(keys, ids.skip(i)),
    decreases i,
{
    if i > 0 {
        assert(key_index(keys, ids[0]) is None);
        let rest = ids.drop_first();
        assert(first_key_for(keys, ids) == first_key_for(keys, rest));
        assert forall|k: int| 0 <= k < i - 1 implies key_index(keys, #[trigger] rest[k]) is None by {
            assert(rest[k] == ids[k + 1]);
        }
        lemma_first_key_skip(keys, rest, i - 1);
        assert(rest.skip(i - 1) =~= ids.skip(i));
    } else {
        assert(ids.skip(0) =~= ids);
    }
}

/// Some key has one of the ids exactly when there is a key for the ids:
/// an instance whose ids the orchestrator knows can always be authorized.
pub proof fn law_known_ids_have_a_key(keys: Seq<ApiKey>, ids: Seq<Seq<char>>)
    ensures
        knows_any(keys, ids) <==> first_key_for(keys, ids) is Some,
        first_key_for(keys, ids) matches Some(j) ==> 0 <= j < keys.len() && exists|i: int|
            0 <= i < ids.len() && keys[j].id@ == #[trigger] ids[i],
    decreases ids.len(),
{
    if ids.len() > 0 {
        let rest = ids.drop_first();
        law_known_ids_have_a_key(keys, rest);
        lemma_key_index_from(keys, ids[0], 0);
        match key_index(keys, ids[0]) {
            Some(j) => {
                assert(0 <= 0 < ids.len() && 0 <= j < keys.len() && keys[j].id@ == ids[0]);
            },
            None => {
                if knows_any(keys, ids) {
                    let (i, j) = choose|i: int, j: int|
                        0 <= i < ids.len() && 0 <= j < keys.len() && keys[j].id@ == ids[i];
                    if i == 0 {
                        assert(keys[j].id@ != ids[0]);
                    } else {
                        assert(rest[i - 1] == ids[i]);
                        assert(0 <= i - 1 < rest.len() && 0 <= j < keys.len() && keys[j].id@ == rest[i - 1]);
                    }
                }
                if knows_any(keys, rest) {
                    let (i, j) = choose|i: int, j: int|
                        0 <= i < rest.len() && 0 <= j < keys.len() && keys[j].id@ == rest[i];
                    assert(rest[i] == ids[i + 1]);
                    assert(0 <= i + 1 < ids.len() && 0 <= j < keys.len() && keys[j].id@ == ids[i + 1]);
                }
                if let Some(j) = first_key_for(keys, rest) {
                    let i = choose|i: int| 0 <= i < rest.len() && keys[j].id@ == #[trigger] rest[i];
                    assert(rest[i] == ids[i + 1]);
                    assert(keys[j].id@ == ids[i + 1]);
                }
            },
        }
    }
}

impl ServiceKeys {
    /// Whether the orchestrator has a key with one of the ids.
    pub fn knows_any_of(&self, service_key_ids: &Vec<ApiKeyId>) -> (r: bool)
        ensures
            r == knows_any(self.keys@, key_ids_view(service_key_ids@)),
    {
        let ghost ids = key_ids_view(service_key_ids@);
        let mut i: usize = 0;
        while i < service_key_ids.len()
            invariant
                i <= service_key_ids@.len(),
                ids == key_ids_view(service_key_ids@),
                forall|k: int, j: int| 0 <= k < i && 0 <= j < self.keys@.len() ==> self.keys@[j].id@ != ids[k],
            decreases service_key_ids.len() - i,
        {
            if let Some(j) = find_key(&self.keys, &service_key_ids[i]) {
                assert(0 <= i < ids.len() && 0 <= j < self.keys@.len() && self.keys@[j as int].id@ == ids[i as int]);
                return true;
            }
            proof {
                lemma_key_index_from(self.keys@, ids[i as int], 0);
            }
            i = i + 1;
        }
        false
    }

    /// The key for the ids: for the first id the orchestrator has a key
    /// for, the first key with that id.
    pub fn get_api_key_for_key_ids(&self, service_key_ids: &Vec<ApiKeyId>) -> (r: Option<ApiKey>)
        ensures
            match first_key_for(self.keys@, key_ids_view(service_key_ids@)) {
                Some(j) => r matches Some(k) && k.id@ == self.keys@[j].id@ && k.secret@ == self.keys@[j].secret@,
                None => r is None,
            },
    {
        let ghost ids = key_ids_view(service_key_ids@);
        let mut i: usize = 0;
        while i < service_key_ids.len()
            invariant
                i <= service_key_ids@.len(),
                ids == key_ids_view(service_key_ids@),
                forall|k: int| 0 <= k < i ==> key_index(self.keys@, #[trigger] ids[k]) is None,
            decreases service_key_ids.len() - i,
        {
            if let Some(j) = find_key(&self.keys, &service_key_ids[i]) {
                proof {
                    lemma_first_key_skip(self.keys@, ids, i as int);
                    assert(ids.skip(i as int)[0] == ids[i as int]);
                }
                return Some(self.keys[j].duplicate());
            }
            i = i + 1;
        }
        proof {
            lemma_first_key_skip(self.keys@, ids, i as int);
        }
        None
    }

    /// The authorization header for a request to an instance with the given
    /// key ids: `Bearer ` and a token made with the key for the ids.
    pub fn get_auth_header_for_key_ids(&self, key_ids: &Vec<ApiKeyId>) -> (r: Result<String, InstanceError>)
        ensures
            match first_key_for(self.keys@, key_ids_view(key_ids@)) {
                None => r matches Err(InstanceError::UnknownApiKeyIds(v)) && key_ids_view(v@) == key_ids_view(key_ids@),
                Some(j) => match r {
                    Ok(h) => exists|jwt: Seq<char>| h@ == "Bearer "@ + jwt && made_with_key(jwt, self.keys@[j]),
                    Err(InstanceError::AuthHeader { key_id, .. }) => key_id@ == self.keys@[j].id@,
                    Err(_) => false,
                },
            },
    {
        let api_key = match self.get_api_key_for_key_ids(key_ids) {
            Some(k) => k,
            None => return Err(InstanceError::UnknownApiKeyIds(duplicate_key_ids(key_ids))),
        };
        let jwt = generate_jwt(&api_key);
        let ghost token = jwt;
        let r = auth_header_from_jwt(api_key.id, jwt);
        proof {
            if let Ok(t) = token {
                assert(made_with_key(t@, self.keys@[first_key_for(self.keys@, key_ids_view(key_ids@))->0]));
            }
        }
        r
    }
}

/// The authorization header made of a token, or the failure to make the
/// token with the key `key_id`.
pub fn auth_header_from_jwt(key_id: ApiKeyId, jwt: Result<String, EncodingError>) -> (r: Result<String, InstanceError>)
    ensures
        match jwt {
            Ok(t) => r matches Ok(h) && h@ == "Bearer "@ + t@,
            Err(e) => r matches Err(InstanceError::AuthHeader { key_id: k, err }) && k@ == key_id@ && err == e,
        },
{
    match jwt {
        Ok(token) => Ok(concat2("Bearer ", token.as_str())),
        Err(err) => Err(InstanceError::AuthHeader { key_id, err }),
    }
}

/// The instance chosen for a request, with the header that authorizes it.
pub struct SelectedInstance {
    /// The address of the selected instance
    pub address: WebUrl,
    /// The authorization header for requests towards the instance
    pub auth_header: String,
}

/// Why no instance can serve a request.
pub enum InstanceError {
    /// No instance of the requested service is available
    NotAvailable,
    /// No key is known for any of the instance's key ids
    UnknownApiKeyIds(Vec<ApiKeyId>),
    /// The token could not be made with the key `key_id`
    AuthHeader { key_id: ApiKeyId, err: EncodingError },
}

impl InstanceError {
    /// The error answer for this error: 503 for an unavailable service, 500
    /// otherwise.
    pub fn to_api_failure(&self) -> (f: ApiFailure)
        ensures
            match self {
                InstanceError::NotAvailable => is_failure(
                    f,
                    ApiErrorKind::ServiceUnavailable,
                    seq!["not_available"@, "no instance of the requested service are currently available"@],
                ),
                _ => is_failure(f, ApiErrorKind::Internal, seq!["internal authorization error"@]),
            },
    {
        match self {
            InstanceError::NotAvailable => ApiFailure::with_messages(
                ApiErrorKind::ServiceUnavailable,
                "not_available",
                "no instance of the requested service are currently available",
            ),
            _ => ApiFailure::with_message(ApiErrorKind::Internal, "internal authorization error"),
        }
    }
}

/// The instance for a request, given what the storage selected: a failed
/// selection makes the service unavailable; otherwise the header is made
/// with the key for the selected instance's key ids.
pub fn selected_instance(selection: Result<(WebUrl, InstanceData), StorageError>, keys: &ServiceKeys) -> (r: Result<SelectedInstance, InstanceError>)
    ensures
        match selection {
            Err(_) => r matches Err(InstanceError::NotAvailable),
            Ok((address, data)) => match first_key_for(keys.keys@, data.api_key_ids@.map_values(|k: ApiKeyId| k@)) {
                None => r matches Err(InstanceError::UnknownApiKeyIds(v)) && key_ids_view(v@) == key_ids_view(data.api_key_ids@),
                Some(j) => match r {
                    Ok(s) => s.address@ == address@ && exists|jwt: Seq<char>| s.auth_header@ == "Bearer "@ + jwt
                        && made_with_key(jwt, keys.keys@[j]),
                    Err(InstanceError::AuthHeader { key_id, .. }) => key_id@ == keys.keys@[j].id@,
                    Err(_) => false,
                },
            },
        },
{
    let (address, data) = match selection {
        Ok(p) => p,
        Err(_) => return Err(InstanceError::NotAvailable),
    };
    let auth_header = keys.get_auth_header_for_key_ids(&data.api_key_ids)?;
    Ok(SelectedInstance { address, auth_header })
}

/// Selects the instance of the local storage that serves `resource` (see
/// [`LocalStorage::select_instance_for_resource`]) and makes the header for
/// it.
pub fn select_instance(storage: &mut LocalStorage, keys: &ServiceKeys, resource: ServiceResource) -> (r: Result<SelectedInstance, InstanceError>)
    requires
        old(storage).wf(),
    ensures
        final(storage).wf(),
        exists|sel: Result<(WebUrl, InstanceData), StorageError>| {
            &&& #[trigger] select_effect(*old(storage), resource, *final(storage), sel)
            &&& match sel {
                Err(_) => r matches Err(InstanceError::NotAvailable),
                Ok((address, data)) => match first_key_for(keys.keys@, key_ids_view(data.api_key_ids@)) {
                    None => r matches Err(InstanceError::UnknownApiKeyIds(v)) && key_ids_view(v@) == key_ids_view(data.api_key_ids@),
                    Some(j) => match r {
                        Ok(s) => s.address@ == address@ && exists|jwt: Seq<char>| s.auth_header@ == "Bearer "@ + jwt
                            && made_with_key(jwt, keys.keys@[j]),
                        Err(InstanceError::AuthHeader { key_id, .. }) => key_id@ == keys.keys@[j].id@,
                        Err(_) => false,
                    },
                },
            }
        },
{
    let selection = storage.select_instance_for_resource(resource);
    let ghost sel = selection;
    let r = selected_instance(selection, keys);
    assert(select_effect(*old(storage), resource, *storage, sel));
    r
}

} // verus!
