//! The keys under which the shared storage keeps the orchestrator state.
//!
//! | Key pattern                                       | Value                                      |
//! | ------------------------------------------------- | ------------------------------------------ |
//! | `ot-orchestrator:service:{service_id}`            | `url`, `kind`, `api_key_ids`               |
//! | `ot-orchestrator:service:{service_id}:metrics`    | `load`, `accepting_jobs`                   |
//! | `ot-orchestrator:service:{service_id}:resources`  | resource names, e.g. `roomserver:{uuid}`   |
//! | `ot-orchestrator:services:{kind}`                 | service ids of one kind                    |
//! | `ot-orchestrator:resource:{resource}:owner`       | the service id that manages the resource   |
//! | `ot-orchestrator:orchestrator:{orch_id}:alive`    | expiring liveness marker                   |
//! | `ot-orchestrator:orchestrator:{orch_id}:services` | service ids registered by one orchestrator |
//! | `ot-orchestrator:orchestrators`                   | the ids of all orchestrators               |
//!
//! A service id is the base64 encoding of the service's URL, so that no
//! URL character can clash with the key syntax.
use vstd::prelude::*;

use vstd::utf8::{decode_utf8, encode_utf8, valid_utf8};

use crate::ids::{hyphenated, Token};
use crate::shared::services::service_resource::resource_text;
use crate::shared::services::ServiceResource;
use crate::shared::{kind_text, ServiceKind};
use crate::text::{concat2, concat3, string_from_utf8, to_owned_text};
use crate::url_model::{url_parse, UrlView, WebUrl};

verus! {

/// The text that `BASE64_STANDARD.encode` makes of some bytes.
pub uninterp spec fn b64_encode(bytes: Seq<u8>) -> Seq<char>;

/// The bytes that `BASE64_STANDARD.decode` makes of a text, `None` where it
/// fails.
pub uninterp spec fn b64_decode(text: Seq<char>) -> Option<Seq<u8>>;

/// `BASE64_STANDARD.encode` (padded standard alphabet). Its result is named
/// `b64_encode`; decoding it gives the bytes back. The length computation
/// inside cannot overflow: no slice holds more than `isize::MAX` bytes.
#[verifier::external_body]
pub(crate) fn encode_base64(bytes: &[u8]) -> (s: String)
    ensures
        s@ == b64_encode(bytes@),
        b64_decode(s@) == Some(bytes@),
{
    base64::prelude::Engine::encode(&base64::prelude::BASE64_STANDARD, bytes)
}

/// `BASE64_STANDARD.decode` of the bytes of `text`; its result is named
/// `b64_decode`. The error is dropped.
#[verifier::external_body]
pub(crate) fn decode_base64(text: &str) -> (r: Option<Vec<u8>>)
    ensures
        match r {
            Some(b) => b64_decode(text@) == Some(b@),
            None => b64_decode(text@) is None,
        },
{
    base64::prelude::Engine::decode(&base64::prelude::BASE64_STANDARD, text).ok()
}

/// The service id of a URL with serialization `url`.
pub open spec fn service_id_text(url: Seq<char>) -> Seq<char> {
    b64_encode(encode_utf8(url))
}

/// The URL text that a service id encodes: its base64 decoding read as
/// UTF-8.
pub open spec fn service_id_url_text(id: Seq<char>) -> Option<Seq<char>> {
    match b64_decode(id) {
        Some(b) => if valid_utf8(b) {
            Some(decode_utf8(b))
        } else {
            None
        },
        None => None,
    }
}

/// The service id that a text stands for: the id of the URL if the text
/// is a URL, else the text itself if it is the id of a URL.
pub open spec fn service_id_from_text(s: Seq<char>) -> Result<Seq<char>, ServiceIdError> {
    match url_parse(s) {
        Ok(u) => Ok(service_id_text(u.serialization)),
        Err(_) => match service_id_url_text(s) {
            Some(t) => if url_parse(t) is Ok {
                Ok(s)
            } else {
                Err(ServiceIdError::InvalidUrl)
            },
            None => Err(
                if b64_decode(s) is None {
                    ServiceIdError::InvalidBase64
                } else {
                    ServiceIdError::NonUtf8
                },
            ),
        },
    }
}

/// The URL that a service id stands for.
pub open spec fn service_id_url(id: Seq<char>) -> Result<UrlView, ServiceIdError> {
    match b64_decode(id) {
        None => Err(ServiceIdError::InvalidBase64),
        Some(b) => if !valid_utf8(b) {
            Err(ServiceIdError::NonUtf8)
        } else {
            match url_parse(decode_utf8(b)) {
                Ok(u) => Ok(u),
                Err(_) => Err(ServiceIdError::InvalidUrl),
            }
        },
    }
}

/// Why a text or a service id does not stand for a service URL.
#[derive(Clone, Copy, Debug, PartialEq, Eq, Structural)]
pub enum ServiceIdError {
    /// The text is neither a URL nor base64
    InvalidBase64,
    /// The decoded bytes are not UTF-8
    NonUtf8,
    /// The decoded text is not a URL
    InvalidUrl,
}

/// The base64 of a service url, which avoids URL characters in keys.
#[derive(Clone, Debug, PartialEq, Eq, Hash)]
pub struct ServiceId(String);

impl View for ServiceId {
    type V = Seq<char>;

    closed spec fn view(&self) -> Seq<char> {
        self.0@
    }
}

impl ServiceId {
    /// The id as a string.
    pub fn inner(self) -> (s: String)
        ensures
            s@ == self@,
    {
        self.0
    }

    /// The id as text.
    pub fn as_str(&self) -> (s: &str)
        ensures
            s@ == self@,
    {
        self.0.as_str()
    }

    /// A copy of this id.
    pub fn duplicate(&self) -> (r: ServiceId)
        ensures
            r@ == self@,
    {
        ServiceId(to_owned_text(self.0.as_str()))
    }

    /// The id of the service under `url`. Decoding it gives the URL's text
    /// back, and the URL this id stands for is `url`; the id read from the
    /// URL's text is this id.
    pub fn from_url(url: &WebUrl) -> (r: ServiceId)
        ensures
            r@ == service_id_text(url@.serialization),
            service_id_url_text(r@) == Some(url@.serialization),
            service_id_url(r@) == Ok::<UrlView, ServiceIdError>(url@),
            service_id_from_text(url@.serialization) == Ok::<Seq<char>, ServiceIdError>(r@),
    {
        proof {
            use_type_invariant(url);
        }
        let text = url.as_str();
        let encoded = encode_base64(text.as_bytes());
        proof {
            vstd::utf8::encode_utf8_valid_utf8(url@.serialization);
            vstd::utf8::encode_utf8_decode_utf8(url@.serialization);
        }
        ServiceId(encoded)
    }

    /// A service id from a text that is either a URL or the id of one (see
    /// [`service_id_from_text`]).
    pub fn try_from_text(s: &str) -> (r: Result<ServiceId, ServiceIdError>)
        ensures
            match r {
                Ok(id) => service_id_from_text(s@) == Ok::<Seq<char>, ServiceIdError>(id@),
                Err(e) => service_id_from_text(s@) == Err::<Seq<char>, ServiceIdError>(e),
            },
    {
        if let Ok(url) = WebUrl::parse(s) {
            let id = ServiceId::from_url(&url);
            return Ok(id);
        }
        let decoded = match decode_base64(s) {
            Some(d) => d,
            None => return Err(ServiceIdError::InvalidBase64),
        };
        let url_text = match string_from_utf8(decoded) {
            Some(t) => t,
            None => return Err(ServiceIdError::NonUtf8),
        };
        if WebUrl::parse(url_text.as_str()).is_ok() {
            Ok(ServiceId(to_owned_text(s)))
        } else {
            Err(ServiceIdError::InvalidUrl)
        }
    }

    /// The URL this id stands for (see [`service_id_url`]).
    pub fn to_url(&self) -> (r: Result<WebUrl, ServiceIdError>)
        ensures
            match r {
                Ok(w) => service_id_url(self@) == Ok::<UrlView, ServiceIdError>(w@),
                Err(e) => service_id_url(self@) == Err::<UrlView, ServiceIdError>(e),
            },
    {
        let decoded = match decode_base64(self.0.as_str()) {
            Some(d) => d,
            None => return Err(ServiceIdError::InvalidBase64),
        };
        let url_text = match string_from_utf8(decoded) {
            Some(t) => t,
            None => return Err(ServiceIdError::NonUtf8),
        };
        match WebUrl::parse(url_text.as_str()) {
            Ok(u) => Ok(u),
            Err(_) => Err(ServiceIdError::InvalidUrl),
        }
    }
}

/// The key of the static data of a service instance.
pub struct ServiceInstanceKey {
    pub id: ServiceId,
}

impl ServiceInstanceKey {
    /// `ot-orchestrator:service:{id}`
    pub fn key(&self) -> (k: String)
        ensures
            k@ == "ot-orchestrator:service:"@ + self.id@,
    {
        concat2("ot-orchestrator:service:", self.id.as_str())
    }
}

/// The key of the current metrics of a service instance, which its
/// orchestrator updates on every heartbeat.
pub struct ServiceMetricsKey {
    pub id: ServiceId,
}

impl ServiceMetricsKey {
    /// `ot-orchestrator:service:{id}:metrics`
    pub fn key(&self) -> (k: String)
        ensures
            k@ == "ot-orchestrator:service:"@ + self.id@ + ":metrics"@,
    {
        concat3("ot-orchestrator:service:", self.id.as_str(), ":metrics")
    }
}

/// The key of the resources that a service instance manages.
pub struct ServiceResourceKey {
    pub id: ServiceId,
}

impl ServiceResourceKey {
    /// `ot-orchestrator:service:{id}:resources`
    pub fn key(&self) -> (k: String)
        ensures
            k@ == "ot-orchestrator:service:"@ + self.id@ + ":resources"@,
    {
        concat3("ot-orchestrator:service:", self.id.as_str(), ":resources")
    }
}

/// The key of the ids of all services of one kind.
pub struct ServiceKindKey {
    pub kind: ServiceKind,
}

impl ServiceKindKey {
    /// `ot-orchestrator:services:{kind}`
    pub fn key(&self) -> (k: String)
        ensures
            k@ == "ot-orchestrator:services:"@ + kind_text(self.kind),
    {
        let kind = self.kind.to_text();
        concat2("ot-orchestrator:services:", kind.as_str())
    }
}

/// The text of the lookup key of a resource.
pub open spec fn resource_lookup_key_text(resource: ServiceResource) -> Seq<char> {
    "ot-orchestrator:resource:"@ + resource_text(resource) + ":owner"@
}

/// The key of the service id that manages a resource.
pub struct ResourceLookupKey {
    pub resource: ServiceResource,
}

impl ResourceLookupKey {
    /// `ot-orchestrator:resource:{resource}:owner`
    pub fn key(&self) -> (k: String)
        ensures
            k@ == resource_lookup_key_text(self.resource),
    {
        let name = self.resource.to_text();
        concat3("ot-orchestrator:resource:", name.as_str(), ":owner")
    }
}

/// The expiring key that tells that an orchestrator is alive.
pub struct OrchestratorAliveKey {
    pub id: String,
}

impl OrchestratorAliveKey {
    /// `ot-orchestrator:orchestrator:{id}:alive`
    pub fn key(&self) -> (k: String)
        ensures
            k@ == "ot-orchestrator:orchestrator:"@ + self.id@ + ":alive"@,
    {
        concat3("ot-orchestrator:orchestrator:", self.id.as_str(), ":alive")
    }
}

/// The key of the service ids that one orchestrator registered; a dead
/// orchestrator's services are found through it.
pub struct OrchestratorServicesKey {
    pub id: String,
}

impl OrchestratorServicesKey {
    /// `ot-orchestrator:orchestrator:{id}:services`
    pub fn key(&self) -> (k: String)
        ensures
            k@ == "ot-orchestrator:orchestrator:"@ + self.id@ + ":services"@,
    {
        concat3("ot-orchestrator:orchestrator:", self.id.as_str(), ":services")
    }
}

/// The key of the set of all orchestrator ids.
pub const ORCHESTRATORS_SET_KEY: &'static str = "ot-orchestrator:orchestrators";

/// The key that maps a roomserver signaling token to its room.
pub struct RoomserverTokenKey {
    pub token: Token,
}

impl RoomserverTokenKey {
    /// `ot-orchestrator:roomserver-token:{token}`
    pub fn key(&self) -> (k: String)
        ensures
            k@ == "ot-orchestrator:roomserver-token:"@ + hyphenated(self.token.0),
    {
        let token = self.token.to_text();
        concat2("ot-orchestrator:roomserver-token:", token.as_str())
    }
}

} // verus!
