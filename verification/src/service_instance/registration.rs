//! The registration of a service instance.
use vstd::prelude::*;

use crate::ids::{key_ids_view, ApiKeyId};
use crate::service_instance::selection::{knows_any, ServiceKeys};
use crate::shared::error::RegistrationError;
use crate::shared::register::{RegisterType, ServiceAddress};
use crate::shared::Metrics;
use crate::storage::local::{add_outcome, registration_data, LocalStorage};
use crate::storage::table::table_insert;
use crate::storage::AddInstanceError;
use crate::text::{concat2, concat3, contains_char, decimal, to_owned_text, u16_to_text};
use crate::url_model::{url_parse, UrlView, WebUrl};
use crate::websocket::AcceptedMessage;

verus! {

/// The data received from a service instance during registration.
pub struct ServiceRegistration {
    /// The address of the service instance
    pub address: WebUrl,
    /// The type of the service instance
    pub register_type: RegisterType,
    /// The api key ids provided by the service instance
    pub api_key_ids: Vec<ApiKeyId>,
    /// The initial metrics provided by the service instance
    pub metrics: Metrics,
}

/// The host part for an IP address in a URL: an IPv6 address, the one with
/// colons, in square brackets; an IPv4 address as it is.
pub open spec fn ip_host_text(ip: Seq<char>) -> Seq<char> {
    if ip.contains(':') {
        "["@ + ip + "]"@
    } else {
        ip
    }
}

/// The address of an instance that gave only a port: `http://{host}:{port}`,
/// with the IP address it connected from as the host.
pub open spec fn port_address_text(ip: Seq<char>, port: u16) -> Seq<char> {
    "http://"@ + ip_host_text(ip) + ":"@ + decimal(port as nat)
}

/// The address on which a registering instance can be reached: the URL it
/// gave, or else its port on the IP address `ip` it connected from (in
/// brackets where it is an IPv6 address). An address that does not parse
/// is an invalid service address.
pub fn resolve_service_address(service_address: ServiceAddress, ip: &str) -> (r: Result<WebUrl, RegistrationError>)
    ensures
        match service_address {
            ServiceAddress::Url(u) => r matches Ok(v) && v@ == u@,
            ServiceAddress::Port(port) => match url_parse(port_address_text(ip@, port)) {
                Ok(u) => r matches Ok(v) && v@ == u,
                Err(_) => r == Err::<WebUrl, RegistrationError>(RegistrationError::InvalidServiceAddress),
            },
        },
{
    match service_address {
        ServiceAddress::Url(url) => Ok(url),
        ServiceAddress::Port(port) => {
            let port_text = u16_to_text(port);
            let host = if contains_char(ip, ':') {
                concat3("[", ip, "]")
            } else {
                to_owned_text(ip)
            };
            let head = concat3("http://", host.as_str(), ":");
            let text = concat2(head.as_str(), port_text.as_str());
            match WebUrl::parse(text.as_str()) {
                Ok(url) => Ok(url),
                Err(_) => Err(RegistrationError::InvalidServiceAddress),
            }
        },
    }
}

/// What the service is told when adding it failed: a refused registration
/// as it is, a failure of the storage as an internal error.
pub fn registration_error_of(error: AddInstanceError) -> (r: RegistrationError)
    ensures
        match error {
            AddInstanceError::RegistrationError(e) => r == e,
            AddInstanceError::Internal(_) => r == RegistrationError::Internal,
        },
{
    match error {
        AddInstanceError::RegistrationError(e) => e,
        AddInstanceError::Internal(_) => RegistrationError::Internal,
    }
}

/// Registers an instance in the local storage. An instance none of whose
/// key ids the orchestrator knows is refused and nothing changes;
/// otherwise it is added as [`LocalStorage::add_instance`] says.
pub fn register_instance(storage: &mut LocalStorage, keys: &ServiceKeys, registration: ServiceRegistration) -> (r: Result<(), RegistrationError>)
    requires
        old(storage).wf(),
    ensures
        final(storage).wf(),
        !knows_any(keys.keys@, key_ids_view(registration.api_key_ids@)) ==> {
            &&& r == Err::<(), RegistrationError>(RegistrationError::UnknownApiKeyIds)
            &&& *final(storage) == *old(storage)
        },
        knows_any(keys.keys@, key_ids_view(registration.api_key_ids@)) ==> match registration.register_type {
            RegisterType::Recorder(rr) => {
                let (nv, out) = table_insert(old(storage).recorders(), registration.address@, registration_data(registration), rr.rooms@);
                &&& final(storage).recorders() == nv
                &&& r == out
                &&& final(storage).roomservers() == old(storage).roomservers()
                &&& final(storage).transcriptions() == old(storage).transcriptions()
            },
            RegisterType::Roomserver(rr) => {
                let (nv, out) = table_insert(old(storage).roomservers(), registration.address@, registration_data(registration), rr.rooms@);
                &&& final(storage).roomservers() == nv
                &&& r == out
                &&& final(storage).recorders() == old(storage).recorders()
                &&& final(storage).transcriptions() == old(storage).transcriptions()
            },
            RegisterType::Transcription(rt) => {
                let (nv, out) = table_insert(old(storage).transcriptions(), registration.address@, registration_data(registration), rt.rooms@);
                &&& final(storage).transcriptions() == nv
                &&& r == out
                &&& final(storage).recorders() == old(storage).recorders()
                &&& final(storage).roomservers() == old(storage).roomservers()
            },
        },
{
    if !keys.knows_any_of(&registration.api_key_ids) {
        return Err(RegistrationError::UnknownApiKeyIds);
    }
    let ghost reg = registration;
    match storage.add_instance(registration) {
        Ok(()) => Ok(()),
        Err(e) => {
            let r = registration_error_of(e);
            proof {
                match reg.register_type {
                    RegisterType::Recorder(rr) => {
                        assert(Err::<(), AddInstanceError>(e) == add_outcome(
                            table_insert(old(storage).recorders(), reg.address@, registration_data(reg), rr.rooms@).1,
                        ));
                    },
                    RegisterType::Roomserver(rr) => {
                        assert(Err::<(), AddInstanceError>(e) == add_outcome(
                            table_insert(old(storage).roomservers(), reg.address@, registration_data(reg), rr.rooms@).1,
                        ));
                    },
                    RegisterType::Transcription(rt) => {
                        assert(Err::<(), AddInstanceError>(e) == add_outcome(
                            table_insert(old(storage).transcriptions(), reg.address@, registration_data(reg), rt.rooms@).1,
                        ));
                    },
                }
            }
            Err(r)
        },
    }
}

/// The body of a registration message: a text or binary message; any other
/// kind of message is of the wrong type.
pub fn registration_payload(message: AcceptedMessage) -> (r: Result<Vec<u8>, RegistrationError>)
    ensures
        match message {
            AcceptedMessage::Text(t) => r matches Ok(b) && b@ == vstd::utf8::encode_utf8(t@),
            AcceptedMessage::Binary(b) => r matches Ok(c) && c@ == b@,
            _ => r == Err::<Vec<u8>, RegistrationError>(RegistrationError::InvalidMessageType),
        },
{
    match message {
        AcceptedMessage::Text(text) => Ok(text.as_str().as_bytes_vec()),
        AcceptedMessage::Binary(bytes) => Ok(bytes),
        _ => Err(RegistrationError::InvalidMessageType),
    }
}

} // verus!
