//! The signaling connection of a service to the orchestrator: the request
//! that opens it, the messages it receives, and the answer to the
//! registration.
use vstd::prelude::*;

use vstd::utf8::{decode_utf8, valid_utf8};

use crate::client::config::{endpoint_outcome, OrchestratorBaseUrl, UrlError};
use crate::ids::{generate_jwt, made_with_key, ApiKey, EncodingError};
use crate::shared::error::RegistrationError;
use crate::shared::register::RegisterResponse;
use crate::text::{concat2, string_from_utf8};
use crate::url_model::{url_join, websocket_scheme, UrlView, WebUrl};
use crate::websocket::DialedMessage;

verus! {

/// The websocket subprotocol of the orchestrator's signaling.
pub const ORCHESTRATOR_PROTOCOL: &'static str = "opentalk-orchestrator-json-v1.0";

/// Why the request that opens the signaling connection cannot be built.
pub enum BuildWsRequestError {
    /// The register endpoint cannot be made of the configured URL
    Url(UrlError),
    /// The token cannot be made
    Encoding(EncodingError),
    /// The websocket client refused the request; its message is given
    ClientRequest(String),
    /// The authorization header is no valid header value; the message is
    /// given
    InvalidAuthHeader(String),
}

/// A failure while connected to the orchestrator.
pub enum SignalingError {
    /// The request that opens the connection cannot be built
    BuildWsRequest(BuildWsRequestError),
    /// A failure that a reconnect may cure, with its message
    Recoverable(String),
}

/// The URL and the authorization header of the request that opens the
/// signaling connection: the register endpoint of the orchestrator, and
/// `Bearer ` with a token made with the service's key.
pub fn websocket_request_parts(url: &OrchestratorBaseUrl, key: &ApiKey) -> (r: Result<(WebUrl, String), BuildWsRequestError>)
    ensures
        match url_join(url@, "register"@) {
            Err(m) => r matches Err(BuildWsRequestError::Url(UrlError::Parse(e))) && e@ == m,
            Ok(j) => match r {
                Ok(p) => endpoint_outcome(j, Ok(p.0)) && exists|jwt: Seq<char>| p.1@ == "Bearer "@ + jwt
                    && made_with_key(jwt, *key),
                Err(BuildWsRequestError::Url(e)) => endpoint_outcome(j, Err(e)),
                Err(BuildWsRequestError::Encoding(_)) => websocket_scheme(j.scheme) is Some,
                Err(_) => false,
            },
        },
{
    let endpoint = match url.register_endpoint() {
        Ok(u) => u,
        Err(e) => return Err(BuildWsRequestError::Url(e)),
    };
    match generate_jwt(key) {
        Ok(jwt) => {
            let header = concat2("Bearer ", jwt.as_str());
            assert(header@ == "Bearer "@ + jwt@ && made_with_key(jwt@, *key));
            Ok((endpoint, header))
        },
        Err(e) => Err(BuildWsRequestError::Encoding(e)),
    }
}

/// What a received message gives the service.
pub enum Incoming {
    /// A text to parse
    Payload(String),
    /// Nothing; wait for the next message
    Skip,
}

/// Why receiving failed.
#[derive(Clone, Copy, Debug, PartialEq, Eq, Structural)]
pub enum ReceiveError {
    /// A binary message that is not UTF-8
    NonUtf8,
    /// The orchestrator closed the connection
    Closed,
    /// The connection ended without a close
    Disconnected,
}

/// Classifies a received message: text is passed on, binary messages are
/// passed on as text where they are UTF-8, a close or the end of the
/// connection ends receiving, and anything else is skipped.
pub fn incoming_message(message: Option<DialedMessage>) -> (r: Result<Incoming, ReceiveError>)
    ensures
        match message {
            None => r == Err::<Incoming, ReceiveError>(ReceiveError::Disconnected),
            Some(DialedMessage::Text(t)) => r matches Ok(Incoming::Payload(s)) && s@ == t@,
            Some(DialedMessage::Binary(b)) => if valid_utf8(b@) {
                r matches Ok(Incoming::Payload(s)) && s@ == decode_utf8(b@)
            } else {
                r == Err::<Incoming, ReceiveError>(ReceiveError::NonUtf8)
            },
            Some(DialedMessage::Close(_)) => r == Err::<Incoming, ReceiveError>(ReceiveError::Closed),
            Some(_) => r matches Ok(Incoming::Skip),
        },
{
    match message {
        None => Err(ReceiveError::Disconnected),
        Some(DialedMessage::Text(text)) => Ok(Incoming::Payload(text)),
        Some(DialedMessage::Binary(bytes)) => match string_from_utf8(bytes) {
            Some(s) => Ok(Incoming::Payload(s)),
            None => Err(ReceiveError::NonUtf8),
        },
        Some(DialedMessage::Close(_)) => Err(ReceiveError::Closed),
        Some(_) => Ok(Incoming::Skip),
    }
}

/// What the orchestrator's answer to a registration means for the
/// service: success, or the error it reported.
pub fn registration_outcome(response: RegisterResponse) -> (r: Result<(), RegistrationError>)
    ensures
        match response {
            RegisterResponse::Success => r is Ok,
            RegisterResponse::Error(e) => r == Err::<(), RegistrationError>(e),
        },
{
    match response {
        RegisterResponse::Success => Ok(()),
        RegisterResponse::Error(e) => Err(e),
    }
}

/// Why the connection to the orchestrator ended.
pub enum ClientError {
    /// The request that opens the connection cannot be built
    BuildWsRequest(BuildWsRequestError),
    /// The service could not release the resources that other instances
    /// manage
    UnresolvedResourceConflict,
    /// A failure that a reconnect may cure, with its message
    Recoverable(String),
}

/// Whether the client connects again after an error: only a recoverable
/// error is retried; the others end the client.
pub fn retries_after(error: &ClientError) -> (r: bool)
    ensures
        r == (error is Recoverable),
{
    match error {
        ClientError::Recoverable(_) => true,
        _ => false,
    }
}

} // verus!
