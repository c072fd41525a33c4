//! The forwarding of room requests to the roomserver of a room, and the
//! signaling proxy for its clients.
use vstd::prelude::*;

use crate::api::{is_failure, ApiErrorKind, ApiFailure, ForwardFailure};
use crate::ids::{hyphenated, RoomId, Token};
use crate::service_instance::selection::InstanceError;
use crate::storage::tokens::RoomserverTokens;
use crate::text::{concat2, concat3};
use crate::url_model::{url_join, url_with_scheme, websocket_scheme, UrlView, WebUrl};

verus! {

/// The URL of a room on a roomserver: `{address}v1/rooms/{room_id}`.
pub open spec fn room_url_text(address: Seq<char>, room_id: RoomId) -> Seq<char> {
    address + "v1/rooms/"@ + hyphenated(room_id.0)
}

/// The URL of a room on the roomserver under `address`.
pub fn room_url(address: &WebUrl, room_id: RoomId) -> (s: String)
    ensures
        s@ == room_url_text(address@.serialization, room_id),
{
    let id = room_id.to_text();
    concat3(address.as_str(), "v1/rooms/", id.as_str())
}

/// The URL of a room's token endpoint: `{address}v1/rooms/{room_id}/token`.
pub fn room_token_url(address: &WebUrl, room_id: RoomId) -> (s: String)
    ensures
        s@ == room_url_text(address@.serialization, room_id) + "/token"@,
{
    let room = room_url(address, room_id);
    concat2(room.as_str(), "/token")
}

/// The answer to a failed selection for a room update: a room whose
/// roomserver is not available is answered as not found, as the roomserver
/// itself would, so that clients are not confused by an unavailable
/// service.
pub fn patch_selection_failure(error: &InstanceError) -> (f: ApiFailure)
    ensures
        match error {
            InstanceError::NotAvailable => is_failure(f, ApiErrorKind::NotFound, seq!["The requested room could not be found"@]),
            _ => is_failure(f, ApiErrorKind::Internal, seq!["internal authorization error"@]),
        },
{
    match error {
        InstanceError::NotAvailable => ApiFailure::with_message(ApiErrorKind::NotFound, "The requested room could not be found"),
        _ => error.to_api_failure(),
    }
}

/// What the roomserver's answer to a room request means: the room action
/// its status stands for (`action`, `None` where the status stands for
/// none), or else its error with the error body it sent, or an internal
/// error with the parser's message where the body is no error body.
pub fn room_request_outcome<A, B>(action: Option<A>, status: u16, body: Result<B, String>) -> (r: Result<A, ForwardFailure<B>>)
    ensures
        match action {
            Some(a) => r == Ok::<A, ForwardFailure<B>>(a),
            None => match body {
                Ok(b) => r matches Err(ForwardFailure::Remote { status: s, body: c }) && s == status && c == b,
                Err(m) => r matches Err(ForwardFailure::Api(f)) && is_failure(f, ApiErrorKind::Internal, seq![m@]),
            },
        },
{
    match action {
        Some(a) => Ok(a),
        None => match body {
            Ok(b) => Err(ForwardFailure::Remote { status, body: b }),
            Err(message) => Err(ForwardFailure::Api(ApiFailure::with_message(ApiErrorKind::Internal, message.as_str()))),
        },
    }
}

/// What the roomserver's answer to a token request means, given the URL of
/// the orchestrator's signaling proxy (`None` where it cannot be built),
/// the parsed access (`None` where the body does not parse as one) and the
/// parsed error body. On success the access is handed out with the proxy's
/// URL as its public URL.
pub open spec fn room_token_answer<T, B>(
    status: u16,
    signaling_url: Option<WebUrl>,
    access: Option<T>,
    error_body: Option<B>,
    r: Result<(T, WebUrl), ForwardFailure<B>>,
) -> bool {
    match signaling_url {
        None => r matches Err(ForwardFailure::Api(f)) && is_failure(f, ApiErrorKind::Internal, Seq::empty()),
        Some(u) => if status == 200 {
            match access {
                Some(a) => r matches Ok(p) && p.0 == a && p.1@ == u@,
                None => r matches Err(ForwardFailure::Api(f)) && is_failure(
                    f,
                    ApiErrorKind::Internal,
                    seq!["Unexpected roomserver response body"@],
                ),
            }
        } else if status == 401 {
            r matches Err(ForwardFailure::Api(f)) && is_failure(f, ApiErrorKind::Internal, seq!["Failed to authorize at roomserver"@])
        } else {
            match error_body {
                Some(b) => r matches Err(ForwardFailure::Remote { status: s, body: c }) && s == status && c == b,
                None => r matches Err(ForwardFailure::Api(f)) && is_failure(
                    f,
                    ApiErrorKind::Internal,
                    seq!["Unexpected roomserver response body"@],
                ),
            }
        },
    }
}

/// The answer to a token request (see [`room_token_answer`]).
pub fn room_token_outcome<T, B>(status: u16, signaling_url: Option<WebUrl>, access: Option<T>, error_body: Option<B>) -> (r: Result<(T, WebUrl), ForwardFailure<B>>)
    ensures
        room_token_answer(status, signaling_url, access, error_body, r),
{
    let url = match signaling_url {
        Some(u) => u,
        None => return Err(ForwardFailure::Api(ApiFailure::new(ApiErrorKind::Internal))),
    };
    if status == 200 {
        match access {
            Some(a) => Ok((a, url)),
            None => Err(
                ForwardFailure::Api(ApiFailure::with_message(ApiErrorKind::Internal, "Unexpected roomserver response body")),
            ),
        }
    } else if status == 401 {
        Err(ForwardFailure::Api(ApiFailure::with_message(ApiErrorKind::Internal, "Failed to authorize at roomserver")))
    } else {
        match error_body {
            Some(b) => Err(ForwardFailure::Remote { status, body: b }),
            None => Err(
                ForwardFailure::Api(ApiFailure::with_message(ApiErrorKind::Internal, "Unexpected roomserver response body")),
            ),
        }
    }
}

/// The URL of the orchestrator's roomserver signaling proxy:
/// `/roomserver/` joined onto its public URL.
pub fn roomserver_proxy_url(public_url: &WebUrl) -> (r: Option<WebUrl>)
    ensures
        match url_join(public_url@, "/roomserver/"@) {
            Ok(u) => r matches Some(v) && v@ == u,
            Err(_) => r is None,
        },
{
    match public_url.join("/roomserver/") {
        Ok(u) => Some(u),
        Err(_) => None,
    }
}

/// The path of a signaling session on a roomserver:
/// `/v1/signaling/{token}`.
pub open spec fn signaling_path(token: Token) -> Seq<char> {
    "/v1/signaling/"@ + hyphenated(token.0)
}

/// The websocket URL of a signaling session on the roomserver under
/// `roomserver`: the session's path joined onto it, with the websocket
/// scheme. A failed join, or a scheme other than `http` and `https`, is an
/// internal error.
pub fn roomserver_signaling_url(roomserver: &WebUrl, token: Token) -> (r: Result<WebUrl, ApiFailure>)
    ensures
        match url_join(roomserver@, signaling_path(token)) {
            Err(_) => r matches Err(f) && is_failure(f, ApiErrorKind::Internal, seq!["failed to build roomserver signaling url"@]),
            Ok(j) => match websocket_scheme(j.scheme) {
                Some(ws) => r matches Ok(u) && u@ == url_with_scheme(j, ws) && u@.scheme == ws && u@.path == j.path
                    && u@.query == j.query,
                None => r matches Err(f) && is_failure(f, ApiErrorKind::Internal, Seq::empty()),
            },
        },
{
    let token_text = token.to_text();
    let path = concat2("/v1/signaling/", token_text.as_str());
    let joined = match roomserver.join(path.as_str()) {
        Ok(u) => u,
        Err(_) => return Err(ApiFailure::with_message(ApiErrorKind::Internal, "failed to build roomserver signaling url")),
    };
    match joined.into_websocket() {
        Ok(u) => Ok(u),
        Err(_) => Err(ApiFailure::new(ApiErrorKind::Internal)),
    }
}

/// The answer to a token request for the room `room_id`, where the access
/// the roomserver sent comes with its token: as [`room_token_answer`] says,
/// and on success the token is stored for the room before the access is
/// handed out, so that one signaling session can be opened with it. A
/// failed request stores nothing.
pub fn request_room_token_outcome<T, B>(
    tokens: &mut RoomserverTokens,
    room_id: RoomId,
    status: u16,
    signaling_url: Option<WebUrl>,
    access: Option<(Token, T)>,
    error_body: Option<B>,
) -> (r: Result<((Token, T), WebUrl), ForwardFailure<B>>)
    requires
        old(tokens).wf(),
    ensures
        final(tokens).wf(),
        room_token_answer(status, signaling_url, access, error_body, r),
        match r {
            Ok(p) => final(tokens)@ == old(tokens)@.insert(p.0.0.0, room_id),
            Err(_) => final(tokens)@ == old(tokens)@,
        },
{
    let r = room_token_outcome(status, signaling_url, access, error_body);
    if let Ok(p) = &r {
        tokens.add_roomserver_token(room_id, p.0.0);
    }
    r
}

/// The room of a signaling session that a client opens with `token`: the
/// token's room, after which the token is gone. A token that is not stored
/// is refused as forbidden.
pub fn signaling_room(tokens: &mut RoomserverTokens, token: &Token) -> (r: Result<RoomId, ApiFailure>)
    requires
        old(tokens).wf(),
    ensures
        final(tokens).wf(),
        final(tokens)@ == old(tokens)@.remove(token.0),
        if old(tokens)@.contains_key(token.0) {
            r == Ok::<RoomId, ApiFailure>(old(tokens)@[token.0])
        } else {
            r matches Err(f) && is_failure(f, ApiErrorKind::Forbidden, seq!["invalid token"@])
        },
{
    match tokens.consume_roomserver_token(token) {
        Some(room) => Ok(room),
        None => Err(ApiFailure::with_message(ApiErrorKind::Forbidden, "invalid token")),
    }
}

} // verus!
