//! The routing of media server requests to the roomserver of a room.
//!
//! Clients present an access token whose claims name the room; the
//! request is forwarded to the roomserver that runs the room.
use vstd::prelude::*;

use vstd::utf8::{decode_utf8, encode_utf8, is_ascii_chars};

use crate::api::{is_failure, ApiErrorKind, ApiFailure};
use crate::ids::{room_id_parse, RoomId};
use crate::text::{eq_ignore_ascii_case, split_first, split_once, string_from_utf8, text_eq_ignore_ascii_case, to_owned_text};
use crate::url_model::{query_fits, url_join, url_with_query, url_with_scheme, websocket_scheme, UrlView, WebUrl};

verus! {

/// A byte that a header value may hold and still be read as text: a
/// visible ASCII character, a space or a tab.
pub open spec fn visible_ascii(b: u8) -> bool {
    (32 <= b && b < 127) || b == 9
}

/// The text of a header value made of such bytes.
pub open spec fn header_text(bytes: Seq<u8>) -> Seq<char> {
    bytes.map_values(|b: u8| b as char)
}

/// The room that the claims of an access token name, read without checking
/// the token's signature (`livekit_api::access_token::Claims::from_unverified`,
/// its `video.room`); `None` where the token does not decode.
pub uninterp spec fn livekit_room_claim(token: Seq<char>) -> Option<Seq<char>>;

/// `livekit_api::access_token::Claims::from_unverified`, of which the room
/// of the video grant is kept; its result is named `livekit_room_claim`.
#[verifier::external_body]
fn room_of_unverified_token(token: &str) -> (r: Option<String>)
    ensures
        match r {
            Some(room) => livekit_room_claim(token@) == Some(room@),
            None => livekit_room_claim(token@) is None,
        },
{
    match livekit_api::access_token::Claims::from_unverified(token) {
        Ok(claims) => Some(claims.video.room),
        Err(_) => None,
    }
}

/// The room id part of a media server room name
/// `<room_id>[:<breakout_room_id>][#<whisper_id>]`.
pub open spec fn livekit_room_id_text(room: Seq<char>) -> Seq<char> {
    let without_whisper = match split_first(room, '#') {
        Some(parts) => parts.0,
        None => room,
    };
    match split_first(without_whisper, ':') {
        Some(parts) => parts.0,
        None => without_whisper,
    }
}

/// The room id of a media server room name; the whisper id and the
/// breakout room id are not needed for routing.
pub fn parse_livekit_room(room: &str) -> (r: Result<RoomId, ApiFailure>)
    ensures
        match room_id_parse(livekit_room_id_text(room@)) {
            Some(v) => r matches Ok(id) && id.0 == v,
            None => r matches Err(f) && is_failure(f, ApiErrorKind::BadRequest, seq!["invalid room id"@]),
        },
{
    let without_whisper = match split_once(room, '#') {
        Some((before, _)) => before,
        None => room,
    };
    let room_id = match split_once(without_whisper, ':') {
        Some((before, _)) => before,
        None => without_whisper,
    };
    match RoomId::parse(room_id) {
        Some(id) => Ok(id),
        None => Err(ApiFailure::with_message(ApiErrorKind::BadRequest, "invalid room id")),
    }
}

/// The token of an authorization header `<scheme> <token>` whose scheme is
/// `bearer`, in any case.
pub open spec fn bearer_token(header: Option<Seq<u8>>) -> Result<Seq<char>, (ApiErrorKind, Seq<char>)> {
    match header {
        None => Err((ApiErrorKind::Forbidden, "missing token"@)),
        Some(bytes) => if !(forall|i: int| 0 <= i < bytes.len() ==> visible_ascii(#[trigger] bytes[i])) {
            Err((ApiErrorKind::BadRequest, "invalid token header"@))
        } else {
            match split_first(header_text(bytes), ' ') {
                None => Err((ApiErrorKind::BadRequest, "invalid auth header format"@)),
                Some((scheme, token)) => if eq_ignore_ascii_case(scheme, "bearer"@) {
                    Ok(token)
                } else {
                    Err((ApiErrorKind::Forbidden, "invalid token scheme"@))
                },
            }
        },
    }
}

/// Whether all bytes are visible ASCII.
fn all_visible_ascii(bytes: &[u8]) -> (r: bool)
    ensures
        r == forall|i: int| 0 <= i < bytes@.len() ==> visible_ascii(#[trigger] bytes@[i]),
{
    let mut i: usize = 0;
    while i < bytes.len()
        invariant
            i <= bytes@.len(),
            forall|k: int| 0 <= k < i ==> visible_ascii(#[trigger] bytes@[k]),
        decreases bytes.len() - i,
    {
        let b = bytes[i];
        if !((32 <= b && b < 127) || b == 9) {
            return false;
        }
        i = i + 1;
    }
    true
}

/// An ASCII byte read as a character and back is the same byte.
proof fn lemma_ascii_byte_char(b: u8)
    requires
        b < 128,
    ensures
        (b as char) as u8 == b,
{
}

/// The text of header bytes that are all visible ASCII.
fn ascii_header_text(bytes: &[u8]) -> (s: String)
    requires
        forall|i: int| 0 <= i < bytes@.len() ==> visible_ascii(#[trigger] bytes@[i]),
    ensures
        s@ == header_text(bytes@),
{
    let ghost chars = header_text(bytes@);
    proof {
        assert(is_ascii_chars(chars)) by {
            assert forall|i| 0 <= i < chars.len() implies '\0' <= #[trigger] chars[i] <= '\u{7f}' by {
                assert(visible_ascii(bytes@[i]));
            }
        }
        vstd::utf8::is_ascii_chars_encode_utf8(chars);
        assert forall|i| 0 <= i < chars.len() implies encode_utf8(chars)[i] == bytes@[i] by {
            assert(chars[i] as u8 == encode_utf8(chars)[i]);
            assert(visible_ascii(bytes@[i]));
            lemma_ascii_byte_char(bytes@[i]);
        }
        assert(encode_utf8(chars) =~= bytes@);
        vstd::utf8::encode_utf8_valid_utf8(chars);
        vstd::utf8::encode_utf8_decode_utf8(chars);
    }
    let v = crate::storage::redis::util::bytes_to_vec(bytes);
    match string_from_utf8(v) {
        Some(s) => s,
        None => String::new(),
    }
}

/// The bearer token of an authorization header, given as its bytes.
pub fn get_bearer_token_from_headers(auth_header: Option<&[u8]>) -> (r: Result<String, ApiFailure>)
    ensures
        match bearer_token(match auth_header {
            Some(b) => Some(b@),
            None => None,
        }) {
            Ok(t) => r matches Ok(s) && s@ == t,
            Err((kind, message)) => r matches Err(f) && is_failure(f, kind, seq![message]),
        },
{
    let bytes = match auth_header {
        Some(b) => b,
        None => return Err(ApiFailure::with_message(ApiErrorKind::Forbidden, "missing token")),
    };
    if !all_visible_ascii(bytes) {
        return Err(ApiFailure::with_message(ApiErrorKind::BadRequest, "invalid token header"));
    }
    let text = ascii_header_text(bytes);
    let (scheme, token) = match split_once(text.as_str(), ' ') {
        Some(parts) => parts,
        None => return Err(ApiFailure::with_message(ApiErrorKind::BadRequest, "invalid auth header format")),
    };
    if text_eq_ignore_ascii_case(scheme, "bearer") {
        Ok(to_owned_text(token))
    } else {
        Err(ApiFailure::with_message(ApiErrorKind::Forbidden, "invalid token scheme"))
    }
}

/// The room a media server request is for: the room named in the claims of
/// its access token, which comes from the `access_token` query parameter or
/// else from the bearer authorization header. The token's signature is not
/// checked here; the roomserver checks it.
pub fn extract_room_id_from_request(query_token: Option<&str>, auth_header: Option<&[u8]>) -> (r: Result<RoomId, ApiFailure>)
    ensures
        ({
            let token = match query_token {
                Some(t) => Ok(t@),
                None => bearer_token(match auth_header {
                    Some(b) => Some(b@),
                    None => None,
                }),
            };
            match token {
                Err((kind, message)) => r matches Err(f) && is_failure(f, kind, seq![message]),
                Ok(t) => match livekit_room_claim(t) {
                    None => r matches Err(f) && is_failure(f, ApiErrorKind::Forbidden, seq!["invalid token"@]),
                    Some(room) => match room_id_parse(livekit_room_id_text(room)) {
                        Some(v) => r matches Ok(id) && id.0 == v,
                        None => r matches Err(f) && is_failure(f, ApiErrorKind::BadRequest, seq!["invalid room id"@]),
                    },
                },
            }
        }),
{
    let header_token;
    let token = match query_token {
        Some(t) => t,
        None => {
            header_token = get_bearer_token_from_headers(auth_header)?;
            header_token.as_str()
        },
    };
    match room_of_unverified_token(token) {
        Some(room) => parse_livekit_room(room.as_str()),
        None => Err(ApiFailure::with_message(ApiErrorKind::Forbidden, "invalid token")),
    }
}

/// The query of a request, as a view.
pub open spec fn query_view(raw_query: Option<&str>) -> Option<Seq<char>> {
    match raw_query {
        Some(q) => Some(q@),
        None => None,
    }
}

/// The URL the validation request for a room is forwarded to:
/// `livekit/rtc/validate` joined onto the roomserver's URL, with the query
/// of the incoming request. There is none where the join fails, or where
/// the query would take the URL beyond what the `url` crate can hold (see
/// [`query_fits`]).
pub fn livekit_validate_url(roomserver: &WebUrl, raw_query: Option<&str>) -> (r: Option<WebUrl>)
    ensures
        match url_join(roomserver@, "livekit/rtc/validate"@) {
            Ok(j) => if query_fits(j, query_view(raw_query)) {
                r matches Some(u) && u@ == url_with_query(j, query_view(raw_query)) && (u@.query is Some
                    <==> raw_query is Some) && u@.scheme == j.scheme
            } else {
                r is None
            },
            Err(_) => r is None,
        },
{
    match roomserver.join("livekit/rtc/validate") {
        Ok(mut url) => {
            if !url.fits_query(raw_query) {
                return None;
            }
            url.set_query(raw_query);
            Some(url)
        },
        Err(_) => None,
    }
}

/// The websocket URL the signaling of a room is forwarded to: the
/// roomserver's URL with the websocket scheme, `livekit/rtc` joined onto
/// it, and the query of the incoming request. A roomserver URL with
/// another scheme than `http` or `https`, a failed join, or a query that
/// would take the URL beyond what the `url` crate can hold (see
/// [`query_fits`]) is an internal error.
pub fn livekit_signaling_url(roomserver: WebUrl, raw_query: Option<&str>) -> (r: Result<WebUrl, ApiFailure>)
    ensures
        match websocket_scheme(roomserver@.scheme) {
            None => r matches Err(f) && is_failure(f, ApiErrorKind::Internal, Seq::empty()),
            Some(ws) => match url_join(url_with_scheme(roomserver@, ws), "livekit/rtc"@) {
                Ok(j) => if query_fits(j, query_view(raw_query)) {
                    r matches Ok(u) && u@ == url_with_query(j, query_view(raw_query)) && (u@.query is Some
                        <==> raw_query is Some) && u@.scheme == j.scheme
                } else {
                    r matches Err(f) && is_failure(f, ApiErrorKind::Internal, Seq::empty())
                },
                Err(_) => r matches Err(f) && is_failure(f, ApiErrorKind::Internal, Seq::empty()),
            },
        },
{
    let ws = match roomserver.into_websocket() {
        Ok(u) => u,
        Err(_) => return Err(ApiFailure::new(ApiErrorKind::Internal)),
    };
    match ws.join("livekit/rtc") {
        Ok(mut url) => {
            if !url.fits_query(raw_query) {
                return Err(ApiFailure::new(ApiErrorKind::Internal));
            }
            url.set_query(raw_query);
            Ok(url)
        },
        Err(_) => Err(ApiFailure::new(ApiErrorKind::Internal)),
    }
}

} // verus!
