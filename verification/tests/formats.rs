use orchestrator::ids::{ApiKeyId, RoomId, Token};
use orchestrator::shared::services::recorder::RecorderResource;
use orchestrator::shared::services::transcription::TranscriptionResource;
use orchestrator::shared::services::{ServiceResource, ServiceResourceParseError};
use orchestrator::shared::ServiceKind;
use orchestrator::storage::redis::keys::{
    OrchestratorAliveKey, OrchestratorServicesKey, ResourceLookupKey, RoomserverTokenKey, ServiceId, ServiceIdError,
    ServiceInstanceKey, ServiceKindKey, ServiceMetricsKey, ServiceResourceKey, ORCHESTRATORS_SET_KEY,
};
use orchestrator::storage::redis::resource_names_from_keys;
use orchestrator::text::decimal_text;
use orchestrator::url_model::WebUrl;

const ROOM: &str = "e13127e7-899a-4dcc-993a-28e5bc15cb11";

fn room() -> RoomId {
    RoomId::parse(ROOM).unwrap()
}

#[test]
fn resource_names_have_the_kind_as_prefix() {
    assert_eq!(ServiceResource::Roomserver(room()).to_text(), format!("roomserver:{ROOM}"));
    assert_eq!(
        ServiceResource::Recorder(RecorderResource { room_id: room(), breakout_id: Some(42) }).to_text(),
        format!("recorder:{ROOM}:42")
    );
    assert_eq!(
        ServiceResource::Transcription(TranscriptionResource { room_id: room(), breakout_id: None }).to_text(),
        format!("transcription:{ROOM}")
    );
}

#[test]
fn resource_names_parse_back() {
    let resources = [
        ServiceResource::Roomserver(room()),
        ServiceResource::Recorder(RecorderResource { room_id: room(), breakout_id: None }),
        ServiceResource::Recorder(RecorderResource { room_id: room(), breakout_id: Some(7) }),
        ServiceResource::Transcription(TranscriptionResource { room_id: room(), breakout_id: Some(0) }),
    ];
    for resource in resources {
        assert_eq!(ServiceResource::try_from_text(&resource.to_text()), Ok(resource));
    }
}

#[test]
fn resource_name_errors_hold_the_input() {
    assert_eq!(
        ServiceResource::try_from_text("mixer:abc"),
        Err(ServiceResourceParseError::UnknownKind("mixer:abc".to_string()))
    );
    assert_eq!(
        ServiceResource::try_from_text("roomserver:nope"),
        Err(ServiceResourceParseError::InvalidRoomId { input: "roomserver:nope".to_string() })
    );
    let bad_breakout = format!("recorder:{ROOM}:x");
    assert_eq!(
        ServiceResource::try_from_text(&bad_breakout),
        Err(ServiceResourceParseError::InvalidBreakoutId { input: bad_breakout.clone() })
    );
    assert_eq!(ServiceResource::Roomserver(room()).kind(), ServiceKind::Roomserver);
}

#[test]
fn room_ids_are_written_hyphenated() {
    assert_eq!(RoomId::from_u128(1).to_text(), "00000000-0000-0000-0000-000000000001");
    assert_eq!(RoomId::nil().to_text(), "00000000-0000-0000-0000-000000000000");
    assert_eq!(Token::from_u128(0xab).to_text(), "00000000-0000-0000-0000-0000000000ab");
    assert_eq!(RoomId::parse("not a uuid"), None);
}

#[test]
fn service_id_is_the_base64_of_the_url() {
    let url = WebUrl::parse("http://localhost:8080/").unwrap();
    let id = ServiceId::from_url(&url);
    assert_eq!(id.as_str(), "aHR0cDovL2xvY2FsaG9zdDo4MDgwLw==");
    assert_eq!(id.to_url().unwrap().as_str(), "http://localhost:8080/");
}

#[test]
fn service_id_from_url_text_or_id_text() {
    let from_url = ServiceId::try_from_text("http://localhost:8080/").unwrap();
    assert_eq!(from_url.as_str(), "aHR0cDovL2xvY2FsaG9zdDo4MDgwLw==");
    let from_id = ServiceId::try_from_text("aHR0cDovL2xvY2FsaG9zdDo4MDgwLw==").unwrap();
    assert_eq!(from_id.inner(), "aHR0cDovL2xvY2FsaG9zdDo4MDgwLw==");
    assert_eq!(ServiceId::try_from_text("%%%"), Err(ServiceIdError::InvalidBase64));
    // "/w==" is the single byte 0xff, which is no UTF-8
    assert_eq!(ServiceId::try_from_text("/w=="), Err(ServiceIdError::NonUtf8));
    // "aGVsbG8=" is "hello", which is no URL
    assert_eq!(ServiceId::try_from_text("aGVsbG8="), Err(ServiceIdError::InvalidUrl));
}

#[test]
fn storage_keys() {
    let id = ServiceId::try_from_text("aHR0cDovL2xvY2FsaG9zdDo4MDgwLw==").unwrap();
    assert_eq!(ServiceInstanceKey { id: id.duplicate() }.key(), "ot-orchestrator:service:aHR0cDovL2xvY2FsaG9zdDo4MDgwLw==");
    assert_eq!(
        ServiceMetricsKey { id: id.duplicate() }.key(),
        "ot-orchestrator:service:aHR0cDovL2xvY2FsaG9zdDo4MDgwLw==:metrics"
    );
    assert_eq!(
        ServiceResourceKey { id }.key(),
        "ot-orchestrator:service:aHR0cDovL2xvY2FsaG9zdDo4MDgwLw==:resources"
    );
    assert_eq!(ServiceKindKey { kind: ServiceKind::Transcription }.key(), "ot-orchestrator:services:transcription");
    assert_eq!(
        ResourceLookupKey { resource: ServiceResource::Roomserver(room()) }.key(),
        format!("ot-orchestrator:resource:roomserver:{ROOM}:owner")
    );
    assert_eq!(OrchestratorAliveKey { id: ROOM.to_string() }.key(), format!("ot-orchestrator:orchestrator:{ROOM}:alive"));
    assert_eq!(
        OrchestratorServicesKey { id: ROOM.to_string() }.key(),
        format!("ot-orchestrator:orchestrator:{ROOM}:services")
    );
    assert_eq!(ORCHESTRATORS_SET_KEY, "ot-orchestrator:orchestrators");
    assert_eq!(
        RoomserverTokenKey { token: Token::from_u128(1) }.key(),
        "ot-orchestrator:roomserver-token:00000000-0000-0000-0000-000000000001"
    );
}

#[test]
fn resource_names_come_back_from_lookup_keys() {
    let keys = vec![
        format!("ot-orchestrator:resource:roomserver:{ROOM}:owner"),
        "ot-orchestrator:service:abc".to_string(),
        format!("ot-orchestrator:resource:recorder:{ROOM}:3:owner"),
    ];
    assert_eq!(
        resource_names_from_keys(&keys),
        vec![format!("roomserver:{ROOM}"), format!("recorder:{ROOM}:3")]
    );
}

#[test]
fn api_key_ids_compare_by_text() {
    let a = ApiKeyId::from_text("key1");
    assert!(a.same(&ApiKeyId::from_text("key1")));
    assert!(!a.same(&ApiKeyId::from_text("key2")));
}

#[test]
fn decimal_texts() {
    assert_eq!(decimal_text(0), "0");
    assert_eq!(decimal_text(1234567), "1234567");
    assert_eq!(decimal_text(u64::MAX), u64::MAX.to_string());
}

#[test]
fn breakout_numbers_are_parsed_as_u32() {
    let largest = format!("recorder:{ROOM}:4294967295");
    assert!(ServiceResource::try_from_text(&largest).is_ok());
    let signed = format!("recorder:{ROOM}:+7");
    assert_eq!(ServiceResource::try_from_text(&signed).map(|r| r.to_text()), Ok(format!("recorder:{ROOM}:7")));
    let too_large = format!("recorder:{ROOM}:4294967296");
    assert_eq!(
        ServiceResource::try_from_text(&too_large),
        Err(ServiceResourceParseError::InvalidBreakoutId { input: too_large.clone() })
    );
    let empty = format!("recorder:{ROOM}:");
    assert!(ServiceResource::try_from_text(&empty).is_err());
}

#[test]
fn tokens_parse_from_their_text() {
    assert_eq!(Token::parse("00000000-0000-0000-0000-000000000001"), Some(Token(1)));
    assert_eq!(Token::parse(&Token(77).to_text()), Some(Token(77)));
    assert_eq!(Token::parse("not-a-token"), None);
}
