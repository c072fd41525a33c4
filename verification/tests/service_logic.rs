use orchestrator::api::{ApiErrorKind, ForwardFailure};
use orchestrator::cli::{metrics_target, needs_settings, MetricsTargetError};
use orchestrator::ids::{ApiKey, ApiKeyId, RoomId, Token};
use orchestrator::livekit::{extract_room_id_from_request, get_bearer_token_from_headers, livekit_signaling_url, livekit_validate_url, parse_livekit_room};
use orchestrator::recorder::{recorder_init_outcome, recorder_init_url, RecorderInstance, RecordingAction};
use orchestrator::roomserver::{
    patch_selection_failure, request_room_token_outcome, room_request_outcome, room_token_outcome, room_token_url,
    room_url, roomserver_proxy_url, roomserver_signaling_url, signaling_room,
};
use orchestrator::service_instance::registration::{
    register_instance, registration_error_of, registration_payload, resolve_service_address, ServiceRegistration,
};
use orchestrator::service_instance::runner::{handle_service_event, runner_input, service_event_action, RunnerInput, StorageAction};
use orchestrator::service_instance::selection::{auth_header_from_jwt, select_instance, selected_instance, InstanceError, ServiceKeys};
use orchestrator::settings::logging::{filter_directives, Logging, DEFAULT_LOGGING_DIRECTIVES};
use orchestrator::settings::{http, metrics_url_from_settings, missing_config_message, monitoring};
use orchestrator::shared::error::RegistrationError;
use orchestrator::shared::event::Event;
use orchestrator::shared::register::{RegisterType, ServiceAddress};
use orchestrator::shared::services::recorder::{RecorderEvent, RecorderResource};
use orchestrator::shared::services::roomserver::{RegisterRoomserver, RoomserverEvent};
use orchestrator::shared::services::ServiceResource;
use orchestrator::shared::{Metrics, ServiceKind};
use orchestrator::storage::local::LocalStorage;
use orchestrator::storage::tokens::RoomserverTokens;
use orchestrator::storage::{AddInstanceError, StorageError};
use orchestrator::transcription::{transcription_init_outcome, transcription_init_url};
use orchestrator::url_model::WebUrl;
use orchestrator::websocket::{axum_to_tungstenite, tungstenite_to_axum, AcceptedMessage, CloseFrame, DialedMessage};

const ROOM: &str = "e13127e7-899a-4dcc-993a-28e5bc15cb11";

fn url(text: &str) -> WebUrl {
    WebUrl::parse(text).unwrap()
}

fn keys() -> ServiceKeys {
    ServiceKeys { keys: vec![ApiKey::new("a", "secret-a"), ApiKey::new("b", "secret-b"), ApiKey::new("b", "other-b")] }
}

#[test]
fn default_ports() {
    assert_eq!(http::default_port(), 11222);
    assert_eq!(monitoring::default_port(), 11221);
}

#[test]
fn logging_directives_are_joined() {
    let logging = Logging { directives: Some(vec!["warn".to_string(), "orchestrator=debug".to_string()]) };
    assert_eq!(logging.directives(), Some("warn,orchestrator=debug".to_string()));
    assert_eq!(Logging { directives: Some(vec![]) }.directives(), Some(String::new()));
    assert_eq!(Logging { directives: None }.directives(), None);
}

#[test]
fn logging_directives_priority() {
    let some = |s: &str| Some(s.to_string());
    assert_eq!(filter_directives(some("a"), some("b"), some("c")), "a");
    assert_eq!(filter_directives(some(""), some("b"), some("c")), "b");
    assert_eq!(filter_directives(None, some(""), some("c")), "c");
    assert_eq!(filter_directives(None, None, None), DEFAULT_LOGGING_DIRECTIVES);
    assert_eq!(DEFAULT_LOGGING_DIRECTIVES, "warn,opentalk_orchestrator=info");
}

#[test]
fn settings_derived_texts() {
    assert_eq!(metrics_url_from_settings("127.0.0.1", 11222).unwrap().as_str(), "http://127.0.0.1:11222/metrics");
    assert!(metrics_url_from_settings("::1", 11222).is_err());
    assert_eq!(
        missing_config_message(&vec!["a.toml".to_string(), "/etc/b.toml".to_string()]),
        "Couldn't find a configuration file. Searched: \"a.toml\", \"/etc/b.toml\"."
    );
}

#[test]
fn metrics_command_target() {
    let key = ApiKey::new("k", "s");
    assert!(!needs_settings(&Some(url("http://a/")), &Some(key.duplicate())));
    assert!(needs_settings(&None, &Some(key.duplicate())));
    let (u, k) = metrics_target(Some(url("http://a/")), Some(key.duplicate()), None).ok().unwrap();
    assert_eq!(u.as_str(), "http://a/");
    assert_eq!(k.id.0, "k");
    let (u, k) = metrics_target(None, Some(key.duplicate()), Some((Ok(url("http://b/metrics")), Some(ApiKey::new("c", "d")))))
        .ok()
        .unwrap();
    assert_eq!(u.as_str(), "http://b/metrics");
    assert_eq!(k.id.0, "k");
    let missing = metrics_target(Some(url("http://a/")), None, Some((Ok(url("http://b/")), None)));
    assert!(matches!(missing, Err(MetricsTargetError::MissingApiKey)));
}

#[test]
fn livekit_room_names() {
    let id = RoomId::parse(ROOM).unwrap();
    assert_eq!(parse_livekit_room(ROOM).ok().unwrap(), id);
    assert_eq!(parse_livekit_room(&format!("{ROOM}:3#whisper")).ok().unwrap(), id);
    assert_eq!(parse_livekit_room(&format!("{ROOM}#w:x")).ok().unwrap(), id);
    let err = parse_livekit_room("nope").err().unwrap();
    assert_eq!(err.kind, ApiErrorKind::BadRequest);
    assert_eq!(err.messages, vec!["invalid room id".to_string()]);
}

#[test]
fn bearer_tokens() {
    assert_eq!(get_bearer_token_from_headers(Some(b"Bearer abc")).ok().unwrap(), "abc");
    assert_eq!(get_bearer_token_from_headers(Some(b"bEaReR a b")).ok().unwrap(), "a b");
    let missing = get_bearer_token_from_headers(None).err().unwrap();
    assert_eq!((missing.kind, missing.messages), (ApiErrorKind::Forbidden, vec!["missing token".to_string()]));
    let invalid = get_bearer_token_from_headers(Some(&[0x42, 0x01])).err().unwrap();
    assert_eq!((invalid.kind, invalid.messages), (ApiErrorKind::BadRequest, vec!["invalid token header".to_string()]));
    let format = get_bearer_token_from_headers(Some(b"Bearer")).err().unwrap();
    assert_eq!(format.messages, vec!["invalid auth header format".to_string()]);
    let scheme = get_bearer_token_from_headers(Some(b"Basic abc")).err().unwrap();
    assert_eq!((scheme.kind, scheme.messages), (ApiErrorKind::Forbidden, vec!["invalid token scheme".to_string()]));
}

#[test]
fn livekit_forwarding_urls() {
    let validate = livekit_validate_url(&url("http://rs:1/base/"), Some("access_token=t")).unwrap();
    assert_eq!(validate.as_str(), "http://rs:1/base/livekit/rtc/validate?access_token=t");
    let signaling = livekit_signaling_url(url("https://rs/"), None).ok().unwrap();
    assert_eq!(signaling.as_str(), "wss://rs/livekit/rtc");
    let refused = livekit_signaling_url(url("ftp://rs/"), None).err().unwrap();
    assert_eq!(refused.kind, ApiErrorKind::Internal);
    assert!(refused.messages.is_empty());
}

#[test]
fn proxy_relays_all_but_pongs_and_frames() {
    match axum_to_tungstenite(AcceptedMessage::Text("hi".to_string())) {
        Some(DialedMessage::Text(t)) => assert_eq!(t, "hi"),
        _ => panic!("text is relayed"),
    }
    assert!(axum_to_tungstenite(AcceptedMessage::Pong(vec![1])).is_none());
    match axum_to_tungstenite(AcceptedMessage::Close(Some(CloseFrame { code: 1000, reason: "bye".to_string() }))) {
        Some(DialedMessage::Close(Some(f))) => assert_eq!((f.code, f.reason.as_str()), (1000, "bye")),
        _ => panic!("close is relayed"),
    }
    assert!(tungstenite_to_axum(DialedMessage::Frame).is_none());
    assert!(tungstenite_to_axum(DialedMessage::Pong(vec![])).is_none());
    match tungstenite_to_axum(DialedMessage::Binary(vec![1, 2])) {
        Some(AcceptedMessage::Binary(b)) => assert_eq!(b, vec![1, 2]),
        _ => panic!("binary is relayed"),
    }
}

#[test]
fn relayed_messages_come_back_unchanged() {
    let there = axum_to_tungstenite(AcceptedMessage::Ping(vec![7, 8])).unwrap();
    match tungstenite_to_axum(there) {
        Some(AcceptedMessage::Ping(p)) => assert_eq!(p, vec![7, 8]),
        _ => panic!("ping comes back"),
    }
    let there = axum_to_tungstenite(AcceptedMessage::Text("hello".to_string())).unwrap();
    match tungstenite_to_axum(there) {
        Some(AcceptedMessage::Text(t)) => assert_eq!(t, "hello"),
        _ => panic!("text comes back"),
    }
}

#[test]
fn api_keys_for_instances() {
    let keys = keys();
    let ids = vec![ApiKeyId::from_text("x"), ApiKeyId::from_text("b"), ApiKeyId::from_text("a")];
    assert!(keys.knows_any_of(&ids));
    assert!(!keys.knows_any_of(&vec![ApiKeyId::from_text("x")]));
    let key = keys.get_api_key_for_key_ids(&ids).unwrap();
    assert_eq!((key.id.0.as_str(), key.secret.as_str()), ("b", "secret-b"));
    assert!(keys.get_api_key_for_key_ids(&vec![]).is_none());
}

#[test]
fn auth_headers() {
    let header = auth_header_from_jwt(ApiKeyId::from_text("a"), Ok("tok".to_string())).ok().unwrap();
    assert_eq!(header, "Bearer tok");
    let made = keys().get_auth_header_for_key_ids(&vec![ApiKeyId::from_text("a")]).ok().unwrap();
    assert!(made.starts_with("Bearer ") && made.len() > "Bearer ".len());
    match keys().get_auth_header_for_key_ids(&vec![ApiKeyId::from_text("z")]) {
        Err(InstanceError::UnknownApiKeyIds(ids)) => assert_eq!(ids, vec![ApiKeyId::from_text("z")]),
        _ => panic!("unknown ids"),
    }
}

#[test]
fn instance_errors_as_answers() {
    let unavailable = InstanceError::NotAvailable.to_api_failure();
    assert_eq!(unavailable.kind, ApiErrorKind::ServiceUnavailable);
    assert_eq!(
        unavailable.messages,
        vec!["not_available".to_string(), "no instance of the requested service are currently available".to_string()]
    );
    let internal = InstanceError::UnknownApiKeyIds(vec![]).to_api_failure();
    assert_eq!((internal.kind, internal.messages), (ApiErrorKind::Internal, vec!["internal authorization error".to_string()]));
    let patched = patch_selection_failure(&InstanceError::NotAvailable);
    assert_eq!((patched.kind, patched.messages), (ApiErrorKind::NotFound, vec!["The requested room could not be found".to_string()]));
    assert!(matches!(
        selected_instance(Err(StorageError::NoInstanceAvailable), &keys()),
        Err(InstanceError::NotAvailable)
    ));
}

#[test]
fn selecting_and_registering_on_the_local_storage() {
    let mut storage = LocalStorage::new();
    let keys = keys();
    let registration = |ids: Vec<ApiKeyId>| ServiceRegistration {
        address: url("http://rs:1/"),
        register_type: RegisterType::Roomserver(RegisterRoomserver { rooms: vec![] }),
        api_key_ids: ids,
        metrics: Metrics { load: 1, accepting_jobs: true },
    };
    assert_eq!(
        register_instance(&mut storage, &keys, registration(vec![ApiKeyId::from_text("x")])),
        Err(RegistrationError::UnknownApiKeyIds)
    );
    assert!(storage.is_empty());
    assert_eq!(register_instance(&mut storage, &keys, registration(vec![ApiKeyId::from_text("a")])), Ok(()));
    assert_eq!(
        register_instance(&mut storage, &keys, registration(vec![ApiKeyId::from_text("a")])),
        Err(RegistrationError::AddressAlreadyInUse)
    );
    let selected = select_instance(&mut storage, &keys, ServiceResource::Roomserver(RoomId(5))).ok().unwrap();
    assert_eq!(selected.address.as_str(), "http://rs:1/");
    assert!(selected.auth_header.starts_with("Bearer "));
    assert!(matches!(
        select_instance(&mut storage, &keys, ServiceResource::Recorder(RecorderResource { room_id: RoomId(5), breakout_id: None })),
        Err(InstanceError::NotAvailable)
    ));
}

#[test]
fn service_addresses() {
    assert_eq!(resolve_service_address(ServiceAddress::Port(8080), "10.0.0.2").ok().unwrap().as_str(), "http://10.0.0.2:8080/");
    assert_eq!(resolve_service_address(ServiceAddress::Url(url("https://svc/x/")), "1.2.3.4").ok().unwrap().as_str(), "https://svc/x/");
    assert_eq!(resolve_service_address(ServiceAddress::Port(8080), "::1").ok().unwrap().as_str(), "http://[::1]:8080/");
    assert!(matches!(
        resolve_service_address(ServiceAddress::Port(8080), "not an ip"),
        Err(RegistrationError::InvalidServiceAddress)
    ));
    assert_eq!(registration_error_of(AddInstanceError::Internal("x".to_string())), RegistrationError::Internal);
}

#[test]
fn registration_and_runner_messages() {
    assert_eq!(registration_payload(AcceptedMessage::Text("{}".to_string())), Ok(b"{}".to_vec()));
    assert_eq!(registration_payload(AcceptedMessage::Ping(vec![])), Err(RegistrationError::InvalidMessageType));
    assert!(matches!(runner_input(AcceptedMessage::Close(None)), RunnerInput::Closed));
    assert!(matches!(runner_input(AcceptedMessage::Pong(vec![])), RunnerInput::Ignore));
    match runner_input(AcceptedMessage::Binary(vec![7])) {
        RunnerInput::Event(b) => assert_eq!(b, vec![7]),
        _ => panic!("binary carries events"),
    }
}

#[test]
fn events_act_on_the_storage() {
    let room = RoomId(3);
    assert_eq!(
        service_event_action(Event::Roomserver(RoomserverEvent::RemoveRoom(room))),
        StorageAction::RemoveResource(ServiceResource::Roomserver(room))
    );
    let mut storage = LocalStorage::new();
    let address = url("http://rs:1/");
    storage
        .add_instance(ServiceRegistration {
            address: address.duplicate(),
            register_type: RegisterType::Roomserver(RegisterRoomserver { rooms: vec![room] }),
            api_key_ids: vec![],
            metrics: Metrics::default(),
        })
        .unwrap();
    let metrics = Metrics { load: 40, accepting_jobs: true };
    handle_service_event(&mut storage, &address, ServiceKind::Roomserver, Event::Metrics(metrics)).unwrap();
    assert_eq!(storage.get_instance(&address, ServiceKind::Roomserver).unwrap().metrics, metrics);
    handle_service_event(&mut storage, &address, ServiceKind::Roomserver, Event::Roomserver(RoomserverEvent::RemoveRoom(room))).unwrap();
    assert!(storage.get_instances_for_resource(&ServiceResource::Roomserver(room)).is_none());
    assert!(matches!(
        handle_service_event(&mut storage, &url("http://other/"), ServiceKind::Roomserver, Event::Metrics(metrics)),
        Err(StorageError::UnknownService(ServiceKind::Roomserver))
    ));
}

#[test]
fn recorder_answers() {
    assert_eq!(recorder_init_outcome::<u8>(200, None).ok(), Some(RecordingAction::Created));
    assert_eq!(recorder_init_outcome::<u8>(204, None).ok(), Some(RecordingAction::AlreadyRunning));
    match recorder_init_outcome::<u8>(401, Some(1)) {
        Err(ForwardFailure::Api(f)) => assert_eq!(f.messages, vec!["Failed to authorize at recorder".to_string()]),
        _ => panic!("unauthorized"),
    }
    assert!(matches!(recorder_init_outcome::<u8>(409, Some(1)), Err(ForwardFailure::Remote { status: 409, body: 1 })));
    match recorder_init_outcome::<u8>(500, None) {
        Err(ForwardFailure::Api(f)) => assert_eq!(f.messages, vec!["Unexpected recorder response body".to_string()]),
        _ => panic!("unexpected body"),
    }
    assert_eq!(recorder_init_url(&url("http://rec/a/")).ok().unwrap().as_str(), "http://rec/a/v1/init");
}

#[test]
fn recorder_instances_track_recordings() {
    let one = RecorderResource { room_id: RoomId(1), breakout_id: None };
    let two = RecorderResource { room_id: RoomId(2), breakout_id: Some(1) };
    let mut recorder = RecorderInstance::new(vec![one, one]);
    assert!(recorder.manages(&one));
    assert!(!recorder.manages(&two));
    recorder.add_managed_resource(two);
    assert!(recorder.manages(&two));
    recorder.handle_event(RecorderEvent::RemoveRecording(one));
    assert!(!recorder.manages(&one));
    assert_eq!(recorder.instance_data().metrics, Metrics::default());
}

#[test]
fn transcription_answers() {
    assert!(transcription_init_outcome::<u8>(201, None).is_ok());
    assert!(matches!(transcription_init_outcome::<u8>(404, Some(2)), Err(ForwardFailure::Remote { status: 404, body: 2 })));
    match transcription_init_outcome::<u8>(400, None) {
        Err(ForwardFailure::Api(f)) => {
            assert_eq!(f.messages, vec!["Unexpected transcription service response body".to_string()])
        },
        _ => panic!("unexpected body"),
    }
    assert_eq!(transcription_init_url(&url("http://tr/")).ok().unwrap().as_str(), "http://tr/v1/init");
}

#[test]
fn roomserver_answers() {
    let address = url("http://rs:1/");
    assert_eq!(room_url(&address, RoomId(1)), "http://rs:1/v1/rooms/00000000-0000-0000-0000-000000000001");
    assert_eq!(room_token_url(&address, RoomId(1)), "http://rs:1/v1/rooms/00000000-0000-0000-0000-000000000001/token");
    assert!(matches!(room_request_outcome::<u8, u8>(Some(3), 200, Err("x".to_string())), Ok(3)));
    assert!(matches!(room_request_outcome::<u8, u8>(None, 418, Ok(9)), Err(ForwardFailure::Remote { status: 418, body: 9 })));
    match room_request_outcome::<u8, u8>(None, 418, Err("bad json".to_string())) {
        Err(ForwardFailure::Api(f)) => assert_eq!(f.messages, vec!["bad json".to_string()]),
        _ => panic!("parse error"),
    }
    let proxy = roomserver_proxy_url(&url("https://orch.example/api/")).unwrap();
    assert_eq!(proxy.as_str(), "https://orch.example/roomserver/");
    let (access, public) = room_token_outcome::<u8, u8>(200, Some(proxy.duplicate()), Some(5), None).ok().unwrap();
    assert_eq!((access, public.as_str()), (5, "https://orch.example/roomserver/"));
    match room_token_outcome::<u8, u8>(401, Some(proxy.duplicate()), None, None) {
        Err(ForwardFailure::Api(f)) => assert_eq!(f.messages, vec!["Failed to authorize at roomserver".to_string()]),
        _ => panic!("unauthorized"),
    }
    assert!(matches!(room_token_outcome::<u8, u8>(500, Some(proxy), None, Some(1)), Err(ForwardFailure::Remote { status: 500, body: 1 })));
    assert!(matches!(room_token_outcome::<u8, u8>(200, None, Some(5), None), Err(ForwardFailure::Api(_))));
}

#[test]
fn roomserver_signaling_urls() {
    let signaling = roomserver_signaling_url(&url("https://rs:1/base/"), Token(1)).ok().unwrap();
    assert_eq!(signaling.as_str(), "wss://rs:1/v1/signaling/00000000-0000-0000-0000-000000000001");
    let refused = roomserver_signaling_url(&url("ftp://rs/"), Token(1)).err().unwrap();
    assert_eq!(refused.kind, ApiErrorKind::Internal);
}

const ROOM_TOKEN: &str = "eyJhbGciOiJIUzI1NiIsInR5cCI6IkpXVCJ9.eyJ2aWRlbyI6eyJyb29tIjoiZTEzMTI3ZTctODk5YS00ZGNjLTk5M2EtMjhlNWJjMTVjYjExOjIjdyJ9fQ.c2ln";

#[test]
fn room_of_a_media_server_request() {
    let id = RoomId::parse(ROOM).unwrap();
    assert_eq!(extract_room_id_from_request(Some(ROOM_TOKEN), None).ok().unwrap(), id);
    let header = format!("Bearer {ROOM_TOKEN}");
    assert_eq!(extract_room_id_from_request(None, Some(header.as_bytes())).ok().unwrap(), id);
    let invalid = extract_room_id_from_request(Some("not-a-token"), None).err().unwrap();
    assert_eq!((invalid.kind, invalid.messages), (ApiErrorKind::Forbidden, vec!["invalid token".to_string()]));
    let missing = extract_room_id_from_request(None, None).err().unwrap();
    assert_eq!(missing.messages, vec!["missing token".to_string()]);
}

/// The key id in the header of a JSON web token: the header is the first
/// part of the token, base64url without padding.
fn header_of(token: &str) -> String {
    let header = token.split('.').next().unwrap();
    let bytes = base64::Engine::decode(&base64::engine::general_purpose::URL_SAFE_NO_PAD, header).unwrap();
    String::from_utf8(bytes).unwrap()
}

#[test]
fn auth_header_names_the_chosen_key() {
    let header = keys().get_auth_header_for_key_ids(&vec![ApiKeyId::from_text("z"), ApiKeyId::from_text("b")]).ok().unwrap();
    let token = header.strip_prefix("Bearer ").unwrap();
    let decoded = header_of(token);
    assert!(decoded.contains("\"kid\":\"b\""), "{decoded}");
    assert!(decoded.contains("HS256"), "{decoded}");
}

#[test]
fn room_tokens_are_good_for_one_session() {
    let mut tokens = RoomserverTokens::new();
    let room = RoomId::from_u128(4);
    tokens.add_roomserver_token(room, Token(7));
    assert_eq!(tokens.consume_roomserver_token(&Token(8)), None);
    assert_eq!(tokens.consume_roomserver_token(&Token(7)), Some(room));
    assert_eq!(tokens.consume_roomserver_token(&Token(7)), None);
}

#[test]
fn a_new_room_for_a_token_replaces_the_old() {
    let mut tokens = RoomserverTokens::new();
    tokens.add_roomserver_token(RoomId::from_u128(1), Token(7));
    tokens.add_roomserver_token(RoomId::from_u128(2), Token(7));
    assert_eq!(tokens.consume_roomserver_token(&Token(7)), Some(RoomId::from_u128(2)));
    assert_eq!(tokens.consume_roomserver_token(&Token(7)), None);
}

#[test]
fn granted_room_tokens_are_stored_before_signaling() {
    let mut tokens = RoomserverTokens::new();
    let room = RoomId::from_u128(3);
    let proxy = roomserver_proxy_url(&url("https://orch.example/")).unwrap();

    let refused = request_room_token_outcome::<u8, u8>(&mut tokens, room, 500, Some(proxy.duplicate()), Some((Token(9), 1)), Some(2));
    assert!(matches!(refused, Err(ForwardFailure::Remote { status: 500, body: 2 })));
    assert!(signaling_room(&mut tokens, &Token(9)).is_err());

    let ((token, access), public) =
        request_room_token_outcome::<u8, u8>(&mut tokens, room, 200, Some(proxy), Some((Token(9), 1)), None).ok().unwrap();
    assert_eq!((token, access, public.as_str()), (Token(9), 1, "https://orch.example/roomserver/"));

    assert_eq!(signaling_room(&mut tokens, &Token(9)).ok().unwrap(), room);
    let second = signaling_room(&mut tokens, &Token(9)).err().unwrap();
    assert_eq!(second.kind, ApiErrorKind::Forbidden);
    assert_eq!(second.messages, vec!["invalid token".to_string()]);
}
