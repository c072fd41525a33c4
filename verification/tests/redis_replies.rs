use orchestrator::ids::RoomId;
use orchestrator::shared::error::RegistrationError;
use orchestrator::shared::register::RegisterType;
use orchestrator::shared::services::recorder::{RecorderResource, RegisterRecorder};
use orchestrator::shared::services::ServiceResource;
use orchestrator::shared::{Metrics, ServiceKind};
use orchestrator::storage::redis::keys::{ServiceId, ServiceIdError};
use orchestrator::storage::redis::peer_monitor::{
    handle_pmessage, keyspace_config_to_set, parse_alive_key_event, ChannelError, PeerAction, PeerError,
    ORCHESTRATOR_ALIVE_KEY_SUBSCRIPTION,
};
use orchestrator::storage::redis::scripts::{
    add_instance_call, add_instance_error, add_instance_result, api_key_ids_from_json, cleaned_ids, cleanup_result, init_step,
    instance_by_resource_outcome, parse_orchestrator_ids, remove_instance_result, select_instance_outcome,
    service_states_from_entries, AddInstanceScriptError, CleanupResult, InitStep, InstanceReply, ReplyError,
    ReturnedInstance, ServiceMetricsEntry,
};
use orchestrator::storage::redis::util::{redis_to_string, PMessageData, PMessageError, RedisValue, RedisValueError};
use orchestrator::storage::redis::{instance_from_reply, registration_resources, InstanceQueryReply};
use orchestrator::storage::AddInstanceError;
use orchestrator::url_model::WebUrl;

const UUID: &str = "e13127e7-899a-4dcc-993a-28e5bc15cb11";
const LOCAL_ID: &str = "aHR0cDovL2xvY2FsaG9zdDo4MDgwLw==";

fn uuid_value() -> u128 {
    0xe13127e7_899a_4dcc_993a_28e5bc15cb11
}

#[test]
fn reply_strings() {
    assert_eq!(redis_to_string(&RedisValue::BulkString(b"abc".to_vec())), Ok("abc".to_string()));
    assert_eq!(redis_to_string(&RedisValue::SimpleString("OK".to_string())), Ok("OK".to_string()));
    assert_eq!(redis_to_string(&RedisValue::BulkString(vec![0xc3])), Err(RedisValueError::NonUtf8));
    assert_eq!(redis_to_string(&RedisValue::Int(1)), Err(RedisValueError::UnexpectedType));
}

#[test]
fn pattern_messages_have_three_parts() {
    let parts = vec![
        RedisValue::BulkString(b"p".to_vec()),
        RedisValue::SimpleString("c".to_string()),
        RedisValue::BulkString(b"expired".to_vec()),
    ];
    let message = PMessageData::try_from(parts).ok().unwrap();
    assert_eq!(message.pattern, "p");
    assert_eq!(message.channel, "c");
    assert_eq!(message.payload, "expired");
    assert_eq!(message.to_text(), "PMessageData { pattern: p, channel: c, payload: expired }");
    assert!(matches!(PMessageData::try_from(vec![RedisValue::Nil]), Err(PMessageError::WrongLength(1))));
    let bad = vec![RedisValue::BulkString(b"p".to_vec()), RedisValue::Int(3), RedisValue::Nil];
    assert!(matches!(PMessageData::try_from(bad), Err(PMessageError::Channel(RedisValueError::UnexpectedType))));
}

#[test]
fn alive_key_channels() {
    let channel = format!("__keyspace@0__:ot-orchestrator:orchestrator:{UUID}:alive");
    assert_eq!(parse_alive_key_event(&channel, 0), Ok(Some(uuid_value())));
    assert_eq!(parse_alive_key_event(&channel, 3), Ok(None));
    assert_eq!(parse_alive_key_event("keyspace", 0), Err(ChannelError::Prefix));
    assert_eq!(parse_alive_key_event("__keyspace@0:x", 0), Err(ChannelError::Database));
    assert_eq!(parse_alive_key_event("__keyspace@x__:y", 0), Err(ChannelError::DatabaseNumber));
    assert_eq!(parse_alive_key_event("__keyspace@0__:other:x:alive", 0), Err(ChannelError::KeyPrefix));
    assert_eq!(
        parse_alive_key_event("__keyspace@0__:ot-orchestrator:orchestrator:x:services", 0),
        Err(ChannelError::KeySuffix)
    );
    assert_eq!(
        parse_alive_key_event("__keyspace@0__:ot-orchestrator:orchestrator:x:alive", 0),
        Err(ChannelError::Uuid)
    );
}

#[test]
fn expired_alive_keys_of_others_are_cleaned_up() {
    let message = |payload: &str, channel: String| PMessageData {
        pattern: ORCHESTRATOR_ALIVE_KEY_SUBSCRIPTION.to_string(),
        channel,
        payload: payload.to_string(),
    };
    let channel = format!("__keyspace@0__:ot-orchestrator:orchestrator:{UUID}:alive");
    assert_eq!(handle_pmessage(&message("expired", channel.clone()), 0, 1), Ok(PeerAction::Cleanup(uuid_value())));
    assert_eq!(handle_pmessage(&message("set", channel.clone()), 0, 1), Ok(PeerAction::Ignore));
    assert_eq!(
        handle_pmessage(&message("expired", channel.clone()), 0, uuid_value()),
        Err(PeerError::OwnKeyExpired(uuid_value()))
    );
    let other_pattern = PMessageData { pattern: "x".to_string(), channel, payload: "expired".to_string() };
    assert_eq!(handle_pmessage(&other_pattern, 0, 1), Ok(PeerAction::Ignore));
}

#[test]
fn keyspace_flags_are_completed() {
    assert_eq!(keyspace_config_to_set("".to_string()), Some("Kx".to_string()));
    assert_eq!(keyspace_config_to_set("AK".to_string()), Some("AKx".to_string()));
    assert_eq!(keyspace_config_to_set("xE".to_string()), Some("xEK".to_string()));
    assert_eq!(keyspace_config_to_set("KEx".to_string()), None);
}

#[test]
fn api_key_id_lists() {
    let ids = api_key_ids_from_json("[\"a\",\"b\"]").ok().unwrap();
    assert_eq!(ids.len(), 2);
    assert_eq!(ids[1].0, "b");
    assert!(matches!(api_key_ids_from_json("{}"), Err(ReplyError::ApiKeyIds)));
}

#[test]
fn selection_replies() {
    let reply = InstanceReply::Instance(ReturnedInstance {
        service_id: LOCAL_ID.to_string(),
        api_key_ids: "[\"key1\"]".to_string(),
        load: 7,
        accepting_jobs: true,
    });
    let (url, data) = select_instance_outcome(reply).ok().unwrap();
    assert_eq!(url.as_str(), "http://localhost:8080/");
    assert_eq!(data.metrics, Metrics { load: 7, accepting_jobs: true });
    assert_eq!(data.api_key_ids[0].0, "key1");
    assert!(matches!(select_instance_outcome(InstanceReply::Code(1)), Err(ReplyError::NoInstanceAvailable)));
    assert!(matches!(select_instance_outcome(InstanceReply::Code(5)), Err(ReplyError::UnexpectedCode(5))));
}

#[test]
fn lookup_replies() {
    assert!(matches!(instance_by_resource_outcome(InstanceReply::Code(1)), Ok(None)));
    let reply = InstanceReply::Instance(ReturnedInstance {
        service_id: LOCAL_ID.to_string(),
        api_key_ids: "[]".to_string(),
        load: 0,
        accepting_jobs: false,
    });
    let (url, _) = instance_by_resource_outcome(reply).ok().unwrap().unwrap();
    assert_eq!(url.as_str(), "http://localhost:8080/");
    let bad = InstanceReply::Instance(ReturnedInstance {
        service_id: "%%%".to_string(),
        api_key_ids: "[]".to_string(),
        load: 0,
        accepting_jobs: false,
    });
    assert!(matches!(
        instance_by_resource_outcome(bad),
        Err(ReplyError::ServiceId(ServiceIdError::InvalidBase64))
    ));
}

#[test]
fn metrics_entries_keep_resources_of_their_kind() {
    let entries = vec![ServiceMetricsEntry {
        service_id: LOCAL_ID.to_string(),
        api_key_ids_json: "[\"k\"]".to_string(),
        load: 3,
        accepting_jobs: true,
        resources: vec![
            format!("recorder:{UUID}:1"),
            format!("roomserver:{UUID}"),
            "garbage".to_string(),
            format!("recorder:{UUID}:1"),
        ],
    }];
    let states = service_states_from_entries::<RecorderResource>(&entries).ok().unwrap();
    assert_eq!(states.len(), 1);
    assert_eq!(states[0].0.as_str(), "http://localhost:8080/");
    assert_eq!(
        states[0].1.managed_resources,
        vec![RecorderResource { room_id: RoomId(uuid_value()), breakout_id: Some(1) }]
    );
}

#[test]
fn script_codes() {
    assert!(add_instance_result(0).is_ok());
    assert_eq!(
        add_instance_result(1),
        Err(AddInstanceScriptError::Registration(RegistrationError::AddressAlreadyInUse))
    );
    assert_eq!(
        add_instance_result(2),
        Err(AddInstanceScriptError::Registration(RegistrationError::ResourceAlreadyExists))
    );
    assert_eq!(add_instance_result(9), Err(AddInstanceScriptError::UnexpectedCode(9)));
    assert_eq!(
        add_instance_error(AddInstanceScriptError::Registration(RegistrationError::AddressAlreadyInUse)),
        AddInstanceError::RegistrationError(RegistrationError::AddressAlreadyInUse)
    );
    assert!(matches!(add_instance_error(AddInstanceScriptError::Redis("down".to_string())), AddInstanceError::Internal(_)));
    assert_eq!(remove_instance_result(0), Ok(()));
    assert_eq!(remove_instance_result(1), Err(ReplyError::NotFound));
    assert_eq!(cleanup_result(0), Ok(CleanupResult::Cleaned));
    assert_eq!(cleanup_result(1), Ok(CleanupResult::StillAlive));
    assert_eq!(cleanup_result(2), Ok(CleanupResult::NotFound));
    assert_eq!(cleanup_result(3), Err(ReplyError::UnexpectedCode(3)));
}

#[test]
fn init_retries_three_times() {
    assert_eq!(init_step(0, false), InitStep::Done);
    assert_eq!(init_step(0, true), InitStep::Retry(1));
    assert_eq!(init_step(2, true), InitStep::Retry(3));
    assert_eq!(init_step(3, true), InitStep::GiveUp(4));
}

#[test]
fn dead_orchestrator_ids() {
    let ids = vec![UUID.to_string(), "00000000-0000-0000-0000-000000000002".to_string()];
    assert_eq!(parse_orchestrator_ids(&ids), Ok(vec![uuid_value(), 2]));
    let bad = vec![UUID.to_string(), "nope".to_string()];
    assert_eq!(parse_orchestrator_ids(&bad), Err(1));
}

#[test]
fn add_script_arguments() {
    let url = WebUrl::parse("http://localhost:8080/").unwrap();
    let resources = vec![ServiceResource::Roomserver(RoomId(1))];
    let call = add_instance_call(
        &url,
        ServiceKind::Roomserver,
        &vec![orchestrator::ids::ApiKeyId::from_text("k1")],
        Metrics { load: 4, accepting_jobs: true },
        &resources,
        uuid_value(),
    );
    assert_eq!(call.service_id, LOCAL_ID);
    assert_eq!(call.instance_key, format!("ot-orchestrator:service:{LOCAL_ID}"));
    assert_eq!(call.kind_key, "ot-orchestrator:services:roomserver");
    assert_eq!(call.orchestrator_services_key, format!("ot-orchestrator:orchestrator:{UUID}:services"));
    assert_eq!(call.url, "http://localhost:8080/");
    assert_eq!(call.kind, "roomserver");
    assert_eq!(call.key_ids_json, "[\"k1\"]");
    assert_eq!(call.resource_values_json, "[\"roomserver:00000000-0000-0000-0000-000000000001\"]");
    assert_eq!(
        call.resource_keys_json,
        "[\"ot-orchestrator:resource:roomserver:00000000-0000-0000-0000-000000000001:owner\"]"
    );
    assert_eq!(call.load, 4);
}

#[test]
fn registration_resources_follow_the_type() {
    let register_type = RegisterType::Recorder(RegisterRecorder {
        rooms: vec![RecorderResource { room_id: RoomId(1), breakout_id: None }],
    });
    let (kind, resources) = registration_resources(&register_type);
    assert_eq!(kind, ServiceKind::Recorder);
    assert_eq!(resources, vec![ServiceResource::Recorder(RecorderResource { room_id: RoomId(1), breakout_id: None })]);
}

#[test]
fn instance_query_replies() {
    let id = ServiceId::try_from_text(LOCAL_ID).unwrap();
    let reply = InstanceQueryReply {
        api_key_ids: Some("[\"k\"]".to_string()),
        service_ids: vec![LOCAL_ID.to_string()],
        load: Some(9),
        accepting_jobs: Some(false),
    };
    let data = instance_from_reply(&id, &reply).ok().unwrap().unwrap();
    assert_eq!(data.metrics, Metrics { load: 9, accepting_jobs: false });
    let other = InstanceQueryReply {
        api_key_ids: Some("[\"k\"]".to_string()),
        service_ids: vec!["aHR0cDovL290aGVyLw==".to_string()],
        load: Some(9),
        accepting_jobs: Some(false),
    };
    assert!(instance_from_reply(&id, &other).ok().unwrap().is_none());
    let missing = InstanceQueryReply { api_key_ids: None, service_ids: vec![LOCAL_ID.to_string()], load: Some(1), accepting_jobs: Some(true) };
    assert!(instance_from_reply(&id, &missing).ok().unwrap().is_none());
    let bad = InstanceQueryReply { api_key_ids: None, service_ids: vec!["%%%".to_string()], load: None, accepting_jobs: None };
    assert!(matches!(instance_from_reply(&id, &bad), Err(ReplyError::ServiceId(ServiceIdError::InvalidBase64))));
}

#[test]
fn cleanup_keeps_the_cleaned_ids_in_order() {
    assert_eq!(cleaned_ids(&vec![], &vec![]), Ok(vec![]));
    assert_eq!(cleaned_ids(&vec![1, 2, 3, 4], &vec![0, 1, 2, 0]), Ok(vec![1, 4]));
    assert_eq!(cleaned_ids(&vec![1, 2, 3], &vec![0, 7, 9]), Err(ReplyError::UnexpectedCode(7)));
}
