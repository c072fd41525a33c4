use orchestrator::ids::{ApiKeyId, RoomId};
use orchestrator::service_instance::registration::ServiceRegistration;
use orchestrator::shared::error::RegistrationError;
use orchestrator::shared::register::RegisterType;
use orchestrator::shared::services::recorder::{RecorderResource, RegisterRecorder};
use orchestrator::shared::services::roomserver::RegisterRoomserver;
use orchestrator::shared::services::transcription::{RegisterTranscription, TranscriptionResource};
use orchestrator::shared::services::ServiceResource;
use orchestrator::shared::{Metrics, ServiceKind};
use orchestrator::storage::local::LocalStorage;
use orchestrator::storage::{AddInstanceError, StorageError};
use orchestrator::url_model::WebUrl;

const ROOM_ZERO: RoomId = RoomId(0);
const ROOM_ONE: RoomId = RoomId(1);

fn url(text: &str) -> WebUrl {
    WebUrl::parse(text).unwrap()
}

fn key_ids() -> Vec<ApiKeyId> {
    vec![ApiKeyId::from_text("key1"), ApiKeyId::from_text("key2")]
}

fn kind_of(register_type: &RegisterType) -> ServiceKind {
    ServiceKind::of_register_type(register_type)
}

/// Adds an instance with the given type, load 5, accepting jobs and the
/// key ids `key1` and `key2`, and reads its data back.
fn add_instance(storage: &mut LocalStorage, url: &WebUrl, register_type: RegisterType) -> Result<(), AddInstanceError> {
    let kind = kind_of(&register_type);
    let metrics = Metrics { load: 5, accepting_jobs: true };
    let registration = ServiceRegistration {
        address: url.duplicate(),
        register_type,
        api_key_ids: key_ids(),
        metrics,
    };

    storage.add_instance(registration)?;

    let instance_data = storage.get_instance(url, kind).unwrap();

    assert_eq!(instance_data.metrics, metrics);
    assert_eq!(instance_data.api_key_ids, key_ids());

    Ok(())
}

fn add_roomserver(storage: &mut LocalStorage, url_text: &str) {
    let url = url(url_text);
    let register_type = RegisterType::Roomserver(RegisterRoomserver { rooms: vec![ROOM_ZERO, ROOM_ONE] });

    add_instance(storage, &url, register_type).unwrap();

    let Some((instance_url, _instance_data)) =
        storage.get_instances_for_resource(&ServiceResource::Roomserver(ROOM_ZERO))
    else {
        panic!("expected resource to exist")
    };

    assert_eq!(instance_url.as_str(), url.as_str())
}

fn add_recorder(storage: &mut LocalStorage, url_text: &str) {
    let url = url(url_text);
    let resource_0 = RecorderResource { room_id: ROOM_ZERO, breakout_id: None };
    let resource_1 = RecorderResource { room_id: ROOM_ONE, breakout_id: Some(1) };
    let register_type = RegisterType::Recorder(RegisterRecorder { rooms: vec![resource_0, resource_1] });

    add_instance(storage, &url, register_type).unwrap();

    let Some((instance_url, _instance_data)) =
        storage.get_instances_for_resource(&ServiceResource::Recorder(resource_0))
    else {
        panic!("expected resource to exist")
    };

    assert_eq!(instance_url.as_str(), url.as_str())
}

fn add_transcription(storage: &mut LocalStorage, url_text: &str) {
    let url = url(url_text);
    let resource_0 = TranscriptionResource { room_id: ROOM_ZERO, breakout_id: None };
    let register_type = RegisterType::Transcription(RegisterTranscription {
        rooms: vec![resource_0, TranscriptionResource { room_id: ROOM_ONE, breakout_id: None }],
    });

    add_instance(storage, &url, register_type).unwrap();

    let Some((instance_url, _instance_data)) =
        storage.get_instances_for_resource(&ServiceResource::Transcription(resource_0))
    else {
        panic!("expected resource to exist")
    };

    assert_eq!(instance_url.as_str(), url.as_str())
}

fn set_metrics_of(storage: &mut LocalStorage, url: &WebUrl, metrics: Metrics) {
    storage.set_service_metrics(url, ServiceKind::Roomserver, metrics).unwrap();
}

#[test]
fn add_roomserver_instance() {
    let mut storage = LocalStorage::new();
    add_roomserver(&mut storage, "http://localhost:8080");
}

#[test]
fn add_recorder_instance() {
    let mut storage = LocalStorage::new();
    add_recorder(&mut storage, "http://localhost:8080");
}

#[test]
fn add_transcription_instance() {
    let mut storage = LocalStorage::new();
    add_transcription(&mut storage, "http://localhost:8080");
}

#[test]
fn add_multiple_services() {
    let mut storage = LocalStorage::new();
    add_roomserver(&mut storage, "http://localhost:8080/roomserver/");
    add_recorder(&mut storage, "http://localhost:8080/recorder/");
    add_transcription(&mut storage, "http://localhost:8080/transcription/");
}

#[test]
fn get_unknown_instance() {
    let storage = LocalStorage::new();
    let url = url("http://localhost:8080/unknown/");

    let instance_data = storage.get_instance(&url, ServiceKind::Roomserver);

    assert!(instance_data.is_none());
}

#[test]
fn get_wrong_instance_kind() {
    let mut storage = LocalStorage::new();
    let url_text = "http://localhost:8080/recorder/";
    add_recorder(&mut storage, url_text);

    let instance_data = storage.get_instance(&url(url_text), ServiceKind::Roomserver);

    assert!(instance_data.is_none());
}

#[test]
fn duplicate_url() {
    let mut storage = LocalStorage::new();
    let url_text = "http://localhost:8080";
    add_roomserver(&mut storage, url_text);

    let register_type = RegisterType::Roomserver(RegisterRoomserver { rooms: vec![] });
    let err = add_instance(&mut storage, &url(url_text), register_type).unwrap_err();

    assert!(matches!(err, AddInstanceError::RegistrationError(RegistrationError::AddressAlreadyInUse)));
}

#[test]
fn duplicate_resource() {
    let mut storage = LocalStorage::new();
    add_roomserver(&mut storage, "http://localhost:8080/roomserver1/");

    // roomserver two attempts to register with the same resource as roomserver one
    let register_type = RegisterType::Roomserver(RegisterRoomserver { rooms: vec![RoomId::from_u128(42), ROOM_ONE] });
    let err = add_instance(&mut storage, &url("http://localhost:8080/roomserver2/"), register_type).unwrap_err();

    assert!(matches!(err, AddInstanceError::RegistrationError(RegistrationError::ResourceAlreadyExists)));

    // only the two resources of the first roomserver instance exist
    let resources = storage.get_all_resources();
    assert_eq!(resources.len(), 2);
}

#[test]
fn remove_service() {
    let mut storage = LocalStorage::new();
    let url_text = "http://localhost:8080";
    add_roomserver(&mut storage, url_text);

    storage.remove_instance(&url(url_text), ServiceKind::Roomserver);

    assert!(storage.get_all_resources().is_empty());
    assert!(storage.get_all_services().is_empty());
}

#[test]
fn set_metrics() {
    let mut storage = LocalStorage::new();
    let url_text = "http://localhost:8080";
    let metrics = Metrics { load: 67, accepting_jobs: true };
    add_roomserver(&mut storage, url_text);

    let url = url(url_text);
    set_metrics_of(&mut storage, &url, metrics);

    let instance_data = storage.get_instance(&url, ServiceKind::Roomserver).unwrap();
    assert_eq!(instance_data.metrics, metrics);
}

#[test]
fn select_instance() {
    let mut storage = LocalStorage::new();
    let url = url("http://localhost:8080/roomserver");
    let metrics = Metrics { load: 5, accepting_jobs: true };
    let registration = ServiceRegistration {
        address: url.duplicate(),
        register_type: RegisterType::Roomserver(RegisterRoomserver { rooms: vec![] }),
        api_key_ids: key_ids(),
        metrics,
    };
    storage.add_instance(registration).unwrap();

    let (selected_url, instance_data) =
        storage.select_instance_for_resource(ServiceResource::Roomserver(RoomId::from_u128(123))).ok().unwrap();

    assert_eq!(url.as_str(), selected_url.as_str());
    assert_eq!(key_ids(), instance_data.api_key_ids);
    assert_eq!(metrics, instance_data.metrics);
}

#[test]
fn select_lowest_load_instance() {
    let mut storage = LocalStorage::new();
    let url_one = url("http://localhost:8080/roomserver1/");
    let url_two = url("http://localhost:8080/roomserver2/");

    add_instance(&mut storage, &url_one, RegisterType::Roomserver(RegisterRoomserver { rooms: vec![] })).unwrap();
    add_instance(&mut storage, &url_two, RegisterType::Roomserver(RegisterRoomserver { rooms: vec![] })).unwrap();

    let metrics_one = Metrics { load: 10, accepting_jobs: true };
    let metrics_two = Metrics { load: 5, accepting_jobs: true };
    set_metrics_of(&mut storage, &url_one, metrics_one);
    set_metrics_of(&mut storage, &url_two, metrics_two);

    let (selected_url, instance_data) =
        storage.select_instance_for_resource(ServiceResource::Roomserver(RoomId::from_u128(123))).ok().unwrap();

    assert_eq!(selected_url.as_str(), url_two.as_str());
    assert_eq!(instance_data.metrics, metrics_two)
}

#[test]
fn select_instance_resource_count_tiebreak() {
    let mut storage = LocalStorage::new();
    let url_one = url("http://localhost:8080/roomserver1/");
    let url_two = url("http://localhost:8080/roomserver2/");
    let url_three = url("http://localhost:8080/roomserver3/");

    // all roomservers have the same load, so the one with the least resources is selected
    let metrics = Metrics { load: 5, accepting_jobs: true };

    add_instance(&mut storage, &url_one, RegisterType::Roomserver(RegisterRoomserver { rooms: vec![ROOM_ZERO] })).unwrap();
    set_metrics_of(&mut storage, &url_one, metrics);

    add_instance(&mut storage, &url_two, RegisterType::Roomserver(RegisterRoomserver { rooms: vec![ROOM_ONE] })).unwrap();
    set_metrics_of(&mut storage, &url_two, metrics);

    add_instance(&mut storage, &url_three, RegisterType::Roomserver(RegisterRoomserver { rooms: vec![] })).unwrap();
    set_metrics_of(&mut storage, &url_three, metrics);

    let (selected_url, instance_data) =
        storage.select_instance_for_resource(ServiceResource::Roomserver(RoomId::from_u128(123))).ok().unwrap();

    assert_eq!(selected_url.as_str(), url_three.as_str());
    assert_eq!(instance_data.metrics, metrics)
}

#[test]
fn lowest_load_not_accepting_jobs() {
    let mut storage = LocalStorage::new();
    let url_one = url("http://localhost:8080/roomserver1/");
    let url_two = url("http://localhost:8080/roomserver2/");

    add_instance(&mut storage, &url_one, RegisterType::Roomserver(RegisterRoomserver { rooms: vec![] })).unwrap();
    add_instance(&mut storage, &url_two, RegisterType::Roomserver(RegisterRoomserver { rooms: vec![] })).unwrap();

    let metrics_one = Metrics { load: 10, accepting_jobs: true };
    // this instance does not accept jobs, so it is not selected
    let metrics_two = Metrics { load: 5, accepting_jobs: false };
    set_metrics_of(&mut storage, &url_one, metrics_one);
    set_metrics_of(&mut storage, &url_two, metrics_two);

    let (selected_url, instance_data) =
        storage.select_instance_for_resource(ServiceResource::Roomserver(RoomId::from_u128(123))).ok().unwrap();

    assert_eq!(selected_url.as_str(), url_one.as_str());
    assert_eq!(instance_data.metrics, metrics_one)
}

#[test]
fn selection_sticks_to_the_instance_that_got_the_resource() {
    let mut storage = LocalStorage::new();
    let url_one = url("http://localhost:8080/roomserver1/");
    let url_two = url("http://localhost:8080/roomserver2/");
    add_instance(&mut storage, &url_one, RegisterType::Roomserver(RegisterRoomserver { rooms: vec![] })).unwrap();
    add_instance(&mut storage, &url_two, RegisterType::Roomserver(RegisterRoomserver { rooms: vec![] })).unwrap();

    let room = ServiceResource::Roomserver(RoomId::from_u128(7));
    let (first, _) = storage.select_instance_for_resource(room).ok().unwrap();
    // the chosen instance gets busier; the room still goes to it
    set_metrics_of(&mut storage, &first, Metrics { load: 90, accepting_jobs: true });
    let (second, _) = storage.select_instance_for_resource(room).ok().unwrap();
    assert_eq!(first.as_str(), second.as_str());

    let (owner, _) = storage.get_instances_for_resource(&room).unwrap();
    assert_eq!(owner.as_str(), first.as_str());
}

#[test]
fn selection_takes_the_lowest_load_above_one_hundred() {
    let mut storage = LocalStorage::new();
    let url_one = url("http://localhost:8080/roomserver1/");
    let url_two = url("http://localhost:8080/roomserver2/");
    add_instance(&mut storage, &url_one, RegisterType::Roomserver(RegisterRoomserver { rooms: vec![] })).unwrap();
    add_instance(&mut storage, &url_two, RegisterType::Roomserver(RegisterRoomserver { rooms: vec![] })).unwrap();
    set_metrics_of(&mut storage, &url_one, Metrics { load: 200, accepting_jobs: true });
    set_metrics_of(&mut storage, &url_two, Metrics { load: 150, accepting_jobs: true });

    let (chosen, data) = storage.select_instance_for_resource(ServiceResource::Roomserver(RoomId::from_u128(9))).ok().unwrap();
    assert_eq!(chosen.as_str(), url_two.as_str());
    assert_eq!(data.metrics.load, 150);
}

#[test]
fn selection_fails_when_no_instance_accepts_jobs() {
    let mut storage = LocalStorage::new();
    let url_one = url("http://localhost:8080/roomserver1/");
    add_instance(&mut storage, &url_one, RegisterType::Roomserver(RegisterRoomserver { rooms: vec![] })).unwrap();
    set_metrics_of(&mut storage, &url_one, Metrics { load: 0, accepting_jobs: false });

    let r = storage.select_instance_for_resource(ServiceResource::Roomserver(RoomId::from_u128(9)));
    assert!(matches!(r, Err(StorageError::NoInstanceAvailable)));
}

#[test]
fn resource_given_up_is_free_again() {
    let mut storage = LocalStorage::new();
    let url_text = "http://localhost:8080/roomserver/";
    add_roomserver(&mut storage, url_text);

    storage.remove_service_resource(&url(url_text), ServiceResource::Roomserver(ROOM_ZERO));

    assert!(storage.get_instances_for_resource(&ServiceResource::Roomserver(ROOM_ZERO)).is_none());
    assert!(storage.get_instances_for_resource(&ServiceResource::Roomserver(ROOM_ONE)).is_some());
}

#[test]
fn metrics_of_unknown_service_are_refused() {
    let mut storage = LocalStorage::new();
    let r = storage.set_service_metrics(&url("http://localhost:1/"), ServiceKind::Recorder, Metrics::default());
    assert!(matches!(r, Err(StorageError::UnknownService(ServiceKind::Recorder))));
}

#[test]
fn listed_resources_and_services_are_texts() {
    let mut storage = LocalStorage::new();
    add_roomserver(&mut storage, "http://localhost:8080/roomserver/");
    assert_eq!(
        storage.get_all_resources(),
        vec![
            "roomserver:00000000-0000-0000-0000-000000000000".to_string(),
            "roomserver:00000000-0000-0000-0000-000000000001".to_string(),
        ]
    );
    assert_eq!(storage.get_all_services(), vec!["http://localhost:8080/roomserver/".to_string()]);
    assert!(!storage.is_empty());
    let metrics = storage.get_orchestrator_metrics();
    assert_eq!(metrics.roomservers.len(), 1);
    assert!(metrics.recorders.is_empty());
}

#[test]
fn removed_instance_registers_again() {
    let mut storage = LocalStorage::new();
    let url_text = "http://localhost:8080/roomserver/";
    add_roomserver(&mut storage, url_text);

    storage.remove_instance(&url(url_text), ServiceKind::Roomserver);
    add_roomserver(&mut storage, url_text);

    assert_eq!(storage.get_all_services(), vec![url_text.to_string()]);
    assert_eq!(storage.get_all_resources().len(), 2);
}
