//! The handling of the messages of a registered instance.
use vstd::prelude::*;

use crate::shared::event::Event;
use crate::shared::services::recorder::RecorderEvent;
use crate::shared::services::roomserver::RoomserverEvent;
use crate::shared::services::transcription::TranscriptionEvent;
use crate::shared::services::ServiceResource;
use crate::shared::{Metrics, ServiceKind};
use crate::storage::local::{remove_resource_effect, set_metrics_effect, LocalStorage};
use crate::storage::laws::{law_set_metrics_then_get, law_storage_remove_resource_then_lookup, owner_after_giving_up};
use crate::storage::table::{table_get, table_lookup};
use crate::storage::StorageError;
use crate::ids::RoomId;
use crate::shared::services::recorder::RecorderResource;
use crate::shared::services::transcription::TranscriptionResource;
use crate::url_model::WebUrl;
use crate::websocket::AcceptedMessage;

verus! {

/// What a message of an instance asks of its runner.
pub enum RunnerInput {
    /// The instance closed the connection
    Closed,
    /// An event to parse, in these bytes
    Event(Vec<u8>),
    /// Nothing: pings and pongs
    Ignore,
}

/// Classifies a message of an instance: a close ends the connection, text
/// and binary messages carry events, anything else is ignored.
pub fn runner_input(message: AcceptedMessage) -> (r: RunnerInput)
    ensures
        match message {
            AcceptedMessage::Close(_) => r is Closed,
            AcceptedMessage::Text(t) => r matches RunnerInput::Event(b) && b@ == vstd::utf8::encode_utf8(t@),
            AcceptedMessage::Binary(b) => r matches RunnerInput::Event(c) && c@ == b@,
            _ => r is Ignore,
        },
{
    match message {
        AcceptedMessage::Close(_) => RunnerInput::Closed,
        AcceptedMessage::Text(text) => RunnerInput::Event(text.as_str().as_bytes_vec()),
        AcceptedMessage::Binary(bytes) => RunnerInput::Event(bytes),
        _ => RunnerInput::Ignore,
    }
}

/// What an event asks of the storage.
#[derive(Clone, Copy, Debug, PartialEq, Eq, Structural)]
pub enum StorageAction {
    /// Set the metrics of the instance
    SetMetrics(Metrics),
    /// The instance no longer manages the resource
    RemoveResource(ServiceResource),
}

/// The storage action of an event.
pub open spec fn event_action(event: Event) -> StorageAction {
    match event {
        Event::Metrics(m) => StorageAction::SetMetrics(m),
        Event::Recorder(RecorderEvent::RemoveRecording(r)) => StorageAction::RemoveResource(ServiceResource::Recorder(r)),
        Event::Roomserver(RoomserverEvent::RemoveRoom(r)) => StorageAction::RemoveResource(ServiceResource::Roomserver(r)),
        Event::Transcription(TranscriptionEvent::RemoveTranscription(r)) => StorageAction::RemoveResource(
            ServiceResource::Transcription(r),
        ),
    }
}

/// What an event of an instance asks of the storage: metrics are stored,
/// and a removed recording, room or transcription is no longer managed by
/// the instance.
pub fn service_event_action(event: Event) -> (a: StorageAction)
    ensures
        a == event_action(event),
{
    match event {
        Event::Metrics(metrics) => StorageAction::SetMetrics(metrics),
        Event::Recorder(RecorderEvent::RemoveRecording(resource)) => StorageAction::RemoveResource(
            ServiceResource::Recorder(resource),
        ),
        Event::Roomserver(RoomserverEvent::RemoveRoom(room_id)) => StorageAction::RemoveResource(
            ServiceResource::Roomserver(room_id),
        ),
        Event::Transcription(TranscriptionEvent::RemoveTranscription(resource)) => StorageAction::RemoveResource(
            ServiceResource::Transcription(resource),
        ),
    }
}

/// The effect of an event of the instance of `kind` under address `a`: the
/// storage action of the event, done as the storage says.
pub open spec fn service_event_effect(
    before: LocalStorage,
    a: Seq<char>,
    kind: ServiceKind,
    event: Event,
    after: LocalStorage,
    r: Result<(), StorageError>,
) -> bool {
    match event_action(event) {
        StorageAction::SetMetrics(m) => set_metrics_effect(before, a, kind, m, after, r),
        StorageAction::RemoveResource(res) => r is Ok && remove_resource_effect(before, a, res, after),
    }
}

/// Handles an event of the instance of `kind` under `url` on the local
/// storage.
pub fn handle_service_event(storage: &mut LocalStorage, url: &WebUrl, kind: ServiceKind, event: Event) -> (r: Result<(), StorageError>)
    requires
        old(storage).wf(),
    ensures
        final(storage).wf(),
        service_event_effect(*old(storage), url@.serialization, kind, event, *final(storage), r),
{
    match service_event_action(event) {
        StorageAction::SetMetrics(metrics) => storage.set_service_metrics(url, kind, metrics),
        StorageAction::RemoveResource(resource) => {
            storage.remove_service_resource(url, resource);
            Ok(())
        },
    }
}

/// A removal event frees its own resource: after a recording, room or
/// transcription removal of the instance under `a`, that very resource, in
/// the table of the event's kind, is no longer managed by that instance;
/// every other resource of that kind keeps its instance, and the tables of
/// the other kinds are untouched. A metrics event leaves the resources
/// where they are, and the instance under `a` then reports those metrics.
pub proof fn law_event_applies_to_its_own_resource(
    before: LocalStorage,
    a: Seq<char>,
    kind: ServiceKind,
    event: Event,
    after: LocalStorage,
    r: Result<(), StorageError>,
)
    requires
        before.wf(),
        service_event_effect(before, a, kind, event, after, r),
    ensures
        match event {
            Event::Recorder(RecorderEvent::RemoveRecording(x)) => {
                &&& r is Ok
                &&& table_lookup(after.recorders(), x) == owner_after_giving_up(table_lookup(before.recorders(), x), a)
                &&& forall|y: RecorderResource| y != x ==> #[trigger] table_lookup(after.recorders(), y) == table_lookup(before.recorders(), y)
                &&& after.roomservers() == before.roomservers()
                &&& after.transcriptions() == before.transcriptions()
            },
            Event::Roomserver(RoomserverEvent::RemoveRoom(x)) => {
                &&& r is Ok
                &&& table_lookup(after.roomservers(), x) == owner_after_giving_up(table_lookup(before.roomservers(), x), a)
                &&& forall|y: RoomId| y != x ==> #[trigger] table_lookup(after.roomservers(), y) == table_lookup(before.roomservers(), y)
                &&& after.recorders() == before.recorders()
                &&& after.transcriptions() == before.transcriptions()
            },
            Event::Transcription(TranscriptionEvent::RemoveTranscription(x)) => {
                &&& r is Ok
                &&& table_lookup(after.transcriptions(), x) == owner_after_giving_up(table_lookup(before.transcriptions(), x), a)
                &&& forall|y: TranscriptionResource| y != x ==> #[trigger] table_lookup(after.transcriptions(), y)
                    == table_lookup(before.transcriptions(), y)
                &&& after.recorders() == before.recorders()
                &&& after.roomservers() == before.roomservers()
            },
            Event::Metrics(m) => r is Ok ==> match kind {
                ServiceKind::Recorder => table_get(after.recorders(), a) matches Some(d) && d.metrics == m,
                ServiceKind::Roomserver => table_get(after.roomservers(), a) matches Some(d) && d.metrics == m,
                ServiceKind::Transcription => table_get(after.transcriptions(), a) matches Some(d) && d.metrics == m,
            },
        },
{
    before.lemma_wf_tables();
    match event {
        Event::Recorder(RecorderEvent::RemoveRecording(x)) => {
            law_storage_remove_resource_then_lookup(before, a, ServiceResource::Recorder(x), after);
        },
        Event::Roomserver(RoomserverEvent::RemoveRoom(x)) => {
            law_storage_remove_resource_then_lookup(before, a, ServiceResource::Roomserver(x), after);
        },
        Event::Transcription(TranscriptionEvent::RemoveTranscription(x)) => {
            law_storage_remove_resource_then_lookup(before, a, ServiceResource::Transcription(x), after);
        },
        Event::Metrics(m) => {
            match kind {
                ServiceKind::Recorder => law_set_metrics_then_get(before.recorders(), a, m),
                ServiceKind::Roomserver => law_set_metrics_then_get(before.roomservers(), a, m),
                ServiceKind::Transcription => law_set_metrics_then_get(before.transcriptions(), a, m),
            }
        },
    }
}

} // verus!
