//! Transcription registration, resources and events.
use vstd::prelude::*;

use crate::ids::RoomId;
use crate::shared::event::Event;
use crate::shared::services::{ResourceType, ServiceResource};
use crate::shared::ServiceKind;

verus! {

/// The registration data of a transcription service: the transcriptions it runs.
pub struct RegisterTranscription {
    pub rooms: Vec<TranscriptionResource>,
}

/// A transcription: a room, or a breakout room of it.
#[derive(Clone, Copy, Debug, PartialEq, Eq, Hash, Structural)]
pub struct TranscriptionResource {
    pub room_id: RoomId,
    pub breakout_id: Option<u32>,
}

/// Events of a transcription service.
#[derive(Clone, Copy, Debug, PartialEq, Eq, Structural)]
pub enum TranscriptionEvent {
    RemoveTranscription(TranscriptionResource),
}

impl TranscriptionEvent {
    /// This event as an [`Event`].
    pub fn into_event(self) -> (e: Event)
        ensures
            e == Event::Transcription(self),
    {
        Event::Transcription(self)
    }

    /// The transcription event inside `event`; any other event is handed back.
    pub fn try_from_event(event: Event) -> (r: Result<TranscriptionEvent, Event>)
        ensures
            match event {
                Event::Transcription(e) => r == Ok::<TranscriptionEvent, Event>(e),
                _ => r == Err::<TranscriptionEvent, Event>(event),
            },
    {
        match event {
            Event::Transcription(transcription_event) => Ok(transcription_event),
            event => Err(event),
        }
    }
}

impl ResourceType for TranscriptionResource {
    open spec fn spec_kind() -> ServiceKind {
        ServiceKind::Transcription
    }

    open spec fn spec_from_service_resource(resource: ServiceResource) -> Option<TranscriptionResource> {
        match resource {
            ServiceResource::Transcription(r) => Some(r),
            _ => None,
        }
    }

    open spec fn spec_into_service_resource(self) -> ServiceResource {
        ServiceResource::Transcription(self)
    }

    fn kind() -> (k: ServiceKind) {
        ServiceKind::Transcription
    }

    fn from_service_resource(resource: ServiceResource) -> (r: Option<TranscriptionResource>) {
        match resource {
            ServiceResource::Transcription(r) => Some(r),
            _ => None,
        }
    }

    fn into_service_resource(self) -> (r: ServiceResource) {
        ServiceResource::Transcription(self)
    }

    fn same(&self, other: &TranscriptionResource) -> (b: bool) {
        self.room_id.0 == other.room_id.0 && match (self.breakout_id, other.breakout_id) {
            (Some(a), Some(b)) => a == b,
            (None, None) => true,
            _ => false,
        }
    }
}

} // verus!
