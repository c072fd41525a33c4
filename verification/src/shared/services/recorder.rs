//! Recorder registration, resources and events.
use vstd::prelude::*;

use crate::ids::RoomId;
use crate::shared::event::Event;
use crate::shared::services::{ResourceType, ServiceResource};
use crate::shared::ServiceKind;

verus! {

/// The registration data of a recorder: the recordings it runs.
pub struct RegisterRecorder {
    pub rooms: Vec<RecorderResource>,
}

/// A recording: a room, or a breakout room of it.
#[derive(Clone, Copy, Debug, PartialEq, Eq, Hash, Structural)]
pub struct RecorderResource {
    pub room_id: RoomId,
    pub breakout_id: Option<u32>,
}

/// Events of a recorder.
#[derive(Clone, Copy, Debug, PartialEq, Eq, Structural)]
pub enum RecorderEvent {
    RemoveRecording(RecorderResource),
}

impl RecorderEvent {
    /// This event as an [`Event`].
    pub fn into_event(self) -> (e: Event)
        ensures
            e == Event::Recorder(self),
    {
        Event::Recorder(self)
    }

    /// The recorder event inside `event`; any other event is handed back.
    pub fn try_from_event(event: Event) -> (r: Result<RecorderEvent, Event>)
        ensures
            match event {
                Event::Recorder(e) => r == Ok::<RecorderEvent, Event>(e),
                _ => r == Err::<RecorderEvent, Event>(event),
            },
    {
        match event {
            Event::Recorder(recorder_event) => Ok(recorder_event),
            event => Err(event),
        }
    }
}

impl ResourceType for RecorderResource {
    open spec fn spec_kind() -> ServiceKind {
        ServiceKind::Recorder
    }

    open spec fn spec_from_service_resource(resource: ServiceResource) -> Option<RecorderResource> {
        match resource {
            ServiceResource::Recorder(r) => Some(r),
            _ => None,
        }
    }

    open spec fn spec_into_service_resource(self) -> ServiceResource {
        ServiceResource::Recorder(self)
    }

    fn kind() -> (k: ServiceKind) {
        ServiceKind::Recorder
    }

    fn from_service_resource(resource: ServiceResource) -> (r: Option<RecorderResource>) {
        match resource {
            ServiceResource::Recorder(r) => Some(r),
            _ => None,
        }
    }

    fn into_service_resource(self) -> (r: ServiceResource) {
        ServiceResource::Recorder(self)
    }

    fn same(&self, other: &RecorderResource) -> (b: bool) {
        self.room_id.0 == other.room_id.0 && match (self.breakout_id, other.breakout_id) {
            (Some(a), Some(b)) => a == b,
            (None, None) => true,
            _ => false,
        }
    }
}

} // verus!
