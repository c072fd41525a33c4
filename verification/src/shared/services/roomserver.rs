//! Roomserver registration and events.
use vstd::prelude::*;

use crate::ids::RoomId;
use crate::shared::event::Event;

verus! {

/// The registration data of a roomserver: the rooms it runs.
pub struct RegisterRoomserver {
    pub rooms: Vec<RoomId>,
}

/// Events of a roomserver.
#[derive(Clone, Copy, Debug, PartialEq, Eq, Structural)]
pub enum RoomserverEvent {
    RemoveRoom(RoomId),
}

impl RoomserverEvent {
    /// This event as an [`Event`].
    pub fn into_event(self) -> (e: Event)
        ensures
            e == Event::Roomserver(self),
    {
        Event::Roomserver(self)
    }

    /// The roomserver event inside `event`; any other event is handed back.
    pub fn try_from_event(event: Event) -> (r: Result<RoomserverEvent, Event>)
        ensures
            match event {
                Event::Roomserver(e) => r == Ok::<RoomserverEvent, Event>(e),
                _ => r == Err::<RoomserverEvent, Event>(event),
            },
    {
        match event {
            Event::Roomserver(roomserver_event) => Ok(roomserver_event),
            event => Err(event),
        }
    }
}

} // verus!
