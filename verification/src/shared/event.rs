//! Events that services send to the orchestrator.
use vstd::prelude::*;

use crate::shared::services::recorder::RecorderEvent;
use crate::shared::services::roomserver::RoomserverEvent;
use crate::shared::services::transcription::TranscriptionEvent;
use crate::shared::Metrics;

verus! {

/// A message from a service to the orchestrator.
#[derive(Clone, Copy, Debug, PartialEq, Eq, Structural)]
pub enum Event {
    Metrics(Metrics),
    Recorder(RecorderEvent),
    Roomserver(RoomserverEvent),
    Transcription(TranscriptionEvent),
}

impl Event {
    /// A metrics event.
    pub fn from_metrics(metrics: Metrics) -> (e: Event)
        ensures
            e == Event::Metrics(metrics),
    {
        Event::Metrics(metrics)
    }
}

} // verus!
