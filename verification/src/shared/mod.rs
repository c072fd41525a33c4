//! Types that the orchestrator shares with the services it orchestrates:
//! service kinds, metrics, registration messages and events.
use vstd::prelude::*;

use crate::ids::RoomId;
use crate::shared::services::recorder::RecorderResource;
use crate::shared::services::transcription::TranscriptionResource;
use crate::shared::services::ServiceState;
use crate::url_model::WebUrl;

pub mod error;
pub mod event;
pub mod register;
pub mod services;

verus! {

/// The kinds of services that register at the orchestrator.
#[derive(Clone, Copy, Debug, PartialEq, Eq, Hash, Structural)]
pub enum ServiceKind {
    Recorder,
    Roomserver,
    Transcription,
}

/// The name of a service kind, as `Display` writes it.
pub open spec fn kind_text(kind: ServiceKind) -> Seq<char> {
    match kind {
        ServiceKind::Recorder => "recorder"@,
        ServiceKind::Roomserver => "roomserver"@,
        ServiceKind::Transcription => "transcription"@,
    }
}

impl ServiceKind {
    /// The name of this kind.
    pub fn to_text(&self) -> (s: String)
        ensures
            s@ == kind_text(*self),
    {
        match self {
            ServiceKind::Recorder => "recorder".to_owned(),
            ServiceKind::Roomserver => "roomserver".to_owned(),
            ServiceKind::Transcription => "transcription".to_owned(),
        }
    }
}

/// The load metrics that a service reports.
#[derive(Clone, Copy, Debug, PartialEq, Eq, Hash, Structural)]
pub struct Metrics {
    pub load: u8,
    pub accepting_jobs: bool,
}

impl Default for Metrics {
    fn default() -> (m: Metrics)
        ensures
            m.load == 0,
            !m.accepting_jobs,
    {
        Metrics { load: 0, accepting_jobs: false }
    }
}

/// The registered instances of every service kind, with their state.
pub struct OrchestratorMetrics {
    pub roomservers: Vec<(WebUrl, ServiceState<RoomId>)>,
    pub recorders: Vec<(WebUrl, ServiceState<RecorderResource>)>,
    pub transcription: Vec<(WebUrl, ServiceState<TranscriptionResource>)>,
}

} // verus!
