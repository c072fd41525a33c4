//! Service orchestration for video conferencing back ends: the registry of
//! service instances, the selection of an instance for a resource, and the
//! formats that are exchanged with services and the shared storage.
use vstd::prelude::*;

pub mod api;
pub mod cli;
pub mod client;
pub mod ids;
pub mod livekit;
pub mod recorder;
pub mod roomserver;
pub mod service_instance;
pub mod settings;
pub mod shared;
pub mod storage;
pub mod text;
pub mod transcription;
pub mod url_model;
pub mod websocket;

verus! {
} // verus!
