//! The registration handshake between a service and the orchestrator.
use vstd::prelude::*;

use crate::ids::ApiKeyId;
use crate::shared::error::RegistrationError;
use crate::shared::services::recorder::RegisterRecorder;
use crate::shared::services::roomserver::RegisterRoomserver;
use crate::shared::services::transcription::RegisterTranscription;
use crate::shared::{Metrics, ServiceKind};
use crate::url_model::WebUrl;

verus! {

/// The server response to the [`Register`] request.
#[derive(Clone, Copy, Debug, PartialEq, Eq, Structural)]
pub enum RegisterResponse {
    Success,
    Error(RegistrationError),
}

impl RegisterResponse {
    /// The response that reports `error`.
    pub fn from_error(error: RegistrationError) -> (r: RegisterResponse)
        ensures
            r == RegisterResponse::Error(error),
    {
        RegisterResponse::Error(error)
    }
}

/// Request to register at the orchestrator.
pub struct Register {
    pub register_data: RegisterData,
    /// The type of service
    pub register_type: RegisterType,
}

/// The data that every service registers with.
pub struct RegisterData {
    /// The address of the service
    pub service_address: ServiceAddress,
    /// A list of api key ids that authorize requests to the service
    pub api_key_ids: Vec<ApiKeyId>,
    /// The initial metrics
    pub metrics: Metrics,
}

/// The address a service can be reached on.
pub enum ServiceAddress {
    /// The service provided a full URL as its address
    Url(WebUrl),
    /// The service only provided a port, so the orchestrator uses the client's IP address
    /// (received on registration) and the provided port to build the URL
    Port(u16),
}

/// The kind-specific registration data.
pub enum RegisterType {
    Recorder(RegisterRecorder),
    Roomserver(RegisterRoomserver),
    Transcription(RegisterTranscription),
}

/// The kind of service a registration is for.
pub open spec fn register_kind(register_type: RegisterType) -> ServiceKind {
    match register_type {
        RegisterType::Recorder(_) => ServiceKind::Recorder,
        RegisterType::Roomserver(_) => ServiceKind::Roomserver,
        RegisterType::Transcription(_) => ServiceKind::Transcription,
    }
}

impl ServiceKind {
    /// The kind of service a registration is for.
    pub fn of_register_type(register_type: &RegisterType) -> (k: ServiceKind)
        ensures
            k == register_kind(*register_type),
    {
        match register_type {
            RegisterType::Recorder(_) => ServiceKind::Recorder,
            RegisterType::Roomserver(_) => ServiceKind::Roomserver,
            RegisterType::Transcription(_) => ServiceKind::Transcription,
        }
    }
}

} // verus!
