//! Errors that services are told about.
use vstd::prelude::*;

verus! {

/// Errors that can occur during the service registration process.
#[derive(Clone, Copy, Debug, PartialEq, Eq, Hash, Structural)]
pub enum RegistrationError {
    /// The requested address is already in use
    AddressAlreadyInUse,
    /// The provided service address or port is invalid
    InvalidServiceAddress,
    /// One or more of the provided resources are managed by other instances already
    ResourceAlreadyExists,
    /// Unknown api key ids
    UnknownApiKeyIds,
    /// Failed to receive the registration message within the timeout
    Timeout,
    /// Expected text or binary format
    InvalidMessageType,
    /// Failed to parse the registration message
    InvalidJson,
    /// Internal error while attempting to register the service
    Internal,
}

/// Errors of events that services send to the orchestrator.
#[derive(Clone, Copy, Debug, PartialEq, Eq, Hash, Structural)]
pub enum EventError {
    /// The provided event does not match the service type
    EventTypeMismatch,
    /// Failed to parse the event message
    InvalidJson,
}

} // verus!
