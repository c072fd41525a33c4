//! Storage of the registered service instances.
use vstd::prelude::*;

use crate::shared::error::RegistrationError;
use crate::shared::ServiceKind;

pub mod laws;
pub mod local;
pub mod redis;
pub mod table;
pub mod tokens;

verus! {

/// Why an instance could not be added.
#[derive(Clone, Debug, PartialEq, Eq)]
pub enum AddInstanceError {
    /// The registration was refused; the service is told why
    RegistrationError(RegistrationError),
    /// The storage failed
    Internal(String),
}

/// Failures of storage operations.
#[derive(Clone, Debug, PartialEq, Eq)]
pub enum StorageError {
    /// No instance of this kind is registered under the address
    UnknownService(ServiceKind),
    /// No instance of the resource's kind can take the resource
    NoInstanceAvailable,
    /// The storage back end failed, or handed back data it should not hold
    Backend(String),
}

} // verus!
