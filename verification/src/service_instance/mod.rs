//! Service instances: their registration, selection and event handling.
use vstd::prelude::*;

pub mod registration;
pub mod runner;
pub mod selection;

verus! {
} // verus!
