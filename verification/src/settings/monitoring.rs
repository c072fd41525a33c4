//! Settings of the readiness, startup and liveness probe.
use vstd::prelude::*;

verus! {

/// The port the probe listens on unless another is configured.
pub fn default_port() -> (p: u16)
    ensures
        p == 11221,
{
    11221
}

} // verus!
