//! Settings of the orchestrator's HTTP server.
use vstd::prelude::*;

verus! {

/// The port the HTTP server listens on unless another is configured.
pub fn default_port() -> (p: u16)
    ensures
        p == 11222,
{
    11222
}

} // verus!
