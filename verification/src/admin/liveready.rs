//! The readiness decision of the admin surface.

use vstd::prelude::*;
use vstd::string::StringExecFns;

verus! {

/// Whether the process has finished its startup work.
#[derive(Debug, PartialEq, Eq, Structural, Clone, Copy)]
pub enum ReadinessState {
    /// Startup finished; the balancer serves requests.
    Ready,
    /// Still starting up.
    Setup,
}

/// The status code and body of a readiness reply: 200 "ready" once
/// setup has finished, 503 "starting up" before.
pub fn readiness_reply(state: &ReadinessState) -> (r: (u16, String))
    ensures
        *state == ReadinessState::Ready ==> r.0 == 200 && r.1@ == "ready"@,
        *state == ReadinessState::Setup ==> r.0 == 503 && r.1@ == "starting up"@,
{
    match state {
        ReadinessState::Ready => (200, String::from_str("ready")),
        ReadinessState::Setup => (503, String::from_str("starting up")),
    }
}

} // verus!
