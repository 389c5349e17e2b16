//! Operating phases of the monitored hardware and the classifier that
//! recognizes phase-transition marker lines.

use vstd::prelude::*;

use crate::extract::str_eq;

verus! {

/// Lines per sample block while the payload is off.
pub const PAYLOAD_OFF_LINES: usize = 11;

/// Lines per sample block during pinpuller activation.
pub const DEPLOYMENT_LINES: usize = 13;

/// Lines per sample block during emission.
pub const EMISSION_LINES: usize = 33;

/// Lines of the opaque self-test preamble at the start of a log.
pub const SELF_TEST_LINES: usize = 221;

/// One of the three operating modes of the monitored hardware; each has its
/// own line-count schema.
#[derive(Clone, Copy, Debug, PartialEq, Eq, Structural)]
pub enum PayloadState {
    PayloadOff,
    Deployment,
    Emission,
}

/// The fixed number of lines a sample block occupies in the given phase.
pub open spec fn packet_len(st: PayloadState) -> usize {
    match st {
        PayloadState::PayloadOff => PAYLOAD_OFF_LINES,
        PayloadState::Deployment => DEPLOYMENT_LINES,
        PayloadState::Emission => EMISSION_LINES,
    }
}

/// The active phase together with its block length.
#[derive(Clone, Copy, Debug, PartialEq, Eq, Structural)]
pub struct Tvac {
    pub packet_size: usize,
    pub state: PayloadState,
}

/// A phase descriptor is well formed when its block length is the one its
/// phase prescribes.
pub open spec fn tvac_wf(t: Tvac) -> bool {
    t.packet_size == packet_len(t.state)
}

impl Tvac {
    /// The descriptor of a given phase.
    pub fn for_state(st: PayloadState) -> (r: Tvac)
        ensures
            r.state == st,
            tvac_wf(r),
    {
        match st {
            PayloadState::PayloadOff => Tvac {
                packet_size: PAYLOAD_OFF_LINES,
                state: PayloadState::PayloadOff,
            },
            PayloadState::Deployment => Tvac {
                packet_size: DEPLOYMENT_LINES,
                state: PayloadState::Deployment,
            },
            PayloadState::Emission => Tvac { packet_size: EMISSION_LINES, state: PayloadState::Emission },
        }
    }
}

/// The phase a marker line announces, if the line is exactly one of the three
/// literal markers; any other line announces no transition.
pub open spec fn marker_state(s: Seq<char>) -> Option<PayloadState> {
    if s == "ENTERING EMISSION PHASE"@ {
        Some(PayloadState::Emission)
    } else if s == "ENTERING PINPULLER ACTIVATION PHASE"@ {
        Some(PayloadState::Deployment)
    } else if s == "ENTERING PAYLOAD-OFF PHASE"@ {
        Some(PayloadState::PayloadOff)
    } else {
        None
    }
}

/// Recognizes a phase-transition marker line. The match is exact,
/// case-sensitive and whole-line; any other content announces no transition.
pub fn state_change(s: &str) -> (r: Option<Tvac>)
    ensures
        match marker_state(s@) {
            Some(st) => r matches Some(t) && t.state == st && tvac_wf(t),
            None => r is None,
        },
{
    if str_eq(s, "ENTERING EMISSION PHASE") {
        Some(Tvac { packet_size: EMISSION_LINES, state: PayloadState::Emission })
    } else if str_eq(s, "ENTERING PINPULLER ACTIVATION PHASE") {
        Some(Tvac { packet_size: DEPLOYMENT_LINES, state: PayloadState::Deployment })
    } else if str_eq(s, "ENTERING PAYLOAD-OFF PHASE") {
        Some(Tvac { packet_size: PAYLOAD_OFF_LINES, state: PayloadState::PayloadOff })
    } else {
        None
    }
}

} // verus!
