//! The probing cycle.

use vstd::prelude::*;

use crate::bbr2::network_model::DEFAULT_MSS;
use crate::bbr2::params::Params;
use crate::dyadic::Dyadic;
use crate::time::{Duration, Instant};

verus! {

/// The phases of a probing cycle, in the order in which they follow.
#[derive(Clone, Copy, Debug, PartialEq, Eq, Structural)]
pub enum CyclePhase {
    NotStarted,
    Down,
    Cruise,
    Refill,
    Up,
}

impl CyclePhase {
    pub open spec fn spec_pacing_gain(self, params: Params) -> Dyadic {
        match self {
            CyclePhase::Up => params.probe_bw_probe_up_pacing_gain,
            CyclePhase::Down => params.probe_bw_probe_down_pacing_gain,
            _ => params.probe_bw_default_pacing_gain,
        }
    }

    pub open spec fn spec_cwnd_gain(self, params: Params) -> Dyadic {
        match self {
            CyclePhase::Up => params.probe_bw_up_cwnd_gain,
            _ => params.probe_bw_cwnd_gain,
        }
    }

    /// The pacing gain of the phase.
    pub fn pacing_gain(self, params: &Params) -> (gain: Dyadic)
        ensures
            gain == self.spec_pacing_gain(*params),
    {
        match self {
            CyclePhase::Up => params.probe_bw_probe_up_pacing_gain,
            CyclePhase::Down => params.probe_bw_probe_down_pacing_gain,
            _ => params.probe_bw_default_pacing_gain,
        }
    }

    /// The congestion-window gain of the phase.
    pub fn cwnd_gain(self, params: &Params) -> (gain: Dyadic)
        ensures
            gain == self.spec_cwnd_gain(*params),
    {
        match self {
            CyclePhase::Up => params.probe_bw_up_cwnd_gain,
            _ => params.probe_bw_cwnd_gain,
        }
    }
}

/// Where a probing cycle stands.
#[derive(Clone, Copy, Debug)]
pub struct Cycle {
    pub start_time: Instant,
    pub phase: CyclePhase,
    pub rounds_in_phase: usize,
    pub phase_start_time: Instant,
    pub rounds_since_probe: usize,
    /// How long to wait before the next probe.
    pub probe_wait_time: Option<Duration>,
    /// The rounds of growth in PROBE_UP, which set its slope.
    pub probe_up_rounds: usize,
    /// The acknowledged bytes for which the upper bound grows by a packet.
    pub probe_up_bytes: Option<usize>,
    /// The acknowledged bytes not yet turned into growth.
    pub probe_up_acked: usize,
    pub probe_up_app_limited_since_inflight_hi_limited: bool,
    /// Whether the samples that arrive are of packets sent while probing.
    pub is_sample_from_probing: bool,
    pub last_cycle_probed_too_high: bool,
    pub last_cycle_stopped_risky_probe: bool,
    pub has_advanced_max_bw: bool,
}

impl Cycle {
    /// The slope of PROBE_UP is within its bounds, and there is a wait for the
    /// next probe in the phases that wait for it.
    pub open spec fn wf(self) -> bool {
        &&& self.probe_up_rounds <= 30
        &&& self.probe_up_bytes is Some ==> self.probe_up_bytes->0 >= DEFAULT_MSS
        &&& (self.phase == CyclePhase::Down || self.phase == CyclePhase::Cruise)
            ==> self.probe_wait_time is Some
    }

    /// A cycle that has not started.
    pub fn new(now: Instant) -> (cycle: Cycle)
        ensures
            cycle.wf(),
            cycle == (Cycle {
                start_time: now,
                phase: CyclePhase::NotStarted,
                rounds_in_phase: 0,
                phase_start_time: now,
                rounds_since_probe: 0,
                probe_wait_time: None,
                probe_up_rounds: 0,
                probe_up_bytes: None,
                probe_up_acked: 0,
                probe_up_app_limited_since_inflight_hi_limited: false,
                is_sample_from_probing: false,
                last_cycle_probed_too_high: false,
                last_cycle_stopped_risky_probe: false,
                has_advanced_max_bw: false,
            }),
    {
        Cycle {
            start_time: now,
            phase: CyclePhase::NotStarted,
            rounds_in_phase: 0,
            phase_start_time: now,
            rounds_since_probe: 0,
            probe_wait_time: None,
            probe_up_rounds: 0,
            probe_up_bytes: None,
            probe_up_acked: 0,
            probe_up_app_limited_since_inflight_hi_limited: false,
            is_sample_from_probing: false,
            last_cycle_probed_too_high: false,
            last_cycle_stopped_risky_probe: false,
            has_advanced_max_bw: false,
        }
    }
}

} // verus!
