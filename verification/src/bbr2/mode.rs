//! The modes between which the sender moves.

use vstd::prelude::*;

use crate::bbr2::cycle::Cycle;
use crate::bbr2::drain::Drain;
use crate::bbr2::network_model::BBRv2NetworkModel;
use crate::bbr2::probe_bw::ProbeBW;
use crate::dyadic::{self, Dyadic};
use crate::time::Instant;

verus! {

/// A mode of the sender.
#[derive(Debug)]
pub enum Mode {
    Drain(Drain),
    ProbeBW(ProbeBW),
    ProbeRTT(ProbeRTT),
}

/// The mode that drains the path to measure its minimum round-trip time.
#[derive(Debug)]
pub struct ProbeRTT {
    pub model: BBRv2NetworkModel,
    pub cycle: Cycle,
    /// When the mode ends, once it is known.
    pub exit_time: Option<Instant>,
}

impl ProbeRTT {
    /// Enters the mode: nothing is paced or granted beyond the estimates.
    pub fn enter(&mut self)
        ensures
            final(self).cycle == old(self).cycle,
            final(self).exit_time is None,
            final(self).model.pacing_gain@ == dyadic::one(),
            final(self).model.cwnd_gain@ == dyadic::one(),
            final(self).model == (BBRv2NetworkModel {
                pacing_gain: final(self).model.pacing_gain,
                cwnd_gain: final(self).model.cwnd_gain,
                ..old(self).model
            }),
    {
        self.model.set_pacing_gain(Dyadic::one());
        self.model.set_cwnd_gain(Dyadic::one());
        self.exit_time = None;
    }
}

impl Mode {
    /// Whether the state of the mode is valid.
    pub open spec fn wf(self) -> bool {
        match self {
            Mode::Drain(m) => m.model.wf() && m.cycle.wf(),
            Mode::ProbeBW(m) => m.wf(),
            Mode::ProbeRTT(m) => m.model.wf() && m.cycle.wf(),
        }
    }

    /// The PROBE_BW mode over a path, before it is entered.
    pub fn probe_bw(model: BBRv2NetworkModel, cycle: Cycle) -> (mode: ProbeBW)
        ensures
            mode.model == model,
            mode.cycle == cycle,
    {
        ProbeBW { model, cycle }
    }

    /// The PROBE_RTT mode over a path, before it is entered.
    pub fn probe_rtt(model: BBRv2NetworkModel, cycle: Cycle) -> (mode: ProbeRTT)
        ensures
            mode.model == model,
            mode.cycle == cycle,
            mode.exit_time is None,
    {
        ProbeRTT { model, cycle, exit_time: None }
    }
}

} // verus!
