//! The mode that drains the queue built up at startup.

use vstd::prelude::*;

use crate::bbr2::cycle::Cycle;
use crate::bbr2::event::{BBRv2CongestionEvent, Limits};
use crate::bbr2::log;
use crate::bbr2::mode::Mode;
use crate::bbr2::network_model::BBRv2NetworkModel;
use crate::bbr2::params::Params;
use crate::bbr2::probe_bw::ProbeBW;
use crate::time::Instant;

verus! {

/// The DRAIN mode.
#[derive(Debug)]
pub struct Drain {
    pub model: BBRv2NetworkModel,
    pub cycle: Cycle,
}

impl Drain {
    /// The model with the gains of the mode.
    pub open spec fn drained(self, params: Params) -> BBRv2NetworkModel {
        BBRv2NetworkModel {
            pacing_gain: params.drain_pacing_gain,
            cwnd_gain: params.drain_cwnd_gain,
            ..self.model
        }
    }

    /// The mode after an event: PROBE_BW once no more is in flight than the
    /// path holds, else still this one.
    pub open spec fn after(
        self,
        event_time: Instant,
        event: BBRv2CongestionEvent,
        params: Params,
    ) -> Mode {
        let model = self.drained(params);
        if event.bytes_in_flight <= self.model.spec_bdp() {
            Mode::ProbeBW(ProbeBW { model, cycle: self.cycle }.entered(event_time, params))
        } else {
            Mode::Drain(Drain { model, ..self })
        }
    }

    pub fn state_str(&self) -> (s: &'static str)
        ensures
            s@ == "bbr_drain"@,
    {
        "bbr_drain"
    }

    pub fn is_probing_for_bandwidth(&self) -> (b: bool)
        ensures
            !b,
    {
        false
    }

    /// The values to log for an event, before it is handled.
    pub fn logging_values(
        &self,
        congestion_event: &BBRv2CongestionEvent,
        elapsed_millis: u128,
    ) -> (values: Vec<u128>)
        requires
            self.model.wf(),
        ensures
            values@ == log::row(self.model, *congestion_event, false, elapsed_millis),
    {
        log::logging_values(&self.model, congestion_event, false, elapsed_millis)
    }

    /// Handles an event.
    pub fn on_congestion_event(
        self,
        event_time: Instant,
        congestion_event: &BBRv2CongestionEvent,
        params: &Params,
    ) -> (mode: Mode)
        requires
            self.model.wf(),
            params.wf(),
        ensures
            mode == self.after(event_time, *congestion_event, *params),
    {
        let mut state = self;
        state.model.set_pacing_gain(params.drain_pacing_gain);
        // Only STARTUP precedes this mode, and both use the same window gain.
        state.model.set_cwnd_gain(params.drain_cwnd_gain);
        let drain_target = state.drain_target();
        if congestion_event.bytes_in_flight <= drain_target {
            return state.into_probe_bw(event_time, params);
        }
        Mode::Drain(state)
    }

    /// The bounds on the congestion window.
    pub fn get_cwnd_limits(&self) -> (limits: Limits<usize>)
        ensures
            limits.lo == 0,
            limits.hi == self.model.inflight_lo,
    {
        Limits { lo: 0, hi: self.model.inflight_lo() }
    }

    /// Handles the end of a quiet time, which changes nothing.
    pub fn on_exit_quiescence(self, _now: Instant, _quiescence_start_time: Instant) -> (mode: Mode)
        ensures
            mode == Mode::Drain(self),
    {
        Mode::Drain(self)
    }

    /// Enters the mode, which changes nothing.
    pub fn enter(&mut self)
        ensures
            *final(self) == *old(self),
    {
    }

    /// Leaves the mode, which changes nothing.
    pub fn leave(&mut self)
        ensures
            *final(self) == *old(self),
    {
    }

    /// Moves on to PROBE_BW.
    pub fn into_probe_bw(self, now: Instant, params: &Params) -> (mode: Mode)
        requires
            params.wf(),
        ensures
            mode == Mode::ProbeBW(
                (ProbeBW { model: self.model, cycle: self.cycle }).entered(now, *params),
            ),
    {
        let mut state = self;
        state.leave();
        let mut next_mode = Mode::probe_bw(state.model, state.cycle);
        next_mode.enter(now, params);
        Mode::ProbeBW(next_mode)
    }

    /// The bytes in flight down to which the mode drains.
    pub fn drain_target(&self) -> (bytes: usize)
        requires
            self.model.min_rtt.nanos <= u64::MAX,
        ensures
            bytes == self.model.spec_bdp(),
    {
        self.model.bdp0()
    }
}

} // verus!
