//! The mode that probes for bandwidth in cycles.

use vstd::arithmetic::div_mod::*;
use vstd::arithmetic::power2::*;
use vstd::prelude::*;

use crate::bbr2::cycle::{Cycle, CyclePhase};
use crate::bbr2::event::{BBRv2CongestionEvent, Limits};
use crate::bbr2::mode::Mode;
use crate::bbr2::network_model::{BBRv2NetworkModel, DEFAULT_MSS};
use crate::bbr2::params::{BwLoMode, Params};
use crate::bbr2::transitions;
use crate::dyadic::{self, Dyadic, DOUBLE, SINGLE};
use crate::time::{self, Duration, Instant};

verus! {

/// The PROBE_BW mode.
#[derive(Debug)]
pub struct ProbeBW {
    pub model: BBRv2NetworkModel,
    pub cycle: Cycle,
}

/// What came of adapting the upper bounds to an event.
#[derive(Clone, Copy, Debug, PartialEq, Eq, Structural)]
pub enum AdaptUpperBoundsResult {
    AdaptedOk,
    AdaptedProbedTooHigh,
    NotAdaptedInflightHighNotSet,
    NotAdaptedInvalidSample,
}

impl ProbeBW {
    pub fn state_str(&self) -> (s: &'static str)
        requires
            self.cycle.phase != CyclePhase::NotStarted,
        ensures
            self.cycle.phase == CyclePhase::Up ==> s@ == "bbr_probe_bw_up"@,
            self.cycle.phase == CyclePhase::Down ==> s@ == "bbr_probe_bw_down"@,
            self.cycle.phase == CyclePhase::Cruise ==> s@ == "bbr_probe_bw_cruise"@,
            self.cycle.phase == CyclePhase::Refill ==> s@ == "bbr_probe_bw_refill"@,
    {
        match self.cycle.phase {
            CyclePhase::Up => "bbr_probe_bw_up",
            CyclePhase::Down => "bbr_probe_bw_down",
            CyclePhase::Cruise => "bbr_probe_bw_cruise",
            _ => "bbr_probe_bw_refill",
        }
    }

    /// Enters the mode, in the phase in which it was left.
    pub fn enter(&mut self, now: Instant, params: &Params)
        requires
            params.wf(),
        ensures
            *final(self) == old(self).entered(now, *params),
    {
        self.cycle.start_time = now;
        match self.cycle.phase {
            CyclePhase::NotStarted => {
                // The first probing cycle starts.
                self.enter_probe_down(false, false, now, params);
            },
            CyclePhase::Cruise => {
                self.enter_probe_cruise(now);
            },
            CyclePhase::Refill => {
                self.enter_probe_refill(self.cycle.probe_up_rounds, now);
            },
            CyclePhase::Up | CyclePhase::Down => {},
        }
    }

    /// Handles an event.
    pub fn on_congestion_event(
        self,
        prior_in_flight: usize,
        event_time: Instant,
        congestion_event: &BBRv2CongestionEvent,
        target_bytes_inflight: usize,
        params: &Params,
    ) -> (mode: Mode)
        requires
            self.wf(),
            params.wf(),
            self.cycle.phase != CyclePhase::NotStarted,
            self.event_fits(
                prior_in_flight,
                event_time,
                *congestion_event,
                target_bytes_inflight,
                *params,
            ),
        ensures
            self.leads_to(
                mode,
                prior_in_flight,
                event_time,
                *congestion_event,
                target_bytes_inflight,
                *params,
            ),
    {
        let mut state = self;
        let was_down = state.cycle.phase == CyclePhase::Down;
        state.count_round(event_time, congestion_event);
        state.update_phase(prior_in_flight, target_bytes_inflight, congestion_event, params);
        let switch_to_probe_rtt = was_down && state.cycle.phase != CyclePhase::Down
            && state.model.maybe_expire_min_rtt(congestion_event, params);
        if switch_to_probe_rtt {
            // PROBE_RTT sets its own gains when it is entered.
            state.into_probe_rtt()
        } else {
            state.model.set_pacing_gain(state.cycle.phase.pacing_gain(params));
            state.model.set_cwnd_gain(state.cycle.phase.cwnd_gain(params));
            Mode::ProbeBW(state)
        }
    }

    /// Counts a round trip that an event ends.
    fn count_round(&mut self, event_time: Instant, congestion_event: &BBRv2CongestionEvent)
        requires
            congestion_event.end_of_round_trip && old(self).cycle.start_time != event_time
                ==> old(self).cycle.rounds_since_probe < usize::MAX,
            congestion_event.end_of_round_trip && old(self).cycle.phase_start_time != event_time
                ==> old(self).cycle.rounds_in_phase < usize::MAX,
        ensures
            *final(self) == old(self).counted(event_time, *congestion_event),
    {
        if congestion_event.end_of_round_trip {
            if self.cycle.start_time != event_time {
                self.cycle.rounds_since_probe = self.cycle.rounds_since_probe + 1;
            }
            if self.cycle.phase_start_time != event_time {
                self.cycle.rounds_in_phase = self.cycle.rounds_in_phase + 1;
            }
        }
    }

    /// Handles an event in the current phase.
    fn update_phase(
        &mut self,
        prior_in_flight: usize,
        target_bytes_inflight: usize,
        congestion_event: &BBRv2CongestionEvent,
        params: &Params,
    )
        requires
            old(self).wf(),
            params.wf(),
            old(self).phase_fits(prior_in_flight, target_bytes_inflight, *congestion_event, *params),
        ensures
            *final(self) == old(self).phase_updated(
                prior_in_flight,
                target_bytes_inflight,
                *congestion_event,
                *params,
            ),
    {
        match self.cycle.phase {
            CyclePhase::NotStarted => {},
            CyclePhase::Up => {
                self.update_probe_up(
                    prior_in_flight,
                    target_bytes_inflight,
                    congestion_event,
                    params,
                );
            },
            CyclePhase::Down => {
                self.update_probe_down(target_bytes_inflight, congestion_event, params);
            },
            CyclePhase::Cruise => {
                self.update_probe_cruise(target_bytes_inflight, congestion_event, params);
            },
            CyclePhase::Refill => {
                self.update_probe_refill(target_bytes_inflight, congestion_event, params);
            },
        }
    }

    /// The bounds on the congestion window.
    pub fn get_cwnd_limits(&self, params: &Params) -> (limits: Limits<usize>)
        requires
            params.wf(),
        ensures
            limits.lo == 0,
            limits.hi == self.cwnd_bound(*params),
    {
        let inflight_lo = self.model.inflight_lo();
        if self.cycle.phase == CyclePhase::Cruise {
            let bound = self.model.inflight_hi_with_headroom(params);
            return Limits::no_greater_than(smaller(inflight_lo, bound));
        }
        if self.cycle.phase == CyclePhase::Up && params.probe_up_ignore_inflight_hi {
            // As at startup.
            return Limits::no_greater_than(inflight_lo);
        }
        Limits::no_greater_than(smaller(inflight_lo, self.model.inflight_hi()))
    }

    pub fn is_probing_for_bandwidth(&self) -> (b: bool)
        ensures
            b == (self.cycle.phase == CyclePhase::Refill || self.cycle.phase == CyclePhase::Up),
    {
        self.cycle.phase == CyclePhase::Refill || self.cycle.phase == CyclePhase::Up
    }

    /// Handles the end of a quiet time, during which the minimum round-trip
    /// time did not age.
    pub fn on_exit_quiescence(self, now: Instant, quiescence_start_time: Instant) -> (mode:
        Mode)
        requires
            self.model.min_rtt_timestamp.nanos + time::elapsed(now, quiescence_start_time)
                <= u64::MAX,
        ensures
            mode == Mode::ProbeBW(
                ProbeBW {
                    model: BBRv2NetworkModel {
                        min_rtt_timestamp: Instant {
                            nanos: (self.model.min_rtt_timestamp.nanos + time::elapsed(
                                now,
                                quiescence_start_time,
                            )) as u64,
                        },
                        ..self.model
                    },
                    ..self
                },
            ),
    {
        let mut state = self;
        state.model.postpone_min_rtt_timestamp(now.since(quiescence_start_time));
        Mode::ProbeBW(state)
    }

    /// Leaves the mode, which changes nothing.
    pub fn leave(&mut self)
        ensures
            *final(self) == *old(self),
    {
    }

    /// Moves on to PROBE_RTT.
    pub fn into_probe_rtt(self) -> (mode: Mode)
        ensures
            self.handed_to_probe_rtt(mode),
    {
        let mut state = self;
        state.leave();
        let mut next_mode = Mode::probe_rtt(state.model, state.cycle);
        next_mode.enter();
        Mode::ProbeRTT(next_mode)
    }

    /// Raises the slope at which PROBE_UP grows the upper bound on inflight.
    pub fn raise_inflight_high_slope(&mut self, cwnd: usize)
        requires
            old(self).cycle.probe_up_rounds <= 30,
        ensures
            *final(self) == old(self).raised(cwnd),
    {
        let rounds = self.cycle.probe_up_rounds;
        proof {
            lemma2_to64();
            lemma_growth(rounds);
        }
        let growth_this_round: usize = 1usize << rounds;
        // Growth is capped at 1G packets a round, which is about one packet
        // for each packet acknowledged.
        self.cycle.probe_up_rounds = if rounds + 1 < 30 {
            rounds + 1
        } else {
            30
        };
        let probe_up_bytes = cwnd / growth_this_round;
        self.cycle.probe_up_bytes = Some(
            if probe_up_bytes >= DEFAULT_MSS {
                probe_up_bytes
            } else {
                DEFAULT_MSS
            },
        );
    }

    /// Enters PROBE_DOWN, the first phase of a cycle.
    pub fn enter_probe_down(
        &mut self,
        probed_too_high: bool,
        stopped_risky_probe: bool,
        now: Instant,
        params: &Params,
    )
        requires
            params.wf(),
        ensures
            *final(self) == old(self).down(probed_too_high, stopped_risky_probe, now, *params),
    {
        self.cycle.last_cycle_probed_too_high = probed_too_high;
        self.cycle.last_cycle_stopped_risky_probe = stopped_risky_probe;
        self.cycle.phase = CyclePhase::Down;
        self.cycle.start_time = now;
        self.cycle.phase_start_time = now;
        self.cycle.rounds_in_phase = 0;
        if params.bw_lo_mode != BwLoMode::Default {
            // Losses in PROBE_UP must not lower the bandwidth for good. A
            // bound that was set in PROBE_REFILL is soon found again.
            self.model.clear_bandwidth_lo();
        }
        self.cycle.rounds_since_probe = 0;
        self.cycle.probe_wait_time = Some(
            params.probe_bw_probe_base_duration.plus(Duration::from_micros(500)),
        );
        self.cycle.probe_up_bytes = None;
        self.cycle.probe_up_app_limited_since_inflight_hi_limited = false;
        self.cycle.has_advanced_max_bw = false;
        self.model.restart_round_early();
    }

    /// Enters PROBE_CRUISE.
    pub fn enter_probe_cruise(&mut self, now: Instant)
        ensures
            *final(self) == old(self).cruise(now),
    {
        if self.cycle.phase == CyclePhase::Down {
            self.exit_probe_down();
        }
        self.model.cap_inflight_lo(self.model.inflight_hi());
        self.cycle.phase = CyclePhase::Cruise;
        self.cycle.phase_start_time = now;
        self.cycle.rounds_in_phase = 0;
        self.cycle.is_sample_from_probing = false;
    }

    /// Enters PROBE_REFILL.
    pub fn enter_probe_refill(&mut self, probe_up_rounds: usize, now: Instant)
        ensures
            *final(self) == old(self).refill(probe_up_rounds, now),
    {
        if self.cycle.phase == CyclePhase::Down {
            self.exit_probe_down();
        }
        self.cycle.phase = CyclePhase::Refill;
        self.cycle.phase_start_time = now;
        self.cycle.rounds_in_phase = 0;
        self.cycle.is_sample_from_probing = false;
        self.cycle.last_cycle_stopped_risky_probe = false;
        self.model.clear_bandwidth_lo();
        self.model.clear_inflight_lo();
        self.cycle.probe_up_rounds = probe_up_rounds;
        self.cycle.probe_up_acked = 0;
        self.model.restart_round_early();
    }

    /// Enters PROBE_UP.
    pub fn enter_probe_up(&mut self, now: Instant, cwnd: usize)
        requires
            old(self).cycle.probe_up_rounds <= 30,
        ensures
            *final(self) == old(self).up(now, cwnd),
    {
        self.cycle.phase = CyclePhase::Up;
        self.cycle.phase_start_time = now;
        self.cycle.rounds_in_phase = 0;
        self.cycle.is_sample_from_probing = true;
        self.raise_inflight_high_slope(cwnd);
        self.model.restart_round_early();
    }

    /// Counts the bandwidth of PROBE_DOWN when the phase is left.
    pub fn exit_probe_down(&mut self)
        ensures
            *final(self) == old(self).down_left(),
    {
        if !self.cycle.has_advanced_max_bw {
            self.model.advance_max_bandwidth_filter();
            self.cycle.has_advanced_max_bw = true;
        }
    }

    /// Handles an event in PROBE_DOWN.
    pub fn update_probe_down(
        &mut self,
        target_bytes_inflight: usize,
        congestion_event: &BBRv2CongestionEvent,
        params: &Params,
    )
        requires
            old(self).wf(),
            params.wf(),
            old(self).cycle.probe_wait_time is Some,
            old(self).down_fits(*congestion_event, *params),
        ensures
            *final(self) == old(self).down_updated(
                target_bytes_inflight,
                *congestion_event,
                *params,
            ),
    {
        if self.cycle.rounds_in_phase == 1 && congestion_event.end_of_round_trip {
            self.cycle.is_sample_from_probing = false;
            if !congestion_event.last_packet_send_state.is_app_limited {
                self.model.advance_max_bandwidth_filter();
                self.cycle.has_advanced_max_bw = true;
            }
            assert(*self == old(self).down_first_round(*congestion_event));
            if self.cycle.last_cycle_stopped_risky_probe && !self.cycle.last_cycle_probed_too_high {
                self.enter_probe_refill(0, congestion_event.event_time);
                return;
            }
        }
        assert(*self == old(self).down_first_round(*congestion_event));
        self.maybe_adapt_upper_bounds(target_bytes_inflight, congestion_event, params);
        if self.is_time_to_probe_bandwidth(target_bytes_inflight, congestion_event, params) {
            self.enter_probe_refill(0, congestion_event.event_time);
            return;
        }
        if self.has_stayed_long_enough_in_probe_down(congestion_event, params) {
            self.enter_probe_cruise(congestion_event.event_time);
            return;
        }
        let inflight_with_headroom = self.model.inflight_hi_with_headroom(params);
        let bytes_in_flight = congestion_event.bytes_in_flight;
        if bytes_in_flight > inflight_with_headroom {
            // Stay in PROBE_DOWN.
            return;
        }
        // PROBE_CRUISE follows once inflight has drained to the target.
        let bdp = self.model.bdp0();
        if bytes_in_flight < bdp {
            self.enter_probe_cruise(congestion_event.event_time);
        }
    }

    /// Handles an event in PROBE_CRUISE.
    pub fn update_probe_cruise(
        &mut self,
        target_bytes_inflight: usize,
        congestion_event: &BBRv2CongestionEvent,
        params: &Params,
    )
        requires
            old(self).wf(),
            params.wf(),
            old(self).cycle.probe_wait_time is Some,
            old(self).adapt_fits(*congestion_event, *params),
        ensures
            *final(self) == old(self).cruise_updated(
                target_bytes_inflight,
                *congestion_event,
                *params,
            ),
    {
        self.maybe_adapt_upper_bounds(target_bytes_inflight, congestion_event, params);
        if self.is_time_to_probe_bandwidth(target_bytes_inflight, congestion_event, params) {
            self.enter_probe_refill(0, congestion_event.event_time);
        }
    }

    /// Handles an event in PROBE_REFILL.
    pub fn update_probe_refill(
        &mut self,
        target_bytes_inflight: usize,
        congestion_event: &BBRv2CongestionEvent,
        params: &Params,
    )
        requires
            old(self).wf(),
            params.wf(),
            old(self).adapt_fits(*congestion_event, *params),
        ensures
            *final(self) == old(self).refill_updated(
                target_bytes_inflight,
                *congestion_event,
                *params,
            ),
    {
        self.maybe_adapt_upper_bounds(target_bytes_inflight, congestion_event, params);
        if self.cycle.rounds_in_phase > 0 && congestion_event.end_of_round_trip {
            self.enter_probe_up(congestion_event.event_time, congestion_event.prior_cwnd);
        }
    }

    /// Handles an event in PROBE_UP.
    pub fn update_probe_up(
        &mut self,
        prior_in_flight: usize,
        target_bytes_inflight: usize,
        congestion_event: &BBRv2CongestionEvent,
        params: &Params,
    )
        requires
            old(self).wf(),
            params.wf(),
            old(self).up_fits(prior_in_flight, target_bytes_inflight, *congestion_event, *params),
        ensures
            *final(self) == old(self).up_updated(
                prior_in_flight,
                target_bytes_inflight,
                *congestion_event,
                *params,
            ),
    {
        if self.maybe_adapt_upper_bounds(target_bytes_inflight, congestion_event, params)
            == AdaptUpperBoundsResult::AdaptedProbedTooHigh {
            self.enter_probe_down(true, false, congestion_event.event_time, params);
            return;
        }
        self.probe_inflight_high_upward(congestion_event, params);
        let ghost grown = *self;
        let mut is_risky = false;
        let mut is_queuing = false;
        if self.cycle.last_cycle_probed_too_high && prior_in_flight >= self.model.inflight_hi() {
            is_risky = true;
        } else if self.cycle.rounds_in_phase > 0 {
            if params.max_probe_up_queue_rounds > 0 {
                if congestion_event.end_of_round_trip {
                    self.model.check_persistent_queue(params.full_bw_threshold);
                    if self.model.rounds_with_queueing() >= params.max_probe_up_queue_rounds {
                        is_queuing = true;
                    }
                }
            } else {
                let mut queuing_threshold_extra_bytes = self.model.queueing_threshold_extra_bytes();
                if params.add_ack_height_to_queueing_threshold {
                    queuing_threshold_extra_bytes =
                    queuing_threshold_extra_bytes + self.model.max_ack_height();
                }
                let queuing_threshold = params.full_bw_threshold.scale(self.model.bdp0())
                    + queuing_threshold_extra_bytes;
                is_queuing = congestion_event.bytes_in_flight >= queuing_threshold;
            }
        }
        assert(*self == grown.queue_counted(prior_in_flight, *congestion_event, *params));
        if is_risky || is_queuing {
            self.enter_probe_down(false, is_risky, congestion_event.event_time, params);
        }
    }

    /// Whether it is time to leave PROBE_DOWN or PROBE_CRUISE for the next
    /// probe.
    pub fn is_time_to_probe_bandwidth(
        &self,
        target_bytes_inflight: usize,
        congestion_event: &BBRv2CongestionEvent,
        params: &Params,
    ) -> (b: bool)
        requires
            params.wf(),
            self.cycle.probe_wait_time is Some,
        ensures
            b == self.time_to_probe(target_bytes_inflight, *congestion_event, *params),
    {
        if self.has_cycle_lasted(self.cycle.probe_wait_time.unwrap(), congestion_event) {
            return true;
        }
        proof {
            lemma2_to64_rest();
        }
        let one = Dyadic { m: 0x10_0000_0000_0000, e: -52 };
        if self.is_time_to_probe_for_reno_coexistence(target_bytes_inflight, one, params) {
            return true;
        }
        false
    }

    /// Adapts the upper bound on inflight to the sample of an event.
    pub fn maybe_adapt_upper_bounds(
        &mut self,
        target_bytes_inflight: usize,
        congestion_event: &BBRv2CongestionEvent,
        params: &Params,
    ) -> (result: AdaptUpperBoundsResult)
        requires
            params.wf(),
            old(self).adapt_fits(*congestion_event, *params),
        ensures
            result == old(self).verdict(*congestion_event, *params),
            *final(self) == old(self).adapted(target_bytes_inflight, *congestion_event, *params),
    {
        let send_state = congestion_event.last_packet_send_state;
        if !send_state.is_valid {
            return AdaptUpperBoundsResult::NotAdaptedInvalidSample;
        }
        if self.cycle.is_sample_from_probing {
            if self.model.is_inflight_too_high(
                congestion_event,
                params.probe_bw_full_loss_count,
                params,
            ) {
                self.cycle.is_sample_from_probing = false;
                if !send_state.is_app_limited || params.max_probe_up_queue_rounds > 0 {
                    let inflight_at_send = self.inflight_when_sent(congestion_event, params);
                    let inflight_target = remaining(params).scale(target_bytes_inflight);
                    let mut new_inflight_hi = if inflight_at_send >= inflight_target {
                        inflight_at_send
                    } else {
                        inflight_target
                    };
                    if params.limit_inflight_hi_by_max_delivered {
                        let delivered = self.model.max_bytes_delivered_in_round();
                        if delivered >= new_inflight_hi {
                            new_inflight_hi = delivered;
                        }
                    }
                    self.model.set_inflight_hi(new_inflight_hi);
                }
                return AdaptUpperBoundsResult::AdaptedProbedTooHigh;
            }
            return AdaptUpperBoundsResult::AdaptedOk;
        }
        if self.model.inflight_hi() == self.model.inflight_hi_default() {
            return AdaptUpperBoundsResult::NotAdaptedInflightHighNotSet;
        }
        // Raise the upper bound on inflight.
        let inflight_at_send = self.inflight_when_sent(congestion_event, params);
        if inflight_at_send > self.model.inflight_hi() {
            self.model.set_inflight_hi(inflight_at_send);
        }
        AdaptUpperBoundsResult::AdaptedOk
    }

    /// The bytes that were in flight when the sampled packet was sent.
    fn inflight_when_sent(&self, congestion_event: &BBRv2CongestionEvent, params: &Params) -> (
        bytes: usize)
        requires
            params.use_bytes_delivered_for_inflight_hi ==> self.model.total_bytes_acked
                >= congestion_event.last_packet_send_state.total_bytes_acked,
        ensures
            bytes == self.inflight_at_send(*congestion_event, *params),
    {
        let send_state = congestion_event.last_packet_send_state;
        if params.use_bytes_delivered_for_inflight_hi {
            self.model.total_bytes_acked() - send_state.total_bytes_acked
        } else {
            send_state.bytes_in_flight
        }
    }

    /// Whether the cycle has lasted longer than a span.
    pub fn has_cycle_lasted(
        &self,
        duration: Duration,
        congestion_event: &BBRv2CongestionEvent,
    ) -> (b: bool)
        ensures
            b == (time::elapsed(congestion_event.event_time, self.cycle.start_time)
                > duration.nanos),
    {
        congestion_event.event_time.since(self.cycle.start_time).nanos > duration.nanos
    }

    /// Whether the phase has lasted longer than a span.
    pub fn has_phase_lasted(
        &self,
        duration: Duration,
        congestion_event: &BBRv2CongestionEvent,
    ) -> (b: bool)
        ensures
            b == (time::elapsed(congestion_event.event_time, self.cycle.phase_start_time)
                > duration.nanos),
    {
        congestion_event.event_time.since(self.cycle.phase_start_time).nanos > duration.nanos
    }

    /// Whether a Reno flow would probe for bandwidth by now, after a fraction
    /// of the rounds that it waits.
    pub fn is_time_to_probe_for_reno_coexistence(
        &self,
        target_bytes_inflight: usize,
        probe_wait_fraction: Dyadic,
        params: &Params,
    ) -> (b: bool)
        requires
            params.wf(),
            probe_wait_fraction.wf(DOUBLE as nat),
        ensures
            b == (params.enable_reno_coexistence && self.cycle.rounds_since_probe
                >= transitions::fraction_of_rounds(
                transitions::reno_rounds(target_bytes_inflight as nat, *params),
                probe_wait_fraction@,
            )),
    {
        if !params.enable_reno_coexistence {
            return false;
        }
        let mut rounds = params.probe_bw_probe_max_rounds;
        if params.probe_bw_probe_reno_gain.m > 0 {
            let target = Dyadic::from_integer(target_bytes_inflight as u128, SINGLE);
            let mss = Dyadic::from_integer(DEFAULT_MSS as u128, SINGLE);
            let reno_rounds = target.times(params.probe_bw_probe_reno_gain, SINGLE).over(
                mss,
                SINGLE,
            ).to_usize();
            if reno_rounds < rounds {
                rounds = reno_rounds;
            }
        }
        let wait = Dyadic::from_integer(rounds as u128, DOUBLE).times(
            probe_wait_fraction,
            DOUBLE,
        ).to_usize();
        self.cycle.rounds_since_probe >= wait
    }

    /// Whether PROBE_DOWN has lasted as long as it may: a minimum round trip,
    /// unless the early exit is disabled.
    pub fn has_stayed_long_enough_in_probe_down(
        &self,
        congestion_event: &BBRv2CongestionEvent,
        params: &Params,
    ) -> (b: bool)
        ensures
            b == self.down_expired(*congestion_event, *params),
    {
        if params.disable_probe_down_early_exit {
            return false;
        }
        self.has_phase_lasted(self.model.min_rtt(), congestion_event)
    }

    /// Grows the upper bound on inflight by a packet for each share of
    /// acknowledged bytes, and raises the slope at the end of a round.
    pub fn probe_inflight_high_upward(
        &mut self,
        congestion_event: &BBRv2CongestionEvent,
        params: &Params,
    )
        requires
            old(self).cycle.wf(),
            old(self).growth_fits(*congestion_event, *params),
        ensures
            *final(self) == old(self).grown(*congestion_event, *params),
    {
        if params.probe_up_ignore_inflight_hi {
            // The bound then grows when a round delivers more than it.
            return;
        }
        if congestion_event.prior_bytes_in_flight < congestion_event.prior_cwnd {
            // The window is not fully used, so growth would not be safe.
            return;
        }
        if congestion_event.prior_cwnd < self.model.inflight_hi() {
            // The bound is not fully used, so there is no need to grow it.
            return;
        }
        self.cycle.probe_up_acked = self.cycle.probe_up_acked + congestion_event.bytes_acked;
        if let Some(probe_up_bytes) = self.cycle.probe_up_bytes {
            let ghost total = self.cycle.probe_up_acked as int;
            let ghost share = probe_up_bytes as int;
            if self.cycle.probe_up_acked >= probe_up_bytes {
                let delta = self.cycle.probe_up_acked / probe_up_bytes;
                proof {
                    lemma_fundamental_div_mod(total, share);
                    assert(delta * probe_up_bytes == share * (total / share)) by (nonlinear_arith)
                        requires
                            delta == total / share,
                            probe_up_bytes == share,
                    ;
                    assert(delta >= 1) by (nonlinear_arith)
                        requires
                            total >= share > 0,
                            delta == total / share,
                    ;
                }
                // What is left is the remainder, so this does not underflow.
                self.cycle.probe_up_acked = self.cycle.probe_up_acked - delta * probe_up_bytes;
                let new_inflight_hi = self.model.inflight_hi() + delta * DEFAULT_MSS;
                if new_inflight_hi > self.model.inflight_hi() {
                    self.model.set_inflight_hi(new_inflight_hi);
                }
            } else {
                proof {
                    lemma_basic_div(total, share);
                    lemma_small_mod(total as nat, share as nat);
                }
            }
        }
        if congestion_event.end_of_round_trip {
            self.raise_inflight_high_slope(congestion_event.prior_cwnd);
        }
    }
}

/// The smaller of two numbers of bytes.
fn smaller(a: usize, b: usize) -> (r: usize)
    ensures
        r == if a <= b { a } else { b },
{
    if a <= b {
        a
    } else {
        b
    }
}

/// The fraction of inflight that a loss leaves.
fn remaining(params: &Params) -> (r: Dyadic)
    requires
        params.wf(),
    ensures
        r@ == transitions::kept(params.beta),
        r.wf(SINGLE as nat),
{
    let one = Dyadic::one();
    if one.is_less(params.beta) {
        Dyadic { m: 0, e: 0 }
    } else if params.beta.m > 0 && params.beta.e < -73 {
        proof {
            lemma_tiny_loss(params.beta);
        }
        one
    } else {
        proof {
            if params.beta.m > 0 {
                lemma_not_above_one(params.beta);
            }
        }
        one.minus(params.beta, SINGLE)
    }
}

/// A positive number of single precision that is not above one has no larger
/// exponent than one has.
proof fn lemma_not_above_one(beta: Dyadic)
    requires
        beta.wf(SINGLE as nat),
        !dyadic::less(dyadic::one(), beta@),
        beta.m > 0,
    ensures
        beta.e <= -23,
{
    if beta.e > -23 {
        lemma2_to64();
        lemma_pow2_strictly_increases(0, (beta.e + 23) as nat);
        let t = pow2((beta.e + 23) as nat);
        assert(beta.m * t >= 2 * beta.m) by (nonlinear_arith)
            requires
                t >= 2,
                beta.m >= 0,
        ;
        assert(0x80_0000 * pow2(0) == 0x80_0000);
        assert(beta.m >= 0x80_0000);
    }
}

/// One less a tiny number rounds to one.
proof fn lemma_tiny_loss(beta: Dyadic)
    requires
        beta.wf(SINGLE as nat),
        beta.m > 0,
        beta.e < -73,
    ensures
        dyadic::difference(dyadic::one(), beta@, SINGLE as nat) == dyadic::one(),
{
    let l = beta.e as int;
    let g = (-23 - l) as nat;
    let v = pow2((g - 1) as nat);
    let m = beta.m as nat;
    lemma2_to64();
    lemma2_to64_rest();
    lemma_pow2_unfold(g);
    if g - 1 > 50 {
        lemma_pow2_strictly_increases(50, (g - 1) as nat);
    }
    let a = dyadic::aligned(dyadic::one(), l);
    let n = (a - m) as nat;
    assert(a == 0x100_0000 * v);
    assert(m * pow2(0) == m) by (nonlinear_arith)
        requires
            pow2(0) == 1,
    ;
    assert(1 * v == v);
    assert(dyadic::fits(n, 1, 24, g - 1));
    dyadic::lemma_scale_unique(n, 1, 24, g - 1);
    let q: nat = 0xff_ffff;
    let r = (v - m) as nat;
    assert(n == q * v + r);
    lemma_fundamental_div_mod_converse(n as int, v as int, q as int, r as int);
}

/// A shift of one is a power of two.
proof fn lemma_growth(rounds: usize)
    requires
        rounds <= 30,
    ensures
        1usize << rounds == pow2(rounds as nat),
        pow2(rounds as nat) > 0,
{
    lemma_pow2_pos(rounds as nat);
    lemma2_to64();
    if rounds < 30 {
        lemma_pow2_strictly_increases(rounds as nat, 30);
    }
    vstd::bits::lemma_usize_shl_is_mul(1, rounds);
}

} // verus!
