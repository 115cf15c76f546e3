//! How events move the PROBE_BW mode, as functions of its state.

use vstd::prelude::*;

use crate::bbr2::cycle::{Cycle, CyclePhase};
use crate::bbr2::event::BBRv2CongestionEvent;
use crate::bbr2::mode::Mode;
use crate::bbr2::network_model::{BBRv2NetworkModel, DEFAULT_MSS, INITIAL_INFLIGHT_HI};
use crate::bbr2::params::{BwLoMode, Params};
use crate::bbr2::probe_bw::{AdaptUpperBoundsResult, ProbeBW};
use crate::dyadic::{self, Dyadic, DOUBLE, SINGLE};
use crate::time::{self, Duration, Instant};
use vstd::arithmetic::power2::*;

verus! {

/// The fraction of inflight that a loss leaves, none where `beta` exceeds one.
pub open spec fn kept(beta: Dyadic) -> (nat, int) {
    if dyadic::less(dyadic::one(), beta@) {
        (0, 0)
    } else {
        dyadic::difference(dyadic::one(), beta@, SINGLE as nat)
    }
}

/// The rounds that a Reno flow would wait before it probed for bandwidth.
pub open spec fn reno_rounds(target_bytes_inflight: nat, params: Params) -> nat {
    let most = params.probe_bw_probe_max_rounds as nat;
    let packets = dyadic::clamped(
        dyadic::whole(
            dyadic::quotient(
                dyadic::product(
                    dyadic::rounded(target_bytes_inflight, 1, 0, SINGLE as nat),
                    params.probe_bw_probe_reno_gain@,
                    SINGLE as nat,
                ),
                dyadic::rounded(DEFAULT_MSS as nat, 1, 0, SINGLE as nat),
                SINGLE as nat,
            ),
        ),
    );
    if params.probe_bw_probe_reno_gain.m > 0 && packets < most {
        packets
    } else {
        most
    }
}

impl ProbeBW {
    pub open spec fn wf(self) -> bool {
        self.model.wf() && self.cycle.wf()
    }

    /// PROBE_DOWN is entered.
    pub open spec fn down(
        self,
        probed_too_high: bool,
        stopped_risky_probe: bool,
        now: Instant,
        params: Params,
    ) -> ProbeBW {
        let model = BBRv2NetworkModel {
            bandwidth_lo: if params.bw_lo_mode == BwLoMode::Default {
                self.model.bandwidth_lo
            } else {
                None
            },
            ..self.model
        };
        ProbeBW {
            model: model.restarted(),
            cycle: Cycle {
                start_time: now,
                phase: CyclePhase::Down,
                rounds_in_phase: 0,
                phase_start_time: now,
                rounds_since_probe: 0,
                probe_wait_time: Some(
                    Duration {
                        nanos: (params.probe_bw_probe_base_duration.nanos + 500_000) as u128,
                    },
                ),
                probe_up_bytes: None,
                probe_up_app_limited_since_inflight_hi_limited: false,
                last_cycle_probed_too_high: probed_too_high,
                last_cycle_stopped_risky_probe: stopped_risky_probe,
                has_advanced_max_bw: false,
                ..self.cycle
            },
        }
    }

    /// PROBE_DOWN is left: its bandwidth has been counted.
    pub open spec fn down_left(self) -> ProbeBW {
        if self.cycle.has_advanced_max_bw {
            self
        } else {
            ProbeBW {
                model: self.model.filter_advanced(),
                cycle: Cycle { has_advanced_max_bw: true, ..self.cycle },
            }
        }
    }

    /// The state in which the phase after PROBE_DOWN is entered.
    pub open spec fn departed(self) -> ProbeBW {
        if self.cycle.phase == CyclePhase::Down {
            self.down_left()
        } else {
            self
        }
    }

    /// PROBE_CRUISE is entered.
    pub open spec fn cruise(self, now: Instant) -> ProbeBW {
        let s = self.departed();
        ProbeBW {
            model: BBRv2NetworkModel {
                inflight_lo: if s.model.inflight_lo != usize::MAX && s.model.inflight_hi
                    < s.model.inflight_lo {
                    s.model.inflight_hi
                } else {
                    s.model.inflight_lo
                },
                ..s.model
            },
            cycle: Cycle {
                phase: CyclePhase::Cruise,
                phase_start_time: now,
                rounds_in_phase: 0,
                is_sample_from_probing: false,
                ..s.cycle
            },
        }
    }

    /// PROBE_REFILL is entered.
    pub open spec fn refill(self, probe_up_rounds: usize, now: Instant) -> ProbeBW {
        let s = self.departed();
        let model = BBRv2NetworkModel { bandwidth_lo: None, inflight_lo: usize::MAX, ..s.model };
        ProbeBW {
            model: model.restarted(),
            cycle: Cycle {
                phase: CyclePhase::Refill,
                phase_start_time: now,
                rounds_in_phase: 0,
                is_sample_from_probing: false,
                last_cycle_stopped_risky_probe: false,
                probe_up_rounds,
                probe_up_acked: 0,
                ..s.cycle
            },
        }
    }

    /// The slope of PROBE_UP is raised: the window is spread over twice as
    /// many packets of growth, never fewer bytes than a packet for each.
    pub open spec fn raised(self, cwnd: usize) -> ProbeBW {
        let rounds = self.cycle.probe_up_rounds as nat;
        let share = cwnd as nat / pow2(rounds);
        ProbeBW {
            cycle: Cycle {
                probe_up_rounds: if rounds < 30 {
                    (rounds + 1) as usize
                } else {
                    30
                },
                probe_up_bytes: Some(
                    if share >= DEFAULT_MSS {
                        share as usize
                    } else {
                        DEFAULT_MSS
                    },
                ),
                ..self.cycle
            },
            ..self
        }
    }

    /// PROBE_UP is entered.
    pub open spec fn up(self, now: Instant, cwnd: usize) -> ProbeBW {
        let s = ProbeBW {
            cycle: Cycle {
                phase: CyclePhase::Up,
                phase_start_time: now,
                rounds_in_phase: 0,
                is_sample_from_probing: true,
                ..self.cycle
            },
            ..self
        }.raised(cwnd);
        ProbeBW { model: s.model.restarted(), ..s }
    }

    /// The bytes that were in flight when the sampled packet was sent: those
    /// delivered since, or those counted then.
    pub open spec fn inflight_at_send(self, event: BBRv2CongestionEvent, params: Params) -> nat {
        let sent = event.last_packet_send_state;
        if params.use_bytes_delivered_for_inflight_hi {
            (self.model.total_bytes_acked - sent.total_bytes_acked) as nat
        } else {
            sent.bytes_in_flight as nat
        }
    }

    /// Whether the bytes that were in flight at the time are asked for.
    pub open spec fn reads_inflight_at_send(
        self,
        event: BBRv2CongestionEvent,
        params: Params,
    ) -> bool {
        match self.verdict(event, params) {
            AdaptUpperBoundsResult::AdaptedProbedTooHigh =>
                !event.last_packet_send_state.is_app_limited || params.max_probe_up_queue_rounds
                > 0,
            AdaptUpperBoundsResult::AdaptedOk => !self.cycle.is_sample_from_probing,
            _ => false,
        }
    }

    /// Whether no fewer bytes have been acknowledged than when the sampled
    /// packet was sent, where the difference is asked for.
    pub open spec fn adapt_fits(self, event: BBRv2CongestionEvent, params: Params) -> bool {
        self.reads_inflight_at_send(event, params) && params.use_bytes_delivered_for_inflight_hi
            ==> self.model.total_bytes_acked >= event.last_packet_send_state.total_bytes_acked
    }

    /// The upper bound on inflight after a probe that went too high.
    pub open spec fn lowered_inflight_hi(
        self,
        target_bytes_inflight: usize,
        event: BBRv2CongestionEvent,
        params: Params,
    ) -> nat {
        let sent = self.inflight_at_send(event, params);
        let target = dyadic::scaled(target_bytes_inflight as nat, kept(params.beta));
        let bound = if sent >= target {
            sent
        } else {
            target
        };
        if params.limit_inflight_hi_by_max_delivered && self.model.max_bytes_delivered_in_round
            >= bound {
            self.model.max_bytes_delivered_in_round as nat
        } else {
            bound
        }
    }

    /// What an event says of the upper bounds.
    pub open spec fn verdict(
        self,
        event: BBRv2CongestionEvent,
        params: Params,
    ) -> AdaptUpperBoundsResult {
        if !event.last_packet_send_state.is_valid {
            AdaptUpperBoundsResult::NotAdaptedInvalidSample
        } else if self.cycle.is_sample_from_probing {
            if self.model.inflight_too_high(event, params.probe_bw_full_loss_count, params) {
                AdaptUpperBoundsResult::AdaptedProbedTooHigh
            } else {
                AdaptUpperBoundsResult::AdaptedOk
            }
        } else if self.model.inflight_hi == INITIAL_INFLIGHT_HI {
            AdaptUpperBoundsResult::NotAdaptedInflightHighNotSet
        } else {
            AdaptUpperBoundsResult::AdaptedOk
        }
    }

    /// The upper bounds are adapted to an event.
    pub open spec fn adapted(
        self,
        target_bytes_inflight: usize,
        event: BBRv2CongestionEvent,
        params: Params,
    ) -> ProbeBW {
        match self.verdict(event, params) {
            AdaptUpperBoundsResult::AdaptedProbedTooHigh => ProbeBW {
                model: BBRv2NetworkModel {
                    inflight_hi: if !event.last_packet_send_state.is_app_limited
                        || params.max_probe_up_queue_rounds > 0 {
                        self.lowered_inflight_hi(target_bytes_inflight, event, params) as usize
                    } else {
                        self.model.inflight_hi
                    },
                    ..self.model
                },
                cycle: Cycle { is_sample_from_probing: false, ..self.cycle },
            },
            AdaptUpperBoundsResult::AdaptedOk => if !self.cycle.is_sample_from_probing
                && self.inflight_at_send(event, params) > self.model.inflight_hi {
                ProbeBW {
                    model: BBRv2NetworkModel {
                        inflight_hi: self.inflight_at_send(event, params) as usize,
                        ..self.model
                    },
                    ..self
                }
            } else {
                self
            },
            _ => self,
        }
    }

    /// Whether an event lets PROBE_UP grow the upper bound on inflight: the
    /// window was in full use and no smaller than the bound.
    pub open spec fn grows(self, event: BBRv2CongestionEvent, params: Params) -> bool {
        &&& !params.probe_up_ignore_inflight_hi
        &&& event.prior_bytes_in_flight >= event.prior_cwnd
        &&& event.prior_cwnd >= self.model.inflight_hi
    }

    /// The acknowledged bytes that can be turned into growth.
    pub open spec fn probe_up_total(self, event: BBRv2CongestionEvent) -> nat {
        self.cycle.probe_up_acked as nat + event.bytes_acked as nat
    }

    /// The upper bound once every whole share of acknowledged bytes has grown
    /// it by a packet.
    pub open spec fn grown_inflight_hi(self, event: BBRv2CongestionEvent) -> nat {
        match self.cycle.probe_up_bytes {
            Some(share) => self.model.inflight_hi as nat + self.probe_up_total(event) / share as nat
                * DEFAULT_MSS as nat,
            None => self.model.inflight_hi as nat,
        }
    }

    /// Whether the growth stays within a `usize`.
    pub open spec fn growth_fits(self, event: BBRv2CongestionEvent, params: Params) -> bool {
        self.grows(event, params) ==> self.probe_up_total(event) <= usize::MAX
            && self.grown_inflight_hi(event) <= usize::MAX
    }

    /// PROBE_UP turns acknowledged bytes into growth of the upper bound.
    pub open spec fn grown(self, event: BBRv2CongestionEvent, params: Params) -> ProbeBW {
        if self.grows(event, params) {
            let total = self.probe_up_total(event);
            let s = ProbeBW {
                model: BBRv2NetworkModel {
                    inflight_hi: self.grown_inflight_hi(event) as usize,
                    ..self.model
                },
                cycle: Cycle {
                    probe_up_acked: match self.cycle.probe_up_bytes {
                        Some(share) => (total % share as nat) as usize,
                        None => total as usize,
                    },
                    ..self.cycle
                },
            };
            if event.end_of_round_trip {
                s.raised(event.prior_cwnd)
            } else {
                s
            }
        } else {
            self
        }
    }

    /// Whether enough time or rounds have passed for the next probe.
    pub open spec fn time_to_probe(
        self,
        target_bytes_inflight: usize,
        event: BBRv2CongestionEvent,
        params: Params,
    ) -> bool {
        ||| time::elapsed(event.event_time, self.cycle.start_time)
            > self.cycle.probe_wait_time->0.nanos
        ||| params.enable_reno_coexistence && self.cycle.rounds_since_probe >= fraction_of_rounds(
            reno_rounds(target_bytes_inflight as nat, params),
            double_one(),
        )
    }

    /// Whether PROBE_DOWN has lasted longer than a minimum round trip, and
    /// this ends it.
    pub open spec fn down_expired(self, event: BBRv2CongestionEvent, params: Params) -> bool {
        &&& !params.disable_probe_down_early_exit
        &&& time::elapsed(event.event_time, self.cycle.phase_start_time) > self.model.min_rtt.nanos
    }

    /// PROBE_DOWN at the end of its first round: what arrives from here on was
    /// not sent while probing.
    pub open spec fn down_first_round(self, event: BBRv2CongestionEvent) -> ProbeBW {
        if self.cycle.rounds_in_phase == 1 && event.end_of_round_trip {
            let advance = !event.last_packet_send_state.is_app_limited;
            ProbeBW {
                model: if advance {
                    self.model.filter_advanced()
                } else {
                    self.model
                },
                cycle: Cycle {
                    is_sample_from_probing: false,
                    has_advanced_max_bw: advance || self.cycle.has_advanced_max_bw,
                    ..self.cycle
                },
            }
        } else {
            self
        }
    }

    /// Whether a probe that was stopped as risky is taken up again.
    pub open spec fn retries_probe(self, event: BBRv2CongestionEvent) -> bool {
        &&& self.cycle.rounds_in_phase == 1
        &&& event.end_of_round_trip
        &&& self.cycle.last_cycle_stopped_risky_probe
        &&& !self.cycle.last_cycle_probed_too_high
    }

    /// Whether an event in PROBE_DOWN leaves the counts of bytes in order.
    pub open spec fn down_fits(self, event: BBRv2CongestionEvent, params: Params) -> bool {
        self.retries_probe(event) || self.down_first_round(event).adapt_fits(event, params)
    }

    /// An event in PROBE_DOWN.
    pub open spec fn down_updated(
        self,
        target_bytes_inflight: usize,
        event: BBRv2CongestionEvent,
        params: Params,
    ) -> ProbeBW {
        let first = self.down_first_round(event);
        let s = first.adapted(target_bytes_inflight, event, params);
        if self.retries_probe(event) {
            first.refill(0, event.event_time)
        } else if s.time_to_probe(target_bytes_inflight, event, params) {
            s.refill(0, event.event_time)
        } else if s.down_expired(event, params) || (event.bytes_in_flight
            <= s.model.spec_inflight_hi_with_headroom(params) && event.bytes_in_flight
            < s.model.spec_bdp()) {
            s.cruise(event.event_time)
        } else {
            s
        }
    }

    /// An event in PROBE_CRUISE.
    pub open spec fn cruise_updated(
        self,
        target_bytes_inflight: usize,
        event: BBRv2CongestionEvent,
        params: Params,
    ) -> ProbeBW {
        let s = self.adapted(target_bytes_inflight, event, params);
        if s.time_to_probe(target_bytes_inflight, event, params) {
            s.refill(0, event.event_time)
        } else {
            s
        }
    }

    /// An event in PROBE_REFILL.
    pub open spec fn refill_updated(
        self,
        target_bytes_inflight: usize,
        event: BBRv2CongestionEvent,
        params: Params,
    ) -> ProbeBW {
        let s = self.adapted(target_bytes_inflight, event, params);
        if s.cycle.rounds_in_phase > 0 && event.end_of_round_trip {
            s.up(event.event_time, event.prior_cwnd)
        } else {
            s
        }
    }

    /// Whether the last probe went too high and this one has reached the bound.
    pub open spec fn risky(self, prior_in_flight: usize) -> bool {
        self.cycle.last_cycle_probed_too_high && prior_in_flight >= self.model.inflight_hi
    }

    /// The state after the count of rounds with a queue is brought up to date,
    /// where PROBE_UP goes by that count.
    pub open spec fn queue_counted(
        self,
        prior_in_flight: usize,
        event: BBRv2CongestionEvent,
        params: Params,
    ) -> ProbeBW {
        if !self.risky(prior_in_flight) && self.cycle.rounds_in_phase > 0
            && params.max_probe_up_queue_rounds > 0 && event.end_of_round_trip {
            ProbeBW { model: self.model.queue_checked(params.full_bw_threshold), ..self }
        } else {
            self
        }
    }

    /// The bytes in flight from which PROBE_UP has built a queue, where it
    /// goes by them.
    pub open spec fn queueing_threshold(self, params: Params) -> nat {
        dyadic::scaled(self.model.spec_bdp(), params.full_bw_threshold@) + 2 * DEFAULT_MSS as nat
            + if params.add_ack_height_to_queueing_threshold {
            self.model.max_ack_height as nat
        } else {
            0
        }
    }

    /// Whether PROBE_UP has built a queue, once the count of rounds is up to
    /// date.
    pub open spec fn queueing(
        self,
        prior_in_flight: usize,
        event: BBRv2CongestionEvent,
        params: Params,
    ) -> bool {
        &&& !self.risky(prior_in_flight)
        &&& self.cycle.rounds_in_phase > 0
        &&& if params.max_probe_up_queue_rounds > 0 {
            event.end_of_round_trip && self.model.rounds_with_queueing
                >= params.max_probe_up_queue_rounds
        } else {
            event.bytes_in_flight >= self.queueing_threshold(params)
        }
    }

    /// Whether the sums and differences that an event in PROBE_UP computes fit
    /// in a `usize`.
    pub open spec fn up_fits(
        self,
        prior_in_flight: usize,
        target_bytes_inflight: usize,
        event: BBRv2CongestionEvent,
        params: Params,
    ) -> bool {
        &&& self.adapt_fits(event, params)
        &&& self.verdict(event, params) != AdaptUpperBoundsResult::AdaptedProbedTooHigh ==> {
            let s = self.adapted(target_bytes_inflight, event, params);
            let g = s.grown(event, params);
            &&& s.growth_fits(event, params)
            &&& !g.risky(prior_in_flight) && g.cycle.rounds_in_phase > 0 ==> {
                &&& params.max_probe_up_queue_rounds > 0 && event.end_of_round_trip
                    ==> g.model.rounds_with_queueing < usize::MAX
                &&& params.max_probe_up_queue_rounds == 0 ==> g.queueing_threshold(params)
                    <= usize::MAX
            }
        }
    }

    /// An event in PROBE_UP.
    pub open spec fn up_updated(
        self,
        prior_in_flight: usize,
        target_bytes_inflight: usize,
        event: BBRv2CongestionEvent,
        params: Params,
    ) -> ProbeBW {
        let s = self.adapted(target_bytes_inflight, event, params);
        if self.verdict(event, params) == AdaptUpperBoundsResult::AdaptedProbedTooHigh {
            s.down(true, false, event.event_time, params)
        } else {
            let q = s.grown(event, params).queue_counted(prior_in_flight, event, params);
            if q.risky(prior_in_flight) || q.queueing(prior_in_flight, event, params) {
                q.down(false, q.risky(prior_in_flight), event.event_time, params)
            } else {
                q
            }
        }
    }
}

impl ProbeBW {
    /// The mode is entered in the phase in which it was left, or starts its
    /// first cycle.
    pub open spec fn entered(self, now: Instant, params: Params) -> ProbeBW {
        let s = ProbeBW { cycle: Cycle { start_time: now, ..self.cycle }, ..self };
        match self.cycle.phase {
            CyclePhase::NotStarted => s.down(false, false, now, params),
            CyclePhase::Cruise => s.cruise(now),
            CyclePhase::Refill => s.refill(self.cycle.probe_up_rounds, now),
            CyclePhase::Up | CyclePhase::Down => s,
        }
    }

    /// An event at the end of a round trip counts it, unless the cycle or the
    /// phase began with the event.
    pub open spec fn counted(self, event_time: Instant, event: BBRv2CongestionEvent) -> ProbeBW {
        let cycle = event.end_of_round_trip && self.cycle.start_time != event_time;
        let phase = event.end_of_round_trip && self.cycle.phase_start_time != event_time;
        ProbeBW {
            cycle: Cycle {
                rounds_since_probe: if cycle {
                    (self.cycle.rounds_since_probe + 1) as usize
                } else {
                    self.cycle.rounds_since_probe
                },
                rounds_in_phase: if phase {
                    (self.cycle.rounds_in_phase + 1) as usize
                } else {
                    self.cycle.rounds_in_phase
                },
                ..self.cycle
            },
            ..self
        }
    }

    /// Whether the sums and differences that an event computes in the current
    /// phase fit in a `usize`.
    pub open spec fn phase_fits(
        self,
        prior_in_flight: usize,
        target_bytes_inflight: usize,
        event: BBRv2CongestionEvent,
        params: Params,
    ) -> bool {
        match self.cycle.phase {
            CyclePhase::NotStarted => true,
            CyclePhase::Up => self.up_fits(prior_in_flight, target_bytes_inflight, event, params),
            CyclePhase::Down => self.down_fits(event, params),
            CyclePhase::Cruise => self.adapt_fits(event, params),
            CyclePhase::Refill => self.adapt_fits(event, params),
        }
    }

    /// Whether the sums and differences that an event computes fit in a `usize`.
    pub open spec fn event_fits(
        self,
        prior_in_flight: usize,
        event_time: Instant,
        event: BBRv2CongestionEvent,
        target_bytes_inflight: usize,
        params: Params,
    ) -> bool {
        &&& event.end_of_round_trip && self.cycle.start_time != event_time
            ==> self.cycle.rounds_since_probe < usize::MAX
        &&& event.end_of_round_trip && self.cycle.phase_start_time != event_time
            ==> self.cycle.rounds_in_phase < usize::MAX
        &&& self.counted(event_time, event).phase_fits(
            prior_in_flight,
            target_bytes_inflight,
            event,
            params,
        )
    }

    /// An event in the current phase.
    pub open spec fn phase_updated(
        self,
        prior_in_flight: usize,
        target_bytes_inflight: usize,
        event: BBRv2CongestionEvent,
        params: Params,
    ) -> ProbeBW {
        match self.cycle.phase {
            CyclePhase::NotStarted => self,
            CyclePhase::Up => self.up_updated(
                prior_in_flight,
                target_bytes_inflight,
                event,
                params,
            ),
            CyclePhase::Down => self.down_updated(target_bytes_inflight, event, params),
            CyclePhase::Cruise => self.cruise_updated(target_bytes_inflight, event, params),
            CyclePhase::Refill => self.refill_updated(target_bytes_inflight, event, params),
        }
    }

    /// The state after the phase has handled an event, with the round counted.
    pub open spec fn updated(
        self,
        prior_in_flight: usize,
        event_time: Instant,
        event: BBRv2CongestionEvent,
        target_bytes_inflight: usize,
        params: Params,
    ) -> ProbeBW {
        self.counted(event_time, event).phase_updated(
            prior_in_flight,
            target_bytes_inflight,
            event,
            params,
        )
    }

    /// Whether a mode is PROBE_RTT over this path, with gains of one.
    pub open spec fn handed_to_probe_rtt(self, mode: Mode) -> bool {
        mode matches Mode::ProbeRTT(m) && {
            &&& m.cycle == self.cycle
            &&& m.exit_time is None
            &&& m.model.pacing_gain@ == dyadic::one()
            &&& m.model.cwnd_gain@ == dyadic::one()
            &&& m.model == BBRv2NetworkModel {
                pacing_gain: m.model.pacing_gain,
                cwnd_gain: m.model.cwnd_gain,
                ..self.model
            }
        }
    }

    /// The state with the gains of its phase.
    pub open spec fn with_gains(self, params: Params) -> ProbeBW {
        ProbeBW {
            model: BBRv2NetworkModel {
                pacing_gain: self.cycle.phase.spec_pacing_gain(params),
                cwnd_gain: self.cycle.phase.spec_cwnd_gain(params),
                ..self.model
            },
            ..self
        }
    }

    /// Whether an event leads to a mode: to PROBE_RTT where it ends PROBE_DOWN
    /// and the minimum round-trip time has expired, else to the updated state
    /// with the gains of its phase.
    pub open spec fn leads_to(
        self,
        mode: Mode,
        prior_in_flight: usize,
        event_time: Instant,
        event: BBRv2CongestionEvent,
        target_bytes_inflight: usize,
        params: Params,
    ) -> bool {
        let s = self.updated(prior_in_flight, event_time, event, target_bytes_inflight, params);
        if self.cycle.phase == CyclePhase::Down && s.cycle.phase != CyclePhase::Down
            && s.model.min_rtt_expired(event, params) {
            (ProbeBW { model: s.model.min_rtt_replaced(event), ..s }).handed_to_probe_rtt(mode)
        } else {
            mode == Mode::ProbeBW(s.with_gains(params))
        }
    }

    /// The upper bound on the congestion window: the smaller of the two bounds
    /// on inflight, with headroom in PROBE_CRUISE, and the short-term one alone
    /// where PROBE_UP ignores the other.
    pub open spec fn cwnd_bound(self, params: Params) -> nat {
        let lo = self.model.inflight_lo as nat;
        let hi = if self.cycle.phase == CyclePhase::Cruise {
            self.model.spec_inflight_hi_with_headroom(params)
        } else {
            self.model.inflight_hi as nat
        };
        if self.cycle.phase == CyclePhase::Up && params.probe_up_ignore_inflight_hi || lo <= hi {
            lo
        } else {
            hi
        }
    }
}

/// The number one in double precision.
pub open spec fn double_one() -> (nat, int) {
    (0x10_0000_0000_0000, -52)
}

/// The whole part of a fraction of a number of rounds, in double precision.
pub open spec fn fraction_of_rounds(rounds: nat, fraction: (nat, int)) -> nat {
    dyadic::clamped(
        dyadic::whole(
            dyadic::product(
                dyadic::rounded(rounds, 1, 0, DOUBLE as nat),
                fraction,
                DOUBLE as nat,
            ),
        ),
    )
}

} // verus!
