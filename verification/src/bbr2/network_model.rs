//! The model of the path that the modes read and adjust.

use vstd::prelude::*;

use crate::bbr2::bandwidth::{self, Bandwidth};
use crate::bbr2::event::BBRv2CongestionEvent;
use crate::bbr2::params::Params;
use crate::dyadic::{self, Dyadic, SINGLE};
use crate::time::{Duration, Instant};

verus! {

/// The size of a packet that the modes reckon with.
pub const DEFAULT_MSS: usize = 1300;

/// The upper bound on inflight before any probe: an initial window of ten
/// packets. It is finite, so that PROBE_UP can grow it.
pub const INITIAL_INFLIGHT_HI: usize = 13000;

/// What is known of the path.
#[derive(Debug)]
pub struct BBRv2NetworkModel {
    /// The name under which the connection logs.
    pub logging_name: String,
    pub total_bytes_acked: usize,
    /// The largest burst of acknowledged bytes beyond the expected rate.
    pub max_ack_height: usize,
    pub round_trip_count: usize,
    pub last_sent_packet: u64,
    /// The packet whose acknowledgement ends the round trip.
    pub end_of_round_trip: Option<u64>,
    /// The largest bandwidth of the previous probing cycle.
    pub max_bandwidth_before: Bandwidth,
    /// The largest bandwidth of the current probing cycle.
    pub max_bandwidth_now: Bandwidth,
    pub min_rtt: Duration,
    /// When the minimum round-trip time was measured.
    pub min_rtt_timestamp: Instant,
    pub bytes_lost_in_round: usize,
    pub loss_events_in_round: usize,
    pub max_bytes_delivered_in_round: usize,
    pub min_bytes_in_flight_in_round: usize,
    /// The lower bound on bandwidth, where one is set.
    pub bandwidth_lo: Option<Bandwidth>,
    /// The short-term bound on inflight, or `usize::MAX` where none is set.
    pub inflight_lo: usize,
    /// The long-term upper bound on inflight.
    pub inflight_hi: usize,
    pub cwnd_gain: Dyadic,
    pub pacing_gain: Dyadic,
    /// The consecutive rounds in which a queue was seen.
    pub rounds_with_queueing: usize,
}

impl BBRv2NetworkModel {
    /// Whether the gains are single-precision numbers, and the minimum
    /// round-trip time fits in 64 bits of nanoseconds.
    pub open spec fn wf(self) -> bool {
        &&& self.cwnd_gain.wf(SINGLE as nat)
        &&& self.pacing_gain.wf(SINGLE as nat)
        &&& self.min_rtt.nanos <= u64::MAX
    }

    /// The largest bandwidth of the last two probing cycles.
    pub open spec fn spec_max_bandwidth(self) -> Bandwidth {
        if self.max_bandwidth_before.bits_per_second >= self.max_bandwidth_now.bits_per_second {
            self.max_bandwidth_before
        } else {
            self.max_bandwidth_now
        }
    }

    /// The bytes that the path holds at its largest bandwidth.
    pub open spec fn spec_bdp(self) -> nat {
        bandwidth::bytes_in(self.spec_max_bandwidth(), self.min_rtt)
    }

    /// The model at the start of a new round trip.
    pub open spec fn restarted(self) -> BBRv2NetworkModel {
        BBRv2NetworkModel {
            bytes_lost_in_round: 0,
            loss_events_in_round: 0,
            max_bytes_delivered_in_round: 0,
            min_bytes_in_flight_in_round: usize::MAX,
            end_of_round_trip: Some(self.last_sent_packet),
            rounds_with_queueing: 0,
            ..self
        }
    }

    /// The model with the bandwidth of a finished cycle moved back, if the
    /// cycle measured any.
    pub open spec fn filter_advanced(self) -> BBRv2NetworkModel {
        if self.max_bandwidth_now.bits_per_second == 0 {
            self
        } else {
            BBRv2NetworkModel {
                max_bandwidth_before: self.max_bandwidth_now,
                max_bandwidth_now: Bandwidth { bits_per_second: 0 },
                ..self
            }
        }
    }

    /// The upper bound on inflight, less the headroom left to other flows.
    pub open spec fn spec_inflight_hi_with_headroom(self, params: Params) -> nat {
        let headroom = dyadic::scaled(self.inflight_hi as nat, params.inflight_hi_headroom@);
        if headroom <= self.inflight_hi {
            (self.inflight_hi - headroom) as nat
        } else {
            0
        }
    }

    /// Whether the round lost enough of what was in flight to call that too
    /// much.
    pub open spec fn inflight_too_high(
        self,
        event: BBRv2CongestionEvent,
        max_loss_events: usize,
        params: Params,
    ) -> bool {
        let inflight = event.last_packet_send_state.bytes_in_flight as nat;
        &&& event.last_packet_send_state.is_valid
        &&& self.loss_events_in_round >= max_loss_events
        &&& inflight > 0
        &&& self.bytes_lost_in_round > 0
        &&& self.bytes_lost_in_round > dyadic::scaled(inflight, params.loss_threshold@)
    }

    /// Whether the minimum round-trip time has expired and can be replaced.
    pub open spec fn min_rtt_expired(self, event: BBRv2CongestionEvent, params: Params) -> bool {
        &&& event.event_time.nanos >= self.min_rtt_timestamp.nanos + params.probe_rtt_period.nanos
        &&& event.sample_min_rtt is Some
    }

    /// The model with the minimum round-trip time replaced by a sample.
    pub open spec fn min_rtt_replaced(self, event: BBRv2CongestionEvent) -> BBRv2NetworkModel {
        BBRv2NetworkModel {
            min_rtt: event.sample_min_rtt->0,
            min_rtt_timestamp: event.event_time,
            ..self
        }
    }

    /// The bytes in flight from which a round counts as one with a queue.
    pub open spec fn queue_target(self, gain: Dyadic) -> nat {
        let a = dyadic::scaled(self.spec_bdp(), gain@);
        let b = dyadic::clamped(self.spec_bdp() + 2 * DEFAULT_MSS as nat);
        if a >= b {
            a
        } else {
            b
        }
    }

    /// The model after the count of rounds with a queue is brought up to date.
    pub open spec fn queue_checked(self, gain: Dyadic) -> BBRv2NetworkModel {
        BBRv2NetworkModel {
            rounds_with_queueing: if self.min_bytes_in_flight_in_round < self.queue_target(gain) {
                0
            } else {
                (self.rounds_with_queueing + 1) as usize
            },
            ..self
        }
    }

    pub fn new(
        params: &Params,
        initial_rtt: Duration,
        logging_name: String,
        now: Instant,
    ) -> (model: BBRv2NetworkModel)
        requires
            params.wf(),
            initial_rtt.nanos <= u64::MAX,
        ensures
            model.wf(),
            model == (BBRv2NetworkModel {
                logging_name,
                total_bytes_acked: 0,
                max_ack_height: 0,
                round_trip_count: 0,
                last_sent_packet: 0,
                end_of_round_trip: None,
                max_bandwidth_before: Bandwidth { bits_per_second: 0 },
                max_bandwidth_now: Bandwidth { bits_per_second: 0 },
                min_rtt: initial_rtt,
                min_rtt_timestamp: now,
                bytes_lost_in_round: 0,
                loss_events_in_round: 0,
                max_bytes_delivered_in_round: 0,
                min_bytes_in_flight_in_round: usize::MAX,
                bandwidth_lo: None,
                inflight_lo: usize::MAX,
                inflight_hi: INITIAL_INFLIGHT_HI,
                cwnd_gain: params.startup_cwnd_gain,
                pacing_gain: params.startup_pacing_gain,
                rounds_with_queueing: 0,
            }),
    {
        BBRv2NetworkModel {
            logging_name,
            total_bytes_acked: 0,
            max_ack_height: 0,
            round_trip_count: 0,
            last_sent_packet: 0,
            end_of_round_trip: None,
            max_bandwidth_before: Bandwidth::zero(),
            max_bandwidth_now: Bandwidth::zero(),
            min_rtt: initial_rtt,
            min_rtt_timestamp: now,
            bytes_lost_in_round: 0,
            loss_events_in_round: 0,
            max_bytes_delivered_in_round: 0,
            min_bytes_in_flight_in_round: usize::MAX,
            bandwidth_lo: None,
            inflight_lo: usize::MAX,
            inflight_hi: INITIAL_INFLIGHT_HI,
            cwnd_gain: params.startup_cwnd_gain,
            pacing_gain: params.startup_pacing_gain,
            rounds_with_queueing: 0,
        }
    }

    pub fn max_bandwidth(&self) -> (b: Bandwidth)
        ensures
            b == self.spec_max_bandwidth(),
    {
        if self.max_bandwidth_before.bits_per_second >= self.max_bandwidth_now.bits_per_second {
            self.max_bandwidth_before
        } else {
            self.max_bandwidth_now
        }
    }

    /// Whether the model is valid.
    pub fn is_valid(&self) -> (b: bool)
        ensures
            b == self.wf(),
    {
        self.cwnd_gain.is_single() && self.pacing_gain.is_single() && self.min_rtt.nanos
            <= u64::MAX as u128
    }

    /// The bytes that the path holds at its largest bandwidth.
    pub fn bdp0(&self) -> (bytes: usize)
        requires
            self.min_rtt.nanos <= u64::MAX,
        ensures
            bytes == self.spec_bdp(),
    {
        self.bdp1(self.max_bandwidth())
    }

    /// The bytes that the path holds at a given bandwidth.
    pub fn bdp1(&self, bandwidth: Bandwidth) -> (bytes: usize)
        requires
            self.min_rtt.nanos <= u64::MAX,
        ensures
            bytes == bandwidth::bytes_in(bandwidth, self.min_rtt),
    {
        bandwidth.to_bytes_per_period(self.min_rtt)
    }

    /// The bytes beyond the bandwidth-delay product that make a queue.
    pub fn queueing_threshold_extra_bytes(&self) -> (bytes: usize)
        ensures
            bytes == 2 * DEFAULT_MSS,
    {
        2 * DEFAULT_MSS
    }

    /// The upper bound on inflight before any probe.
    pub fn inflight_hi_default(&self) -> (bytes: usize)
        ensures
            bytes == INITIAL_INFLIGHT_HI,
    {
        INITIAL_INFLIGHT_HI
    }

    pub fn inflight_hi_with_headroom(&self, params: &Params) -> (bytes: usize)
        requires
            params.wf(),
        ensures
            bytes == self.spec_inflight_hi_with_headroom(*params),
    {
        let headroom = params.inflight_hi_headroom.scale(self.inflight_hi);
        if headroom <= self.inflight_hi {
            self.inflight_hi - headroom
        } else {
            0
        }
    }

    pub fn is_inflight_too_high(
        &self,
        congestion_event: &BBRv2CongestionEvent,
        max_loss_events: usize,
        params: &Params,
    ) -> (b: bool)
        requires
            params.wf(),
        ensures
            b == self.inflight_too_high(*congestion_event, max_loss_events, *params),
    {
        let send_state = congestion_event.last_packet_send_state;
        if !send_state.is_valid || self.loss_events_in_round < max_loss_events {
            return false;
        }
        if send_state.bytes_in_flight == 0 || self.bytes_lost_in_round == 0 {
            return false;
        }
        self.bytes_lost_in_round > params.loss_threshold.scale(send_state.bytes_in_flight)
    }

    /// Replaces an expired minimum round-trip time by the sample of the
    /// event, and tells whether it did.
    pub fn maybe_expire_min_rtt(
        &mut self,
        congestion_event: &BBRv2CongestionEvent,
        params: &Params,
    ) -> (expired: bool)
        ensures
            expired == old(self).min_rtt_expired(*congestion_event, *params),
            expired ==> *final(self) == old(self).min_rtt_replaced(*congestion_event),
            !expired ==> *final(self) == *old(self),
    {
        let now = congestion_event.event_time.nanos as u128;
        let set = self.min_rtt_timestamp.nanos as u128;
        if now < set || now - set < params.probe_rtt_period.nanos {
            return false;
        }
        match congestion_event.sample_min_rtt {
            Some(rtt) => {
                self.min_rtt = rtt;
                self.min_rtt_timestamp = congestion_event.event_time;
                true
            },
            None => false,
        }
    }

    /// Moves the time at which the minimum round-trip time was measured.
    pub fn postpone_min_rtt_timestamp(&mut self, duration: Duration)
        requires
            old(self).min_rtt_timestamp.nanos + duration.nanos <= u64::MAX,
        ensures
            *final(self) == (BBRv2NetworkModel {
                min_rtt_timestamp: Instant {
                    nanos: (old(self).min_rtt_timestamp.nanos + duration.nanos) as u64,
                },
                ..*old(self)
            }),
    {
        self.min_rtt_timestamp = self.min_rtt_timestamp.plus(duration);
    }

    pub fn advance_max_bandwidth_filter(&mut self)
        ensures
            *final(self) == old(self).filter_advanced(),
    {
        if self.max_bandwidth_now.bits_per_second == 0 {
            return;
        }
        self.max_bandwidth_before = self.max_bandwidth_now;
        self.max_bandwidth_now = Bandwidth::zero();
    }

    /// Starts a new round trip before the current one is over.
    pub fn restart_round_early(&mut self)
        ensures
            *final(self) == old(self).restarted(),
    {
        self.bytes_lost_in_round = 0;
        self.loss_events_in_round = 0;
        self.max_bytes_delivered_in_round = 0;
        self.min_bytes_in_flight_in_round = usize::MAX;
        self.end_of_round_trip = Some(self.last_sent_packet);
        self.rounds_with_queueing = 0;
    }

    /// Lowers the short-term bound on inflight to a cap, where one is set.
    pub fn cap_inflight_lo(&mut self, cap: usize)
        ensures
            *final(self) == (BBRv2NetworkModel {
                inflight_lo: if old(self).inflight_lo != usize::MAX && cap < old(self).inflight_lo {
                    cap
                } else {
                    old(self).inflight_lo
                },
                ..*old(self)
            }),
    {
        if self.inflight_lo != usize::MAX && cap < self.inflight_lo {
            self.inflight_lo = cap;
        }
    }

    /// Brings the count of rounds with a queue up to date.
    pub fn check_persistent_queue(&mut self, target_gain: Dyadic)
        requires
            old(self).min_rtt.nanos <= u64::MAX,
            target_gain.wf(24),
            old(self).rounds_with_queueing < usize::MAX,
        ensures
            *final(self) == old(self).queue_checked(target_gain),
    {
        let bdp = self.bdp0();
        let scaled = target_gain.scale(bdp);
        let padded = bdp.saturating_add(self.queueing_threshold_extra_bytes());
        let target = if scaled >= padded {
            scaled
        } else {
            padded
        };
        if self.min_bytes_in_flight_in_round < target {
            self.rounds_with_queueing = 0;
        } else {
            self.rounds_with_queueing = self.rounds_with_queueing + 1;
        }
    }

    pub fn inflight_hi(&self) -> (v: usize)
        ensures
            v == self.inflight_hi,
    {
        self.inflight_hi
    }

    pub fn inflight_lo(&self) -> (v: usize)
        ensures
            v == self.inflight_lo,
    {
        self.inflight_lo
    }

    pub fn total_bytes_acked(&self) -> (v: usize)
        ensures
            v == self.total_bytes_acked,
    {
        self.total_bytes_acked
    }

    pub fn min_rtt(&self) -> (v: Duration)
        ensures
            v == self.min_rtt,
    {
        self.min_rtt
    }

    pub fn rounds_with_queueing(&self) -> (v: usize)
        ensures
            v == self.rounds_with_queueing,
    {
        self.rounds_with_queueing
    }

    pub fn max_ack_height(&self) -> (v: usize)
        ensures
            v == self.max_ack_height,
    {
        self.max_ack_height
    }

    pub fn max_bytes_delivered_in_round(&self) -> (v: usize)
        ensures
            v == self.max_bytes_delivered_in_round,
    {
        self.max_bytes_delivered_in_round
    }

    pub fn set_inflight_hi(&mut self, v: usize)
        ensures
            *final(self) == (BBRv2NetworkModel { inflight_hi: v, ..*old(self) }),
    {
        self.inflight_hi = v;
    }

    pub fn set_total_acked_bytes(&mut self, v: usize)
        ensures
            *final(self) == (BBRv2NetworkModel { total_bytes_acked: v, ..*old(self) }),
    {
        self.total_bytes_acked = v;
    }

    pub fn set_loss_events_in_round(&mut self, v: usize)
        ensures
            *final(self) == (BBRv2NetworkModel { loss_events_in_round: v, ..*old(self) }),
    {
        self.loss_events_in_round = v;
    }

    pub fn set_pacing_gain(&mut self, v: Dyadic)
        ensures
            *final(self) == (BBRv2NetworkModel { pacing_gain: v, ..*old(self) }),
    {
        self.pacing_gain = v;
    }

    pub fn set_cwnd_gain(&mut self, v: Dyadic)
        ensures
            *final(self) == (BBRv2NetworkModel { cwnd_gain: v, ..*old(self) }),
    {
        self.cwnd_gain = v;
    }

    pub fn clear_bandwidth_lo(&mut self)
        ensures
            *final(self) == (BBRv2NetworkModel { bandwidth_lo: None, ..*old(self) }),
    {
        self.bandwidth_lo = None;
    }

    pub fn clear_inflight_lo(&mut self)
        ensures
            *final(self) == (BBRv2NetworkModel { inflight_lo: usize::MAX, ..*old(self) }),
    {
        self.inflight_lo = usize::MAX;
    }
}

} // verus!
