//! What a congestion event reports to the modes, and what they report back.

use vstd::prelude::*;

use crate::bbr2::bandwidth::Bandwidth;
use crate::time::{Duration, Instant};

verus! {

/// The counters of the connection when a packet was sent.
#[derive(Clone, Copy, Debug, PartialEq, Eq, Structural)]
pub struct SendTimeState {
    pub is_valid: bool,
    pub is_app_limited: bool,
    pub total_bytes_sent: usize,
    pub total_bytes_acked: usize,
    pub total_bytes_lost: usize,
    pub bytes_in_flight: usize,
}

impl Default for SendTimeState {
    fn default() -> (s: SendTimeState)
        ensures
            !s.is_valid,
            !s.is_app_limited,
            s.total_bytes_sent == 0,
            s.total_bytes_acked == 0,
            s.total_bytes_lost == 0,
            s.bytes_in_flight == 0,
    {
        SendTimeState {
            is_valid: false,
            is_app_limited: false,
            total_bytes_sent: 0,
            total_bytes_acked: 0,
            total_bytes_lost: 0,
            bytes_in_flight: 0,
        }
    }
}

/// A congestion event: one batch of acknowledged and lost packets.
#[derive(Clone, Copy, Debug, PartialEq, Eq, Structural)]
pub struct BBRv2CongestionEvent {
    pub event_time: Instant,
    /// The congestion window before the event.
    pub prior_cwnd: usize,
    /// The bytes in flight before the event.
    pub prior_bytes_in_flight: usize,
    /// The bytes in flight after the event.
    pub bytes_in_flight: usize,
    pub bytes_acked: usize,
    pub bytes_lost: usize,
    /// Whether the event ends a round trip.
    pub end_of_round_trip: bool,
    pub is_probing_for_bandwidth: bool,
    /// The largest bandwidth sample of the event.
    pub sample_max_bandwidth: Option<Bandwidth>,
    /// The smallest round-trip sample of the event.
    pub sample_min_rtt: Option<Duration>,
    /// The counters when the last acknowledged packet was sent.
    pub last_packet_send_state: SendTimeState,
}

impl BBRv2CongestionEvent {
    /// Whether the round-trip sample fits in 64 bits of nanoseconds.
    pub open spec fn wf(self) -> bool {
        self.sample_min_rtt is Some ==> self.sample_min_rtt->0.nanos <= u64::MAX
    }
}

/// The bounds within which a mode holds the congestion window.
#[derive(Debug, PartialEq, Eq)]
pub struct Limits<T> {
    pub lo: T,
    pub hi: T,
}

impl Limits<usize> {
    pub fn no_greater_than(hi: usize) -> (limits: Limits<usize>)
        ensures
            limits.lo == 0,
            limits.hi == hi,
    {
        Limits { lo: 0, hi }
    }
}

} // verus!
