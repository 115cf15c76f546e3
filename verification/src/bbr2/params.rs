//! The tunable parameters of the modes.

use vstd::prelude::*;

use crate::dyadic::{self, Dyadic, SINGLE};
use crate::time::{Duration, MAX_NANOS};

verus! {

/// How the lower bound on bandwidth is lowered on loss.
#[derive(Clone, Copy, Debug, PartialEq, Eq, Structural)]
pub enum BwLoMode {
    Default,
    MinRttReduction,
    InflightReduction,
    CwndReduction,
}

/// The parameters. Gains and fractions are single-precision numbers.
#[derive(Clone, Copy, Debug)]
pub struct Params {
    pub startup_cwnd_gain: Dyadic,
    pub startup_pacing_gain: Dyadic,
    /// The growth that counts as reaching the full bandwidth.
    pub full_bw_threshold: Dyadic,
    pub drain_cwnd_gain: Dyadic,
    pub drain_pacing_gain: Dyadic,
    /// Whether to probe as often as a Reno flow would.
    pub enable_reno_coexistence: bool,
    /// The most rounds between two probes when coexisting with Reno.
    pub probe_bw_probe_max_rounds: usize,
    pub probe_bw_probe_reno_gain: Dyadic,
    /// The shortest wait between two probes.
    pub probe_bw_probe_base_duration: Duration,
    /// The loss events in a round from which inflight may be too high.
    pub probe_bw_full_loss_count: usize,
    pub probe_bw_probe_up_pacing_gain: Dyadic,
    pub probe_bw_probe_down_pacing_gain: Dyadic,
    pub probe_bw_default_pacing_gain: Dyadic,
    pub probe_bw_cwnd_gain: Dyadic,
    pub probe_bw_up_cwnd_gain: Dyadic,
    /// Whether PROBE_UP leaves the upper bound on inflight alone.
    pub probe_up_ignore_inflight_hi: bool,
    /// The rounds with a queue after which PROBE_UP ends, or zero to end it
    /// on the bytes in flight.
    pub max_probe_up_queue_rounds: usize,
    pub add_ack_height_to_queueing_threshold: bool,
    /// How long a minimum round-trip time stays valid.
    pub probe_rtt_period: Duration,
    pub limit_inflight_hi_by_max_delivered: bool,
    pub use_bytes_delivered_for_inflight_hi: bool,
    pub bw_lo_mode: BwLoMode,
    /// The fraction of the upper bound that cruising leaves unused.
    pub inflight_hi_headroom: Dyadic,
    /// The fraction of inflight whose loss means that inflight is too high.
    pub loss_threshold: Dyadic,
    /// The fraction by which inflight is reduced on loss.
    pub beta: Dyadic,
    /// Whether PROBE_DOWN goes on for longer than a minimum round trip.
    pub disable_probe_down_early_exit: bool,
}

impl Params {
    /// Whether the gains are single-precision numbers, and the wait between two
    /// probes leaves room for its extra 500 microseconds.
    pub open spec fn wf(self) -> bool {
        &&& self.startup_cwnd_gain.wf(SINGLE as nat)
        &&& self.startup_pacing_gain.wf(SINGLE as nat)
        &&& self.full_bw_threshold.wf(SINGLE as nat)
        &&& self.drain_cwnd_gain.wf(SINGLE as nat)
        &&& self.drain_pacing_gain.wf(SINGLE as nat)
        &&& self.probe_bw_probe_reno_gain.wf(SINGLE as nat)
        &&& self.probe_bw_probe_up_pacing_gain.wf(SINGLE as nat)
        &&& self.probe_bw_probe_down_pacing_gain.wf(SINGLE as nat)
        &&& self.probe_bw_default_pacing_gain.wf(SINGLE as nat)
        &&& self.probe_bw_cwnd_gain.wf(SINGLE as nat)
        &&& self.probe_bw_up_cwnd_gain.wf(SINGLE as nat)
        &&& self.inflight_hi_headroom.wf(SINGLE as nat)
        &&& self.loss_threshold.wf(SINGLE as nat)
        &&& self.beta.wf(SINGLE as nat)
        &&& self.probe_bw_probe_base_duration.nanos + 500_000 <= MAX_NANOS
    }
}

impl Params {
    /// Whether the parameters are valid.
    pub fn is_valid(&self) -> (b: bool)
        ensures
            b == self.wf(),
    {
        self.startup_cwnd_gain.is_single() && self.startup_pacing_gain.is_single()
            && self.full_bw_threshold.is_single() && self.drain_cwnd_gain.is_single()
            && self.drain_pacing_gain.is_single() && self.probe_bw_probe_reno_gain.is_single()
            && self.probe_bw_probe_up_pacing_gain.is_single()
            && self.probe_bw_probe_down_pacing_gain.is_single()
            && self.probe_bw_default_pacing_gain.is_single() && self.probe_bw_cwnd_gain.is_single()
            && self.probe_bw_up_cwnd_gain.is_single() && self.inflight_hi_headroom.is_single()
            && self.loss_threshold.is_single() && self.beta.is_single()
            && self.probe_bw_probe_base_duration.nanos <= MAX_NANOS - 500_000
    }
}

impl Default for Params {
    fn default() -> (p: Params)
        ensures
            p.wf(),
            p.startup_cwnd_gain@ == dyadic::rounded(2, 1, 0, 24),
            p.startup_pacing_gain@ == dyadic::rounded(2773, 1000, 0, 24),
            p.full_bw_threshold@ == dyadic::rounded(5, 4, 0, 24),
            p.drain_cwnd_gain@ == dyadic::rounded(2, 1, 0, 24),
            p.drain_pacing_gain@ == dyadic::quotient(
                dyadic::one(),
                dyadic::rounded(2885, 1000, 0, 24),
                24,
            ),
            p.enable_reno_coexistence,
            p.probe_bw_probe_max_rounds == 63,
            p.probe_bw_probe_reno_gain@ == dyadic::rounded(0, 1, 0, 24),
            p.probe_bw_probe_base_duration.nanos == 2_000_000_000,
            p.probe_bw_full_loss_count == 2,
            p.probe_bw_probe_up_pacing_gain@ == dyadic::rounded(5, 4, 0, 24),
            p.probe_bw_probe_down_pacing_gain@ == dyadic::rounded(9, 10, 0, 24),
            p.probe_bw_default_pacing_gain@ == dyadic::rounded(1, 1, 0, 24),
            p.probe_bw_cwnd_gain@ == dyadic::rounded(9, 4, 0, 24),
            p.probe_bw_up_cwnd_gain@ == dyadic::rounded(9, 4, 0, 24),
            !p.probe_up_ignore_inflight_hi,
            p.max_probe_up_queue_rounds == 2,
            !p.add_ack_height_to_queueing_threshold,
            p.probe_rtt_period.nanos == 10_000_000_000,
            !p.limit_inflight_hi_by_max_delivered,
            p.use_bytes_delivered_for_inflight_hi,
            p.bw_lo_mode == BwLoMode::InflightReduction,
            p.inflight_hi_headroom@ == dyadic::rounded(15, 100, 0, 24),
            p.loss_threshold@ == dyadic::rounded(15, 1000, 0, 24),
            p.beta@ == dyadic::rounded(3, 10, 0, 24),
            !p.disable_probe_down_early_exit,
    {
        let two = Dyadic::single(2, 1);
        let unit = Dyadic::one();
        let slow = Dyadic::single(2885, 1000);
        proof {
            dyadic::lemma_quotient_exponent(dyadic::one(), slow@, 24);
        }
        Params {
            startup_cwnd_gain: two,
            startup_pacing_gain: Dyadic::single(2773, 1000),
            full_bw_threshold: Dyadic::single(5, 4),
            drain_cwnd_gain: two,
            drain_pacing_gain: unit.over(slow, SINGLE),
            enable_reno_coexistence: true,
            probe_bw_probe_max_rounds: 63,
            probe_bw_probe_reno_gain: Dyadic::single(0, 1),
            probe_bw_probe_base_duration: Duration::from_millis(2000),
            probe_bw_full_loss_count: 2,
            probe_bw_probe_up_pacing_gain: Dyadic::single(5, 4),
            probe_bw_probe_down_pacing_gain: Dyadic::single(9, 10),
            probe_bw_default_pacing_gain: Dyadic::single(1, 1),
            probe_bw_cwnd_gain: Dyadic::single(9, 4),
            probe_bw_up_cwnd_gain: Dyadic::single(9, 4),
            probe_up_ignore_inflight_hi: false,
            max_probe_up_queue_rounds: 2,
            add_ack_height_to_queueing_threshold: false,
            probe_rtt_period: Duration::from_millis(10000),
            limit_inflight_hi_by_max_delivered: false,
            use_bytes_delivered_for_inflight_hi: true,
            bw_lo_mode: BwLoMode::InflightReduction,
            inflight_hi_headroom: Dyadic::single(15, 100),
            loss_threshold: Dyadic::single(15, 1000),
            beta: Dyadic::single(3, 10),
            disable_probe_down_early_exit: false,
        }
    }
}

} // verus!
