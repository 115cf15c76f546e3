//! What the functions of PROBE_BW do, each told by what a call is given and
//! what it leaves behind.

use vstd::arithmetic::div_mod::*;
use vstd::arithmetic::power2::*;
use vstd::prelude::*;

use crate::bbr2::cycle::{Cycle, CyclePhase};
use crate::bbr2::event::{BBRv2CongestionEvent, Limits};
use crate::bbr2::network_model::{BBRv2NetworkModel, DEFAULT_MSS, INITIAL_INFLIGHT_HI};
use crate::bbr2::params::{BwLoMode, Params};
use crate::bbr2::probe_bw::{AdaptUpperBoundsResult, ProbeBW};
use crate::bbr2::transitions;
use crate::dyadic;
use crate::time::{Duration, Instant};

verus! {

/// The smaller of two numbers.
pub open spec fn lesser(a: nat, b: nat) -> nat {
    if a <= b {
        a
    } else {
        b
    }
}

/// Whether a path is at the start of a round trip: nothing of the round has
/// been counted, and it ends with the packet sent last.
pub open spec fn in_a_new_round(m: BBRv2NetworkModel) -> bool {
    &&& m.bytes_lost_in_round == 0
    &&& m.loss_events_in_round == 0
    &&& m.max_bytes_delivered_in_round == 0
    &&& m.min_bytes_in_flight_in_round == usize::MAX
    &&& m.rounds_with_queueing == 0
    &&& m.end_of_round_trip == Some(m.last_sent_packet)
}

/// Whether what is known of the path beyond the round, its bounds and its gains
/// is the same.
pub open spec fn same_measurements(a: BBRv2NetworkModel, b: BBRv2NetworkModel) -> bool {
    &&& a.logging_name == b.logging_name
    &&& a.total_bytes_acked == b.total_bytes_acked
    &&& a.max_ack_height == b.max_ack_height
    &&& a.round_trip_count == b.round_trip_count
    &&& a.last_sent_packet == b.last_sent_packet
    &&& a.min_rtt == b.min_rtt
    &&& a.min_rtt_timestamp == b.min_rtt_timestamp
}

/// Whether the bandwidths are the same.
pub open spec fn same_bandwidths(a: BBRv2NetworkModel, b: BBRv2NetworkModel) -> bool {
    a.max_bandwidth_before == b.max_bandwidth_before && a.max_bandwidth_now == b.max_bandwidth_now
}

/// Whether the gains are the same.
pub open spec fn same_gains(a: BBRv2NetworkModel, b: BBRv2NetworkModel) -> bool {
    a.cwnd_gain == b.cwnd_gain && a.pacing_gain == b.pacing_gain
}

/// Whether the counts of the round are the same.
pub open spec fn same_round(a: BBRv2NetworkModel, b: BBRv2NetworkModel) -> bool {
    &&& a.bytes_lost_in_round == b.bytes_lost_in_round
    &&& a.loss_events_in_round == b.loss_events_in_round
    &&& a.max_bytes_delivered_in_round == b.max_bytes_delivered_in_round
    &&& a.min_bytes_in_flight_in_round == b.min_bytes_in_flight_in_round
    &&& a.rounds_with_queueing == b.rounds_with_queueing
    &&& a.end_of_round_trip == b.end_of_round_trip
}

/// Whether the bounds on inflight and bandwidth are the same.
pub open spec fn same_bounds(a: BBRv2NetworkModel, b: BBRv2NetworkModel) -> bool {
    a.bandwidth_lo == b.bandwidth_lo && a.inflight_lo == b.inflight_lo && a.inflight_hi
        == b.inflight_hi
}

/// Whether the bandwidth of a finished cycle has been moved back: what the
/// cycle measured is now the earlier measurement, if it measured anything.
pub open spec fn bandwidth_moved_back(before: BBRv2NetworkModel, after: BBRv2NetworkModel) -> bool {
    &&& before.max_bandwidth_now.bits_per_second > 0 ==> after.max_bandwidth_before
        == before.max_bandwidth_now && after.max_bandwidth_now.bits_per_second == 0
    &&& before.max_bandwidth_now.bits_per_second == 0 ==> same_bandwidths(before, after)
}

/// The bytes that were in flight when the sampled packet was sent.
pub open spec fn flown(
    m: BBRv2NetworkModel,
    event: BBRv2CongestionEvent,
    params: Params,
) -> int {
    if params.use_bytes_delivered_for_inflight_hi {
        m.total_bytes_acked - event.last_packet_send_state.total_bytes_acked
    } else {
        event.last_packet_send_state.bytes_in_flight as int
    }
}

/// Whether a round has lost more of what was in flight than is tolerated.
pub open spec fn lost_too_much(
    m: BBRv2NetworkModel,
    event: BBRv2CongestionEvent,
    params: Params,
) -> bool {
    let inflight = event.last_packet_send_state.bytes_in_flight;
    &&& m.loss_events_in_round >= params.probe_bw_full_loss_count
    &&& inflight > 0
    &&& m.bytes_lost_in_round > dyadic::scaled(inflight as nat, params.loss_threshold@)
}

/// The part of a target that a loss leaves: one less the reduction of it, and
/// none where the reduction is all or more.
pub open spec fn target_left(target: nat, params: Params) -> nat {
    if dyadic::less(dyadic::one(), params.beta@) {
        0
    } else {
        dyadic::scaled(target, dyadic::difference(dyadic::one(), params.beta@, 24))
    }
}

/// Nothing of a number is nothing.
proof fn lemma_scaled_by_nothing(x: nat)
    ensures
        dyadic::scaled(x, (0, 0)) == 0,
{
    lemma2_to64();
    let m = dyadic::rounded(x, 1, 0, 24).0;
    assert(m * 0 == 0);
    assert(0 * pow2(0) == 0) by (nonlinear_arith);
}

/// The result of adapting the upper bound says why: the sample is not valid,
/// the probe lost too much, the bound was never set, or all is well.
pub proof fn adapting_says_why(
    s: &mut ProbeBW,
    target: usize,
    event: BBRv2CongestionEvent,
    params: Params,
    result: AdaptUpperBoundsResult,
)
    requires
        call_ensures(
            ProbeBW::maybe_adapt_upper_bounds,
            (s, target, &event, &params),
            result,
        ),
    ensures
        (result is NotAdaptedInvalidSample) == !event.last_packet_send_state.is_valid,
        (result is AdaptedProbedTooHigh) == (event.last_packet_send_state.is_valid
            && old(s).cycle.is_sample_from_probing && lost_too_much(old(s).model, event, params)),
        (result is NotAdaptedInflightHighNotSet) == (event.last_packet_send_state.is_valid
            && !old(s).cycle.is_sample_from_probing && old(s).model.inflight_hi
            == INITIAL_INFLIGHT_HI),
{
}

/// After a probe that lost too much, the upper bound is no smaller than what
/// was in flight when the sampled packet was sent, nor than what the loss
/// leaves of the target, nor, where so configured, than the most delivered in a
/// round; and it is one of these. An app-limited sample leaves the bound alone,
/// unless PROBE_UP goes by rounds with a queue.
pub proof fn failed_probe_sets_the_bound(
    s: &mut ProbeBW,
    target: usize,
    event: BBRv2CongestionEvent,
    params: Params,
    result: AdaptUpperBoundsResult,
)
    requires
        call_ensures(
            ProbeBW::maybe_adapt_upper_bounds,
            (s, target, &event, &params),
            result,
        ),
        result is AdaptedProbedTooHigh,
    ensures
        (!event.last_packet_send_state.is_app_limited || params.max_probe_up_queue_rounds > 0)
            && flown(old(s).model, event, params) >= 0 ==> {
            let hi = final(s).model.inflight_hi;
            let most = old(s).model.max_bytes_delivered_in_round;
            &&& hi >= flown(old(s).model, event, params)
            &&& hi >= target_left(target as nat, params)
            &&& params.limit_inflight_hi_by_max_delivered ==> hi >= most
            &&& hi == flown(old(s).model, event, params) || hi == target_left(
                target as nat,
                params,
            ) || (params.limit_inflight_hi_by_max_delivered && hi == most)
        },
        event.last_packet_send_state.is_app_limited && params.max_probe_up_queue_rounds == 0
            ==> final(s).model.inflight_hi == old(s).model.inflight_hi,
        !final(s).cycle.is_sample_from_probing,
{
    lemma_scaled_by_nothing(target as nat);
}

/// Adapting changes the upper bound, and whether samples are of a probe, and
/// nothing else. A sample of no probe raises a bound that was set to what was
/// in flight, and never lowers it; any other sample that is not of a failed
/// probe changes nothing.
pub proof fn samples_raise_the_bound(
    s: &mut ProbeBW,
    target: usize,
    event: BBRv2CongestionEvent,
    params: Params,
    result: AdaptUpperBoundsResult,
)
    requires
        call_ensures(
            ProbeBW::maybe_adapt_upper_bounds,
            (s, target, &event, &params),
            result,
        ),
    ensures
        *final(s) == (ProbeBW {
            model: BBRv2NetworkModel {
                inflight_hi: final(s).model.inflight_hi,
                ..old(s).model
            },
            cycle: Cycle {
                is_sample_from_probing: final(s).cycle.is_sample_from_probing,
                ..old(s).cycle
            },
        }),
        !(result is AdaptedProbedTooHigh) ==> final(s).cycle == old(s).cycle,
        result is AdaptedOk && !old(s).cycle.is_sample_from_probing && flown(
            old(s).model,
            event,
            params,
        ) >= 0 ==> {
            let hi = final(s).model.inflight_hi;
            &&& hi >= old(s).model.inflight_hi && hi >= flown(old(s).model, event, params)
            &&& hi == old(s).model.inflight_hi || hi == flown(old(s).model, event, params)
        },
        result is NotAdaptedInvalidSample || result is NotAdaptedInflightHighNotSet || (
        result is AdaptedOk && old(s).cycle.is_sample_from_probing) ==> *final(s) == *old(s),
{
}

/// Entering PROBE_DOWN starts a cycle: its times, its rounds and its wait begin
/// anew, with how the last probe ended, and a new round begins. What was being
/// probed stays as it was, and so does what is known of the path, save that the
/// lower bound on bandwidth is lifted unless it is kept by default.
pub proof fn down_starts_a_cycle(
    s: &mut ProbeBW,
    probed_too_high: bool,
    stopped_risky_probe: bool,
    now: Instant,
    params: Params,
)
    requires
        params.wf(),
        call_ensures(
            ProbeBW::enter_probe_down,
            (s, probed_too_high, stopped_risky_probe, now, &params),
            (),
        ),
    ensures
        ({
            let b = old(s).cycle;
            let a = final(s).cycle;
            &&& a.phase == CyclePhase::Down
            &&& a.start_time == now && a.phase_start_time == now
            &&& a.rounds_in_phase == 0 && a.rounds_since_probe == 0
            &&& a.probe_wait_time is Some && a.probe_wait_time->0.nanos
                == params.probe_bw_probe_base_duration.nanos + 500_000
            &&& a.probe_up_bytes is None
            &&& !a.probe_up_app_limited_since_inflight_hi_limited && !a.has_advanced_max_bw
            &&& a.last_cycle_probed_too_high == probed_too_high
            &&& a.last_cycle_stopped_risky_probe == stopped_risky_probe
            &&& a.probe_up_rounds == b.probe_up_rounds && a.probe_up_acked == b.probe_up_acked
            &&& a.is_sample_from_probing == b.is_sample_from_probing
        }),
        ({
            let b = old(s).model;
            let a = final(s).model;
            &&& in_a_new_round(a)
            &&& same_measurements(a, b) && same_bandwidths(a, b) && same_gains(a, b)
            &&& a.inflight_lo == b.inflight_lo && a.inflight_hi == b.inflight_hi
            &&& params.bw_lo_mode != BwLoMode::Default ==> a.bandwidth_lo is None
            &&& params.bw_lo_mode == BwLoMode::Default ==> a.bandwidth_lo == b.bandwidth_lo
        }),
{
}

/// Entering PROBE_CRUISE starts the phase and ends the probe's samples. A
/// short-term bound is brought down to the upper bound. Where PROBE_DOWN is left
/// for it, the bandwidth of the cycle is moved back, once.
pub proof fn cruise_starts_under_the_bound(s: &mut ProbeBW, now: Instant)
    requires
        call_ensures(ProbeBW::enter_probe_cruise, (s, now), ()),
    ensures
        ({
            let b = *old(s);
            let a = *final(s);
            let counts = b.cycle.phase == CyclePhase::Down && !b.cycle.has_advanced_max_bw;
            &&& a.cycle == Cycle {
                phase: CyclePhase::Cruise,
                phase_start_time: now,
                rounds_in_phase: 0,
                is_sample_from_probing: false,
                has_advanced_max_bw: b.cycle.has_advanced_max_bw || b.cycle.phase
                    == CyclePhase::Down,
                ..b.cycle
            }
            &&& counts ==> bandwidth_moved_back(b.model, a.model)
            &&& !counts ==> same_bandwidths(a.model, b.model)
            &&& same_measurements(a.model, b.model) && same_round(a.model, b.model) && same_gains(
                a.model,
                b.model,
            )
            &&& a.model.inflight_hi == b.model.inflight_hi
            &&& a.model.bandwidth_lo == b.model.bandwidth_lo
            &&& b.model.inflight_lo == usize::MAX ==> a.model.inflight_lo == usize::MAX
            &&& b.model.inflight_lo < usize::MAX ==> a.model.inflight_lo == lesser(
                b.model.inflight_lo as nat,
                b.model.inflight_hi as nat,
            )
        }),
{
}

/// Entering PROBE_REFILL starts the phase with a slope, ends the probe's
/// samples, forgets that a risky probe was stopped, and lifts the short-term
/// bounds for a new round. Where PROBE_DOWN is left for it, the bandwidth of the
/// cycle is moved back, once.
pub proof fn refill_starts_without_short_term_bounds(
    s: &mut ProbeBW,
    probe_up_rounds: usize,
    now: Instant,
)
    requires
        call_ensures(ProbeBW::enter_probe_refill, (s, probe_up_rounds, now), ()),
    ensures
        ({
            let b = *old(s);
            let a = *final(s);
            let counts = b.cycle.phase == CyclePhase::Down && !b.cycle.has_advanced_max_bw;
            &&& a.cycle == Cycle {
                phase: CyclePhase::Refill,
                phase_start_time: now,
                rounds_in_phase: 0,
                is_sample_from_probing: false,
                last_cycle_stopped_risky_probe: false,
                probe_up_rounds,
                probe_up_acked: 0,
                has_advanced_max_bw: b.cycle.has_advanced_max_bw || b.cycle.phase
                    == CyclePhase::Down,
                ..b.cycle
            }
            &&& counts ==> bandwidth_moved_back(b.model, a.model)
            &&& !counts ==> same_bandwidths(a.model, b.model)
            &&& same_measurements(a.model, b.model) && same_gains(a.model, b.model)
            &&& in_a_new_round(a.model)
            &&& a.model.inflight_hi == b.model.inflight_hi
            &&& a.model.bandwidth_lo is None && a.model.inflight_lo == usize::MAX
        }),
{
}

/// Raising the slope counts a round of growth, up to thirty, and spreads the
/// window over twice as many packets each time: the share of a packet is the
/// window divided by two for each round before, but no less than a packet.
/// Nothing else changes.
pub proof fn slope_doubles_each_round(s: &mut ProbeBW, cwnd: usize)
    requires
        old(s).cycle.probe_up_rounds <= 30,
        call_ensures(ProbeBW::raise_inflight_high_slope, (s, cwnd), ()),
    ensures
        ({
            let rounds = old(s).cycle.probe_up_rounds;
            let share = final(s).cycle.probe_up_bytes->0;
            &&& final(s).cycle.probe_up_rounds == lesser((rounds + 1) as nat, 30)
            &&& final(s).cycle.probe_up_bytes is Some
            &&& share == DEFAULT_MSS || share * pow2(rounds as nat) <= cwnd
            &&& cwnd < (share + 1) * pow2(rounds as nat)
            &&& share >= DEFAULT_MSS
            &&& *final(s) == ProbeBW {
                cycle: Cycle {
                    probe_up_rounds: final(s).cycle.probe_up_rounds,
                    probe_up_bytes: Some(share),
                    ..old(s).cycle
                },
                ..*old(s)
            }
        }),
{
    let t = pow2(old(s).cycle.probe_up_rounds as nat) as int;
    lemma_pow2_pos(old(s).cycle.probe_up_rounds as nat);
    let c = cwnd as int;
    let share = final(s).cycle.probe_up_bytes->0 as int;
    lemma_fundamental_div_mod(c, t);
    lemma_mod_bound(c, t);
    assert(c / t * t <= c && c < (c / t + 1) * t) by (nonlinear_arith)
        requires
            c == t * (c / t) + c % t,
            0 <= c % t < t,
    ;
    assert((c / t + 1) * t <= (share + 1) * t) by (nonlinear_arith)
        requires
            c / t <= share,
            t > 0,
    ;
}

/// Entering PROBE_UP starts the phase, takes the samples from here on for those
/// of a probe, begins a new round, and raises the slope once.
pub proof fn up_starts_with_a_raised_slope(
    s: &mut ProbeBW,
    r: &mut ProbeBW,
    now: Instant,
    cwnd: usize,
)
    requires
        old(s).cycle.probe_up_rounds <= 30,
        call_ensures(ProbeBW::enter_probe_up, (s, now, cwnd), ()),
        *old(r) == *old(s),
        call_ensures(ProbeBW::raise_inflight_high_slope, (r, cwnd), ()),
    ensures
        final(s).cycle == (Cycle {
            phase: CyclePhase::Up,
            phase_start_time: now,
            rounds_in_phase: 0,
            is_sample_from_probing: true,
            ..final(r).cycle
        }),
        in_a_new_round(final(s).model),
        same_measurements(final(s).model, old(s).model),
        same_bandwidths(final(s).model, old(s).model),
        same_gains(final(s).model, old(s).model),
        same_bounds(final(s).model, old(s).model),
{
}

/// Leaving PROBE_DOWN moves the bandwidth of the cycle back, unless that was
/// done before, and changes nothing else.
pub proof fn leaving_down_moves_the_bandwidth_back(s: &mut ProbeBW)
    requires
        call_ensures(ProbeBW::exit_probe_down, (s,), ()),
    ensures
        final(s).cycle == (Cycle { has_advanced_max_bw: true, ..old(s).cycle }),
        old(s).cycle.has_advanced_max_bw ==> final(s).model == old(s).model,
        !old(s).cycle.has_advanced_max_bw ==> bandwidth_moved_back(old(s).model, final(s).model),
        same_measurements(final(s).model, old(s).model),
        same_round(final(s).model, old(s).model),
        same_gains(final(s).model, old(s).model),
        same_bounds(final(s).model, old(s).model),
{
}

/// PROBE_UP grows the upper bound only where the window was in full use and at
/// the bound, and the bound is heeded. It then grows by whole packets, one for
/// each share of the bytes acknowledged and not yet used, and keeps what is
/// left of a share.
pub proof fn growth_is_a_packet_for_each_share(
    s: &mut ProbeBW,
    event: BBRv2CongestionEvent,
    params: Params,
)
    requires
        old(s).cycle.wf(),
        !event.end_of_round_trip,
        call_ensures(ProbeBW::probe_inflight_high_upward, (s, &event, &params), ()),
        old(s).cycle.probe_up_acked + event.bytes_acked <= usize::MAX,
        old(s).cycle.probe_up_bytes matches Some(share) ==> old(s).model.inflight_hi + (
        old(s).cycle.probe_up_acked + event.bytes_acked) / share as int * DEFAULT_MSS <= usize::MAX,
    ensures
        *final(s) == (ProbeBW {
            model: BBRv2NetworkModel {
                inflight_hi: final(s).model.inflight_hi,
                ..old(s).model
            },
            cycle: Cycle {
                probe_up_acked: final(s).cycle.probe_up_acked,
                ..old(s).cycle
            },
        }),
        params.probe_up_ignore_inflight_hi || event.prior_bytes_in_flight < event.prior_cwnd
            || event.prior_cwnd < old(s).model.inflight_hi ==> *final(s) == *old(s),
        !params.probe_up_ignore_inflight_hi && event.prior_bytes_in_flight >= event.prior_cwnd
            && event.prior_cwnd >= old(s).model.inflight_hi ==> {
            let total = old(s).cycle.probe_up_acked + event.bytes_acked;
            let left = final(s).cycle.probe_up_acked;
            let grown = final(s).model.inflight_hi - old(s).model.inflight_hi;
            match old(s).cycle.probe_up_bytes {
                Some(share) => {
                    &&& left < share
                    &&& grown % DEFAULT_MSS as int == 0
                    &&& grown / DEFAULT_MSS as int * share + left == total
                },
                None => grown == 0 && left == total,
            }
        },
{
    if let Some(share) = old(s).cycle.probe_up_bytes {
        let total = old(s).cycle.probe_up_acked + event.bytes_acked;
        let q = total / share as int;
        let mss = DEFAULT_MSS as int;
        lemma_fundamental_div_mod(total, share as int);
        lemma_mod_bound(total, share as int);
        lemma_div_multiples_vanish(q, mss);
        lemma_mod_multiples_basic(q, mss);
        assert(q <= total && q >= 0) by (nonlinear_arith)
            requires
                q == total / share as int,
                total >= 0,
                share >= 1,
        ;
        assert(mss * q == q * mss) by (nonlinear_arith);
        assert(q * share == share * q) by (nonlinear_arith);
    }
}

/// The end of a round in which PROBE_UP grows the bound raises the slope for
/// the window before the event, after the growth; in other rounds it does
/// nothing.
pub proof fn growth_raises_the_slope_at_the_end_of_a_round(
    s: &mut ProbeBW,
    g: &mut ProbeBW,
    r: &mut ProbeBW,
    event: BBRv2CongestionEvent,
    params: Params,
)
    requires
        old(s).cycle.wf(),
        event.end_of_round_trip,
        call_ensures(ProbeBW::probe_inflight_high_upward, (s, &event, &params), ()),
        *old(g) == *old(s),
        call_ensures(
            ProbeBW::probe_inflight_high_upward,
            (g, &(BBRv2CongestionEvent { end_of_round_trip: false, ..event }), &params),
            (),
        ),
        *old(r) == *final(g),
        call_ensures(ProbeBW::raise_inflight_high_slope, (r, event.prior_cwnd), ()),
    ensures
        !params.probe_up_ignore_inflight_hi && event.prior_bytes_in_flight >= event.prior_cwnd
            && event.prior_cwnd >= old(s).model.inflight_hi ==> *final(s) == *final(r),
        params.probe_up_ignore_inflight_hi || event.prior_bytes_in_flight < event.prior_cwnd
            || event.prior_cwnd < old(s).model.inflight_hi ==> *final(s) == *old(s),
{
}

/// A window in PROBE_BW has no lower limit, and its upper limit is one of the
/// bounds on inflight, the smaller one: in PROBE_CRUISE the upper bound counts
/// with its headroom taken off, and PROBE_UP can be told not to heed it.
pub proof fn window_limit_is_the_smaller_bound(
    s: ProbeBW,
    params: Params,
    limits: Limits<usize>,
    headroom: usize,
)
    requires
        call_ensures(ProbeBW::get_cwnd_limits, (&s, &params), limits),
        call_ensures(
            BBRv2NetworkModel::inflight_hi_with_headroom,
            (&s.model, &params),
            headroom,
        ),
    ensures
        limits.lo == 0,
        s.cycle.phase == CyclePhase::Cruise ==> limits.hi == lesser(
            s.model.inflight_lo as nat,
            headroom as nat,
        ),
        s.cycle.phase == CyclePhase::Up && params.probe_up_ignore_inflight_hi ==> limits.hi
            == s.model.inflight_lo,
        s.cycle.phase != CyclePhase::Cruise && !(s.cycle.phase == CyclePhase::Up
            && params.probe_up_ignore_inflight_hi) ==> limits.hi == lesser(
            s.model.inflight_lo as nat,
            s.model.inflight_hi as nat,
        ),
        limits.hi <= s.model.inflight_lo,
        s.model.inflight_lo > 0 && s.model.inflight_hi > 0 && s.cycle.phase != CyclePhase::Cruise
            ==> limits.hi > 0,
{
}

/// The mode probes for bandwidth from the refill on until the probe ends.
pub proof fn refill_and_up_probe(s: ProbeBW, b: bool)
    requires
        call_ensures(ProbeBW::is_probing_for_bandwidth, (&s,), b),
    ensures
        b == (s.cycle.phase == CyclePhase::Refill || s.cycle.phase == CyclePhase::Up),
{
}

/// A cycle or a phase has lasted for a span once more than it has passed since
/// its start.
pub proof fn spans_are_measured_from_the_start(
    s: ProbeBW,
    span: Duration,
    event: BBRv2CongestionEvent,
    cycle: bool,
    phase: bool,
)
    requires
        call_ensures(ProbeBW::has_cycle_lasted, (&s, span, &event), cycle),
        call_ensures(ProbeBW::has_phase_lasted, (&s, span, &event), phase),
    ensures
        cycle == (event.event_time.nanos > s.cycle.start_time.nanos + span.nanos),
        phase == (event.event_time.nanos > s.cycle.phase_start_time.nanos + span.nanos),
{
}

/// PROBE_DOWN has lasted long enough after a minimum round trip, unless the
/// early exit is disabled.
pub proof fn down_is_measured_by_min_rtt(
    s: ProbeBW,
    event: BBRv2CongestionEvent,
    params: Params,
    b: bool,
)
    requires
        call_ensures(ProbeBW::has_stayed_long_enough_in_probe_down, (&s, &event, &params), b),
    ensures
        b == (!params.disable_probe_down_early_exit && event.event_time.nanos
            > s.cycle.phase_start_time.nanos + s.model.min_rtt.nanos),
{
}

/// A number below `2^53` is held exactly in double precision, and is its own
/// whole part.
pub proof fn lemma_rounds_are_exact(n: nat)
    requires
        n < 0x20_0000_0000_0000,
        n <= usize::MAX,
    ensures
        transitions::fraction_of_rounds(n, (0x10_0000_0000_0000, -52)) == n,
{
    lemma2_to64();
    lemma2_to64_rest();
    let half = pow2(52);
    let big = pow2(53);
    if n == 0 {
        assert(0 * half == 0);
        assert(0 * pow2(0) == 0) by (nonlinear_arith);
        assert(dyadic::product((0, 0), (half, -52), 53) == (0nat, 0int));
    } else {
        dyadic::lemma_scale_exists(n, 1, 53);
        let k = dyadic::scale(n, 1, 53);
        if k > 0 {
            let t = pow2(k as nat);
            lemma_pow2_unfold(k as nat);
            lemma_pow2_pos((k - 1) as nat);
            assert(1 * t == t);
            assert(half * t >= big) by (nonlinear_arith)
                requires
                    t >= 2,
                    big == 2 * half,
            ;
        }
        let j = (-k) as nat;
        let t = pow2(j);
        lemma_pow2_pos(j);
        let m = n * t;
        assert(k == 0 ==> n * pow2(0) == n) by (nonlinear_arith)
            requires
                pow2(0) == 1,
        ;
        assert(dyadic::num_at(n, k) == m);
        assert(m / 1 == m && m % 1 == 0);
        assert(dyadic::rounded(n, 1, 0, 53) == (m, k));
        assert(half * 1 == half && big * 1 == big);
        let p = m * half;
        assert(1 * half == half);
        assert(dyadic::fits(p, 1, 53, 52)) by (nonlinear_arith)
            requires
                half <= m < big,
                p == m * half,
                half > 0,
                dyadic::fits(p, 1, 53, 52) == (half * half <= p < big * half),
        ;
        dyadic::lemma_scale_unique(p, 1, 53, 52);
        lemma_div_multiples_vanish(m as int, half as int);
        lemma_mod_multiples_basic(m as int, half as int);
        assert(half * m == m * half) by (nonlinear_arith);
        assert(dyadic::product((m, k), (half, -52), 53) == (m, k));
        lemma_div_multiples_vanish(n as int, t as int);
        assert(t * n == n * t) by (nonlinear_arith);
        assert(k == 0 ==> m * pow2(0) == m) by (nonlinear_arith)
            requires
                pow2(0) == 1,
        ;
    }
}

} // verus!
