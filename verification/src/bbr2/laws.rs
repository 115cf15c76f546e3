//! What holds of the modes as a whole.

use vstd::arithmetic::div_mod::*;
use vstd::arithmetic::power2::*;
use vstd::prelude::*;

use crate::bbr2::cycle::{Cycle, CyclePhase};
use crate::bbr2::drain::Drain;
use crate::bbr2::event::BBRv2CongestionEvent;
use crate::bbr2::mode::Mode;
use crate::bbr2::network_model::{BBRv2NetworkModel, DEFAULT_MSS};
use crate::bbr2::params::Params;
use crate::bbr2::probe_bw::{AdaptUpperBoundsResult, ProbeBW};
use crate::dyadic;
use crate::time::{self, Instant};

verus! {

/// PROBE_UP after a sequence of events.
pub open spec fn grown_by(s: ProbeBW, events: Seq<BBRv2CongestionEvent>, params: Params) -> ProbeBW
    decreases events.len(),
{
    if events.len() == 0 {
        s
    } else {
        grown_by(s, events.drop_last(), params).grown(events.last(), params)
    }
}

/// Whether every event of a sequence lets PROBE_UP grow the upper bound within
/// the current round, and the growth fits in a `usize`.
pub open spec fn all_grow(s: ProbeBW, events: Seq<BBRv2CongestionEvent>, params: Params) -> bool
    decreases events.len(),
{
    events.len() > 0 ==> {
        let before = grown_by(s, events.drop_last(), params);
        &&& all_grow(s, events.drop_last(), params)
        &&& before.grows(events.last(), params)
        &&& before.growth_fits(events.last(), params)
        &&& !events.last().end_of_round_trip
    }
}

/// The bytes that a sequence of events acknowledges.
pub open spec fn total_acked(events: Seq<BBRv2CongestionEvent>) -> nat
    decreases events.len(),
{
    if events.len() == 0 {
        0
    } else {
        total_acked(events.drop_last()) + events.last().bytes_acked as nat
    }
}

/// Within a round, PROBE_UP grows the upper bound by a packet for each whole
/// share of all the bytes acknowledged, and keeps the rest.
pub proof fn growth_follows_total(
    s: ProbeBW,
    share: usize,
    events: Seq<BBRv2CongestionEvent>,
    params: Params,
)
    requires
        s.wf(),
        s.cycle.probe_up_bytes == Some(share),
        s.cycle.probe_up_acked < share || events.len() > 0,
        all_grow(s, events, params),
    ensures
        ({
            let total = s.cycle.probe_up_acked as nat + total_acked(events);
            let end = grown_by(s, events, params);
            &&& end.model.inflight_hi == s.model.inflight_hi + total / share as nat * DEFAULT_MSS
            &&& end.cycle.probe_up_acked == total % share as nat
            &&& end == ProbeBW {
                model: BBRv2NetworkModel { inflight_hi: end.model.inflight_hi, ..s.model },
                cycle: Cycle { probe_up_acked: end.cycle.probe_up_acked, ..s.cycle },
            }
        }),
    decreases events.len(),
{
    let b = share as int;
    let start = s.cycle.probe_up_acked as int;
    if events.len() == 0 {
        lemma_small_mod(start as nat, b as nat);
        lemma_basic_div(start, b);
        assert(0 * DEFAULT_MSS == 0);
    } else if events.len() == 1 {
        assert(grown_by(s, events.drop_last(), params) == s);
        assert(total_acked(events.drop_last()) == 0);
    } else {
        let rest = events.drop_last();
        growth_follows_total(s, share, rest, params);
        let t = start + total_acked(rest);
        let x = events.last().bytes_acked as int;
        lemma_carry(t, x, b);
        let d = t / b;
        let c = (t % b + x) / b;
        assert(d * DEFAULT_MSS + c * DEFAULT_MSS == (d + c) * DEFAULT_MSS) by (nonlinear_arith);
    }
}

/// Dividing in two steps, with the remainder carried over, is dividing at once.
proof fn lemma_carry(t: int, x: int, b: int)
    requires
        t >= 0,
        x >= 0,
        b > 0,
    ensures
        t / b + (t % b + x) / b == (t + x) / b,
        (t % b + x) % b == (t + x) % b,
{
    lemma_fundamental_div_mod(t, b);
    let y = t % b + x;
    lemma_fundamental_div_mod(y, b);
    let q = t / b + y / b;
    assert(t + x == b * q + y % b) by (nonlinear_arith)
        requires
            t == b * (t / b) + t % b,
            y == b * (y / b) + y % b,
            y == t % b + x,
            q == t / b + y / b,
    ;
    assert(b * q == q * b) by (nonlinear_arith);
    lemma_fundamental_div_mod_converse(t + x, b, q, y % b);
}

/// The growth in PROBE_UP does not depend on the steps in which the bytes are
/// acknowledged: two sequences of the same total end in the same state.
pub proof fn growth_is_independent_of_steps(
    s: ProbeBW,
    share: usize,
    a: Seq<BBRv2CongestionEvent>,
    b: Seq<BBRv2CongestionEvent>,
    params: Params,
)
    requires
        s.wf(),
        s.cycle.probe_up_bytes == Some(share),
        s.cycle.probe_up_acked < share || a.len() > 0 && b.len() > 0,
        all_grow(s, a, params),
        all_grow(s, b, params),
        total_acked(a) == total_acked(b),
    ensures
        grown_by(s, a, params) == grown_by(s, b, params),
{
    growth_follows_total(s, share, a, params);
    growth_follows_total(s, share, b, params);
}

/// Raising the slope decreases the bytes for which the bound grows by a
/// packet, for the same window, down to one packet.
pub proof fn slope_increases(s: ProbeBW, cwnd: usize)
    requires
        s.cycle.probe_up_rounds <= 30,
    ensures
        s.cycle.wf() ==> s.raised(cwnd).cycle.wf(),
        s.raised(cwnd).cycle.probe_up_bytes->0 >= DEFAULT_MSS,
        s.raised(cwnd).raised(cwnd).cycle.probe_up_bytes->0
            <= s.raised(cwnd).cycle.probe_up_bytes->0,
        s.cycle.probe_up_rounds <= s.raised(cwnd).cycle.probe_up_rounds <= 30,
        s.cycle.probe_up_rounds < 30 ==> s.raised(cwnd).cycle.probe_up_rounds
            == s.cycle.probe_up_rounds + 1,
{
    let r = s.cycle.probe_up_rounds as nat;
    lemma_pow2_pos(r);
    lemma_pow2_pos(r + 1);
    lemma_pow2_strictly_increases(r, r + 1);
    let c = cwnd as int;
    lemma_div_is_ordered_by_denominator(c, pow2(r) as int, pow2(r + 1) as int);
    lemma_div_pos_is_pos(c, pow2(r) as int);
    lemma_div_is_ordered_by_denominator(c, 1, pow2(r) as int);
    assert(c / 1 == c);
    lemma_div_is_ordered_by_denominator(c, 1, pow2(r + 1) as int);
}

/// The phases that may follow a phase.
pub open spec fn follows(a: CyclePhase, b: CyclePhase) -> bool {
    match a {
        CyclePhase::NotStarted => b == CyclePhase::Down,
        CyclePhase::Down => b == CyclePhase::Cruise || b == CyclePhase::Refill,
        CyclePhase::Cruise => b == CyclePhase::Refill,
        CyclePhase::Refill => b == CyclePhase::Up,
        CyclePhase::Up => b == CyclePhase::Down,
    }
}

/// The cycle that a mode carries.
pub open spec fn cycle_of(mode: Mode) -> Cycle {
    match mode {
        Mode::Drain(m) => m.cycle,
        Mode::ProbeBW(m) => m.cycle,
        Mode::ProbeRTT(m) => m.cycle,
    }
}

/// The model that a mode carries.
pub open spec fn model_of(mode: Mode) -> BBRv2NetworkModel {
    match mode {
        Mode::Drain(m) => m.model,
        Mode::ProbeBW(m) => m.model,
        Mode::ProbeRTT(m) => m.model,
    }
}

/// An event keeps the phase or moves it to one that follows it, so that a
/// started cycle runs through its phases in order.
pub proof fn phases_follow_in_order(
    s: ProbeBW,
    mode: Mode,
    prior_in_flight: usize,
    event_time: Instant,
    event: BBRv2CongestionEvent,
    target_bytes_inflight: usize,
    params: Params,
)
    requires
        s.cycle.phase != CyclePhase::NotStarted,
        s.leads_to(mode, prior_in_flight, event_time, event, target_bytes_inflight, params),
    ensures
        cycle_of(mode).phase == s.cycle.phase || follows(s.cycle.phase, cycle_of(mode).phase),
        mode is ProbeRTT ==> s.cycle.phase == CyclePhase::Down,
        mode is ProbeBW || mode is ProbeRTT,
{
    let c = s.counted(event_time, event);
    let u = c.phase_updated(prior_in_flight, target_bytes_inflight, event, params);
    assert(u.cycle.phase == s.cycle.phase || follows(s.cycle.phase, u.cycle.phase)) by {
        match s.cycle.phase {
            CyclePhase::Up => lemma_up_phase(
                c,
                prior_in_flight,
                target_bytes_inflight,
                event,
                params,
            ),
            CyclePhase::Down => lemma_down_phase(c, target_bytes_inflight, event, params),
            _ => {},
        }
    }
}

proof fn lemma_up_phase(
    s: ProbeBW,
    prior_in_flight: usize,
    target_bytes_inflight: usize,
    event: BBRv2CongestionEvent,
    params: Params,
)
    ensures
        ({
            let u = s.up_updated(prior_in_flight, target_bytes_inflight, event, params);
            u.cycle.phase == s.cycle.phase || u.cycle.phase == CyclePhase::Down
        }),
{
}

proof fn lemma_down_phase(
    s: ProbeBW,
    target_bytes_inflight: usize,
    event: BBRv2CongestionEvent,
    params: Params,
)
    requires
        s.cycle.phase == CyclePhase::Down,
    ensures
        ({
            let u = s.down_updated(target_bytes_inflight, event, params);
            u.cycle.phase == CyclePhase::Down || follows(CyclePhase::Down, u.cycle.phase)
        }),
{
}

/// An event keeps the state valid, and never returns the cycle to the state
/// before its start.
pub proof fn events_keep_validity(
    s: ProbeBW,
    mode: Mode,
    prior_in_flight: usize,
    event_time: Instant,
    event: BBRv2CongestionEvent,
    target_bytes_inflight: usize,
    params: Params,
)
    requires
        s.wf(),
        event.wf(),
        params.wf(),
        s.cycle.phase != CyclePhase::NotStarted,
        s.leads_to(mode, prior_in_flight, event_time, event, target_bytes_inflight, params),
    ensures
        mode.wf(),
        cycle_of(mode).phase != CyclePhase::NotStarted,
{
    phases_follow_in_order(
        s,
        mode,
        prior_in_flight,
        event_time,
        event,
        target_bytes_inflight,
        params,
    );
    let c = s.counted(event_time, event);
    match s.cycle.phase {
        CyclePhase::Up => lemma_up_valid(c, prior_in_flight, target_bytes_inflight, event, params),
        CyclePhase::Down => lemma_down_valid(c, target_bytes_inflight, event, params),
        CyclePhase::Cruise => {},
        _ => lemma_refill_valid(c, target_bytes_inflight, event, params),
    }
    // One is a single-precision number.
    lemma2_to64();
}

/// Entering the mode keeps the state valid and starts the cycle.
pub proof fn entry_keeps_validity(s: ProbeBW, now: Instant, params: Params)
    requires
        s.wf(),
        params.wf(),
    ensures
        s.entered(now, params).wf(),
        s.entered(now, params).cycle.phase != CyclePhase::NotStarted,
{
}

proof fn lemma_up_valid(
    s: ProbeBW,
    prior_in_flight: usize,
    target_bytes_inflight: usize,
    event: BBRv2CongestionEvent,
    params: Params,
)
    requires
        s.wf(),
    ensures
        s.up_updated(prior_in_flight, target_bytes_inflight, event, params).wf(),
{
    let a = s.adapted(target_bytes_inflight, event, params);
    lemma_grown_valid(a, event, params);
    let g = a.grown(event, params);
    assert(g.queue_counted(prior_in_flight, event, params).wf());
}

proof fn lemma_grown_valid(s: ProbeBW, event: BBRv2CongestionEvent, params: Params)
    requires
        s.wf(),
    ensures
        s.grown(event, params).wf(),
        s.grown(event, params).cycle.phase == s.cycle.phase,
{
    slope_increases(s, event.prior_cwnd);
}

proof fn lemma_down_valid(
    s: ProbeBW,
    target_bytes_inflight: usize,
    event: BBRv2CongestionEvent,
    params: Params,
)
    requires
        s.wf(),
        s.cycle.probe_wait_time is Some,
    ensures
        s.down_updated(target_bytes_inflight, event, params).wf(),
{
    let f = s.down_first_round(event);
    assert(f.adapted(target_bytes_inflight, event, params).wf());
}

proof fn lemma_refill_valid(
    s: ProbeBW,
    target_bytes_inflight: usize,
    event: BBRv2CongestionEvent,
    params: Params,
)
    requires
        s.wf(),
    ensures
        s.refill_updated(target_bytes_inflight, event, params).wf(),
{
    let a = s.adapted(target_bytes_inflight, event, params);
    slope_increases(a, event.prior_cwnd);
}

/// Whoever leaves PROBE_DOWN has counted the bandwidth of the cycle.
pub proof fn leaving_down_counts_bandwidth(
    s: ProbeBW,
    target_bytes_inflight: usize,
    event: BBRv2CongestionEvent,
    params: Params,
)
    requires
        s.cycle.phase == CyclePhase::Down,
        s.down_updated(target_bytes_inflight, event, params).cycle.phase != CyclePhase::Down,
    ensures
        s.down_updated(target_bytes_inflight, event, params).cycle.has_advanced_max_bw,
{
}

/// PROBE_DOWN lasts no longer than a minimum round trip, unless the early exit
/// is disabled.
pub proof fn down_ends_after_min_rtt(
    s: ProbeBW,
    target_bytes_inflight: usize,
    event: BBRv2CongestionEvent,
    params: Params,
)
    requires
        s.cycle.phase == CyclePhase::Down,
        !params.disable_probe_down_early_exit,
        time::elapsed(event.event_time, s.cycle.phase_start_time) > s.model.min_rtt.nanos,
    ensures
        s.down_updated(target_bytes_inflight, event, params).cycle.phase != CyclePhase::Down,
{
}

/// With the early exit disabled, PROBE_DOWN goes on while more is in flight
/// than the bound with headroom or than the path holds, until the next probe.
pub proof fn down_goes_on_until_drained(
    s: ProbeBW,
    target_bytes_inflight: usize,
    event: BBRv2CongestionEvent,
    params: Params,
)
    requires
        s.cycle.phase == CyclePhase::Down,
        params.disable_probe_down_early_exit,
        !s.retries_probe(event),
        ({
            let a = s.down_first_round(event).adapted(target_bytes_inflight, event, params);
            &&& !a.time_to_probe(target_bytes_inflight, event, params)
            &&& event.bytes_in_flight > a.model.spec_inflight_hi_with_headroom(params)
                || event.bytes_in_flight >= a.model.spec_bdp()
        }),
    ensures
        s.down_updated(target_bytes_inflight, event, params).cycle.phase == CyclePhase::Down,
{
}

/// The upper bound on inflight is lowered only by a probe that went too high.
pub proof fn only_a_failed_probe_lowers_the_bound(
    s: ProbeBW,
    mode: Mode,
    prior_in_flight: usize,
    event_time: Instant,
    event: BBRv2CongestionEvent,
    target_bytes_inflight: usize,
    params: Params,
)
    requires
        s.wf(),
        s.cycle.phase != CyclePhase::NotStarted,
        s.event_fits(prior_in_flight, event_time, event, target_bytes_inflight, params),
        s.leads_to(mode, prior_in_flight, event_time, event, target_bytes_inflight, params),
        model_of(mode).inflight_hi < s.model.inflight_hi,
    ensures
        s.cycle.is_sample_from_probing,
        s.model.inflight_too_high(event, params.probe_bw_full_loss_count, params),
{
    let c = s.counted(event_time, event);
    if c.verdict(event, params) != AdaptUpperBoundsResult::AdaptedProbedTooHigh {
        match s.cycle.phase {
            CyclePhase::Up => lemma_up_bound(
                c,
                prior_in_flight,
                target_bytes_inflight,
                event,
                params,
            ),
            CyclePhase::Down => lemma_down_bound(c, target_bytes_inflight, event, params),
            _ => {},
        }
    }
}

proof fn lemma_up_bound(
    s: ProbeBW,
    prior_in_flight: usize,
    target_bytes_inflight: usize,
    event: BBRv2CongestionEvent,
    params: Params,
)
    requires
        s.wf(),
        s.up_fits(prior_in_flight, target_bytes_inflight, event, params),
        s.verdict(event, params) != AdaptUpperBoundsResult::AdaptedProbedTooHigh,
    ensures
        s.up_updated(prior_in_flight, target_bytes_inflight, event, params).model.inflight_hi
            >= s.model.inflight_hi,
{
    let a = s.adapted(target_bytes_inflight, event, params);
    let g = a.grown(event, params);
    assert(g.model.inflight_hi >= a.model.inflight_hi) by {
        if let Some(share) = a.cycle.probe_up_bytes {
            let q = a.probe_up_total(event) / share as nat;
            assert(q * DEFAULT_MSS >= 0) by (nonlinear_arith)
                requires
                    q >= 0,
            ;
        }
    }
    assert(g.queue_counted(prior_in_flight, event, params).model.inflight_hi
        == g.model.inflight_hi);
}

proof fn lemma_down_bound(
    s: ProbeBW,
    target_bytes_inflight: usize,
    event: BBRv2CongestionEvent,
    params: Params,
)
    requires
        s.down_fits(event, params),
        s.verdict(event, params) != AdaptUpperBoundsResult::AdaptedProbedTooHigh,
    ensures
        s.down_updated(target_bytes_inflight, event, params).model.inflight_hi
            >= s.model.inflight_hi,
{
    let f = s.down_first_round(event);
    let a = f.adapted(target_bytes_inflight, event, params);
    assert(f.model.inflight_hi == s.model.inflight_hi);
    assert(s.retries_probe(event) || a.model.inflight_hi >= f.model.inflight_hi);
}

/// After every event the gains are those of the phase, or one in PROBE_RTT.
pub proof fn gains_follow_the_phase(
    s: ProbeBW,
    mode: Mode,
    prior_in_flight: usize,
    event_time: Instant,
    event: BBRv2CongestionEvent,
    target_bytes_inflight: usize,
    params: Params,
)
    requires
        s.leads_to(mode, prior_in_flight, event_time, event, target_bytes_inflight, params),
    ensures
        mode is ProbeBW ==> {
            &&& model_of(mode).pacing_gain == cycle_of(mode).phase.spec_pacing_gain(params)
            &&& model_of(mode).cwnd_gain == cycle_of(mode).phase.spec_cwnd_gain(params)
        },
        mode is ProbeRTT ==> {
            &&& model_of(mode).pacing_gain@ == dyadic::one()
            &&& model_of(mode).cwnd_gain@ == dyadic::one()
        },
{
}

/// The bound on the congestion window exceeds neither bound on inflight, save
/// that PROBE_UP may be told to ignore the upper one.
pub proof fn window_stays_within_inflight(s: ProbeBW, params: Params)
    ensures
        s.cwnd_bound(params) <= s.model.inflight_lo,
        s.cwnd_bound(params) <= s.model.inflight_hi || (s.cycle.phase == CyclePhase::Up
            && params.probe_up_ignore_inflight_hi),
{
}

/// A quiet time does not age the minimum round-trip time: it has expired at a
/// later time exactly if it would have expired without the quiet time.
pub proof fn quiet_time_does_not_age_min_rtt(
    model: BBRv2NetworkModel,
    now: Instant,
    start: Instant,
    event: BBRv2CongestionEvent,
    params: Params,
)
    requires
        model.min_rtt_timestamp.nanos + time::elapsed(now, start) <= u64::MAX,
        event.event_time.nanos + time::elapsed(now, start) <= u64::MAX,
    ensures
        ({
            let quiet = time::elapsed(now, start);
            let postponed = BBRv2NetworkModel {
                min_rtt_timestamp: Instant {
                    nanos: (model.min_rtt_timestamp.nanos + quiet) as u64,
                },
                ..model
            };
            let later = BBRv2CongestionEvent {
                event_time: Instant { nanos: (event.event_time.nanos + quiet) as u64 },
                ..event
            };
            postponed.min_rtt_expired(later, params) == model.min_rtt_expired(event, params)
        }),
{
}

/// Draining ends exactly when no more is in flight than the path holds, and
/// then a first probing cycle starts in PROBE_DOWN.
pub proof fn draining_ends_at_the_path_capacity(
    s: Drain,
    event_time: Instant,
    event: BBRv2CongestionEvent,
    params: Params,
)
    ensures
        s.after(event_time, event, params) is ProbeBW <==> event.bytes_in_flight
            <= s.model.spec_bdp(),
        s.after(event_time, event, params) is Drain <==> event.bytes_in_flight
            > s.model.spec_bdp(),
        s.after(event_time, event, params) is ProbeBW ==> cycle_of(
            s.after(event_time, event, params),
        ).phase != CyclePhase::NotStarted,
        s.after(event_time, event, params) is ProbeBW && s.cycle.phase == CyclePhase::NotStarted
            ==> cycle_of(s.after(event_time, event, params)).phase == CyclePhase::Down,
{
}

/// An event in DRAIN keeps the state valid.
pub proof fn draining_keeps_validity(
    s: Drain,
    event_time: Instant,
    event: BBRv2CongestionEvent,
    params: Params,
)
    requires
        s.model.wf(),
        s.cycle.wf(),
        params.wf(),
    ensures
        s.after(event_time, event, params).wf(),
{
}

} // verus!
