//! How PROBE_BW runs through its cycle: what each event does, told by the calls
//! that it is made of, and what comes of a series of events.

use vstd::prelude::*;

use crate::bbr2::cycle::{Cycle, CyclePhase};
use crate::bbr2::event::BBRv2CongestionEvent;
use crate::bbr2::laws;
use crate::bbr2::mode::Mode;
use crate::bbr2::network_model::{BBRv2NetworkModel, DEFAULT_MSS};
use crate::bbr2::params::Params;
use crate::bbr2::probe_bw::ProbeBW;
use crate::bbr2::probe_laws;
use crate::dyadic::{self, Dyadic};
use crate::time::Instant;

verus! {

/// The packets that a Reno flow would have in flight, times its gain, in single
/// precision.
pub open spec fn reno_packets(target: nat, params: Params) -> nat {
    dyadic::clamped(
        dyadic::whole(
            dyadic::quotient(
                dyadic::product(
                    dyadic::rounded(target, 1, 0, 24),
                    params.probe_bw_probe_reno_gain@,
                    24,
                ),
                dyadic::rounded(1300, 1, 0, 24),
                24,
            ),
        ),
    )
}

/// The rounds after which a Reno flow would probe: one for each of its packets,
/// where it has a gain, and no more than the most.
pub open spec fn reno_wait(target: nat, params: Params) -> nat {
    if params.probe_bw_probe_reno_gain.m > 0 {
        probe_laws::lesser(
            reno_packets(target, params),
            params.probe_bw_probe_max_rounds as nat,
        )
    } else {
        params.probe_bw_probe_max_rounds as nat
    }
}

/// Coexistence with Reno asks for a probe once a fraction of the rounds that a
/// Reno flow would wait have passed since the last one.
pub proof fn reno_asks_after_its_rounds(
    s: ProbeBW,
    target: usize,
    fraction: Dyadic,
    params: Params,
    b: bool,
)
    requires
        call_ensures(
            ProbeBW::is_time_to_probe_for_reno_coexistence,
            (&s, target, fraction, &params),
            b,
        ),
    ensures
        b == (params.enable_reno_coexistence && s.cycle.rounds_since_probe >= dyadic::clamped(
            dyadic::whole(
                dyadic::product(
                    dyadic::rounded(reno_wait(target as nat, params), 1, 0, 53),
                    fraction@,
                    53,
                ),
            ),
        )),
{
}

/// It is time to probe once the wait of the cycle is over, or once as many
/// rounds have passed as a Reno flow would wait, if it is to coexist with one.
pub proof fn probes_are_due_by_time_or_rounds(
    s: ProbeBW,
    target: usize,
    event: BBRv2CongestionEvent,
    params: Params,
    b: bool,
)
    requires
        call_ensures(ProbeBW::is_time_to_probe_bandwidth, (&s, target, &event, &params), b),
        s.cycle.probe_wait_time is Some,
    ensures
        b == due(s.cycle, target, event, params),
        params.probe_bw_probe_max_rounds < 0x20_0000_0000_0000 ==> b == (event.event_time.nanos
            > s.cycle.start_time.nanos + s.cycle.probe_wait_time->0.nanos
            || params.enable_reno_coexistence && s.cycle.rounds_since_probe >= reno_wait(
            target as nat,
            params,
        )),
{
    if params.probe_bw_probe_max_rounds < 0x20_0000_0000_0000 {
        lemma_due(s, target, event, params);
    }
}

/// Whether the wait of a cycle is over or as many rounds have passed as a Reno
/// flow would wait, which are counted in double precision.
pub open spec fn due(
    cycle: Cycle,
    target: usize,
    event: BBRv2CongestionEvent,
    params: Params,
) -> bool {
    ||| event.event_time.nanos > cycle.start_time.nanos + cycle.probe_wait_time->0.nanos
    ||| params.enable_reno_coexistence && cycle.rounds_since_probe >= dyadic::clamped(
        dyadic::whole(
            dyadic::product(
                dyadic::rounded(reno_wait(target as nat, params), 1, 0, 53),
                (0x10_0000_0000_0000, -52),
                53,
            ),
        ),
    )
}

proof fn lemma_due(s: ProbeBW, target: usize, event: BBRv2CongestionEvent, params: Params)
    requires
        params.probe_bw_probe_max_rounds < 0x20_0000_0000_0000,
    ensures
        due(s.cycle, target, event, params) == (event.event_time.nanos > s.cycle.start_time.nanos
            + s.cycle.probe_wait_time->0.nanos || params.enable_reno_coexistence
            && s.cycle.rounds_since_probe >= reno_wait(target as nat, params)),
{
    probe_laws::lemma_rounds_are_exact(reno_wait(target as nat, params));
}

/// What PROBE_DOWN makes of an event before it decides on its phase: the end of
/// its first round ends the samples of the probe, and moves the bandwidth back
/// if the sample was not app limited.
pub open spec fn first_round_over(b: ProbeBW, event: BBRv2CongestionEvent) -> ProbeBW {
    if b.cycle.rounds_in_phase == 1 && event.end_of_round_trip {
        let full = !event.last_packet_send_state.is_app_limited;
        ProbeBW {
            model: if full {
                b.model.filter_advanced()
            } else {
                b.model
            },
            cycle: Cycle {
                is_sample_from_probing: false,
                has_advanced_max_bw: b.cycle.has_advanced_max_bw || full,
                ..b.cycle
            },
        }
    } else {
        b
    }
}

/// An event in PROBE_DOWN. A probe that was stopped as risky, and had not gone
/// too high, is taken up again at the end of the first round. Else the bounds
/// are adapted; a probe that is due begins with a refill; the phase has lasted
/// long enough after a minimum round trip, or has drained once less is in
/// flight than the path holds and no more than the bound with its headroom
/// taken off, and a cruise follows; and otherwise it goes on.
pub proof fn events_in_down(
    s: &mut ProbeBW,
    target: usize,
    event: BBRv2CongestionEvent,
    params: Params,
    headroom: usize,
    bdp: usize,
)
    requires
        old(s).cycle.probe_wait_time is Some,
        call_ensures(ProbeBW::update_probe_down, (s, target, &event, &params), ()),
        call_ensures(
            BBRv2NetworkModel::inflight_hi_with_headroom,
            (&first_round_over(*old(s), event).adapted(target, event, params).model, &params),
            headroom,
        ),
        call_ensures(
            BBRv2NetworkModel::bdp0,
            (&first_round_over(*old(s), event).adapted(target, event, params).model,),
            bdp,
        ),
    ensures
        ({
            let f = first_round_over(*old(s), event);
            let a = f.adapted(target, event, params);
            let now = event.event_time;
            let again = old(s).cycle.rounds_in_phase == 1 && event.end_of_round_trip
                && old(s).cycle.last_cycle_stopped_risky_probe
                && !old(s).cycle.last_cycle_probed_too_high;
            let over = !params.disable_probe_down_early_exit && now.nanos
                > a.cycle.phase_start_time.nanos + a.model.min_rtt.nanos;
            let drained = event.bytes_in_flight <= headroom && event.bytes_in_flight < bdp;
            &&& again ==> *final(s) == f.refill(0, now)
            &&& !again && due(a.cycle, target, event, params) ==> *final(s) == a.refill(0, now)
            &&& !again && !due(a.cycle, target, event, params) && (over || drained) ==> *final(s)
                == a.cruise(now)
            &&& !again && !due(a.cycle, target, event, params) && !over && !drained ==> *final(s)
                == a
        }),
{
    let f = first_round_over(*old(s), event);
    assert(f == old(s).down_first_round(event));
}

/// An event in PROBE_CRUISE adapts the bounds, and a probe that is due begins
/// with a refill.
pub proof fn events_in_cruise(
    s: &mut ProbeBW,
    target: usize,
    event: BBRv2CongestionEvent,
    params: Params,
)
    requires
        old(s).cycle.probe_wait_time is Some,
        call_ensures(ProbeBW::update_probe_cruise, (s, target, &event, &params), ()),
    ensures
        ({
            let a = old(s).adapted(target, event, params);
            &&& due(a.cycle, target, event, params) ==> *final(s) == a.refill(0, event.event_time)
            &&& !due(a.cycle, target, event, params) ==> *final(s) == a
        }),
{
}

/// An event in PROBE_REFILL adapts the bounds, and the end of a whole round
/// begins the probe, with the window before the event.
pub proof fn events_in_refill(
    s: &mut ProbeBW,
    target: usize,
    event: BBRv2CongestionEvent,
    params: Params,
)
    requires
        call_ensures(ProbeBW::update_probe_refill, (s, target, &event, &params), ()),
    ensures
        ({
            let a = old(s).adapted(target, event, params);
            let whole = old(s).cycle.rounds_in_phase > 0 && event.end_of_round_trip;
            &&& whole ==> *final(s) == a.up(event.event_time, event.prior_cwnd)
            &&& !whole ==> *final(s) == a
        }),
{
}

/// An event in PROBE_UP. A probe that lost too much ends as one that went too
/// high. Else the bound grows, and the probe ends as a risky one where the last
/// one went too high and the bound is reached. Else it ends, after its first
/// round, on a queue: over enough rounds, where they are counted, and otherwise
/// by the bytes in flight, which then are at least a gain over what the path
/// holds, and two packets, and where so configured the largest burst of
/// acknowledgements.
pub proof fn events_in_up(
    s: &mut ProbeBW,
    prior_in_flight: usize,
    target: usize,
    event: BBRv2CongestionEvent,
    params: Params,
    q: &mut BBRv2NetworkModel,
    bdp: usize,
)
    requires
        call_ensures(
            ProbeBW::update_probe_up,
            (s, prior_in_flight, target, &event, &params),
            (),
        ),
        *old(q) == old(s).adapted(target, event, params).grown(event, params).model,
        call_ensures(
            BBRv2NetworkModel::check_persistent_queue,
            (q, params.full_bw_threshold),
            (),
        ),
        call_ensures(BBRv2NetworkModel::bdp0, (&*old(q),), bdp),
    ensures
        ({
            let b = *old(s);
            let now = event.event_time;
            let a = b.adapted(target, event, params);
            let g = a.grown(event, params);
            let counted = ProbeBW { model: *final(q), ..g };
            let failed = event.last_packet_send_state.is_valid && b.cycle.is_sample_from_probing
                && probe_laws::lost_too_much(b.model, event, params);
            let risky = b.cycle.last_cycle_probed_too_high && prior_in_flight
                >= g.model.inflight_hi;
            let later = b.cycle.rounds_in_phase > 0;
            let by_rounds = params.max_probe_up_queue_rounds > 0;
            let bytes = dyadic::scaled(bdp as nat, params.full_bw_threshold@) + 2 * DEFAULT_MSS
                + if params.add_ack_height_to_queueing_threshold {
                g.model.max_ack_height as int
            } else {
                0
            };
            &&& failed ==> *final(s) == a.down(true, false, now, params)
            &&& !failed && risky ==> *final(s) == g.down(false, true, now, params)
            &&& !failed && !risky && !later ==> *final(s) == g
            &&& !failed && !risky && later && by_rounds && !event.end_of_round_trip ==> *final(s)
                == g
            &&& !failed && !risky && later && by_rounds && event.end_of_round_trip
                && final(q).rounds_with_queueing >= params.max_probe_up_queue_rounds ==> *final(s)
                == counted.down(false, false, now, params)
            &&& !failed && !risky && later && by_rounds && event.end_of_round_trip
                && final(q).rounds_with_queueing < params.max_probe_up_queue_rounds ==> *final(s)
                == counted
            &&& !failed && !risky && later && !by_rounds && event.bytes_in_flight >= bytes
                ==> *final(s) == g.down(false, false, now, params)
            &&& !failed && !risky && later && !by_rounds && event.bytes_in_flight < bytes
                ==> *final(s) == g
        }),
{
    let g = old(s).adapted(target, event, params).grown(event, params);
    assert(g.cycle.rounds_in_phase == old(s).cycle.rounds_in_phase);
    assert(g.cycle.last_cycle_probed_too_high == old(s).cycle.last_cycle_probed_too_high);
}

/// What an event does to the counts of rounds before the phase handles it: the
/// end of a round trip counts one for the cycle and one for the phase, unless
/// they began with the event.
pub open spec fn round_counted(b: ProbeBW, time: Instant, event: BBRv2CongestionEvent) -> ProbeBW {
    ProbeBW {
        cycle: Cycle {
            rounds_since_probe: (b.cycle.rounds_since_probe + if event.end_of_round_trip
                && b.cycle.start_time != time {
                1int
            } else {
                0
            }) as usize,
            rounds_in_phase: (b.cycle.rounds_in_phase + if event.end_of_round_trip
                && b.cycle.phase_start_time != time {
                1int
            } else {
                0
            }) as usize,
            ..b.cycle
        },
        ..b
    }
}

/// An event counts its round and is then handled by the phase. Where it ends
/// PROBE_DOWN, and the minimum round-trip time has expired and can be replaced,
/// PROBE_RTT follows with the new one and gains of one. Else the mode goes on
/// with the gains of its phase: more pacing in PROBE_UP, less in PROBE_DOWN.
pub proof fn events_are_handled_by_the_phase(
    s: ProbeBW,
    u: &mut ProbeBW,
    prior_in_flight: usize,
    time: Instant,
    event: BBRv2CongestionEvent,
    target: usize,
    params: Params,
    mode: Mode,
)
    requires
        call_ensures(
            ProbeBW::on_congestion_event,
            (s, prior_in_flight, time, &event, target, &params),
            mode,
        ),
        s.cycle.phase != CyclePhase::NotStarted,
        s.cycle.rounds_since_probe < usize::MAX,
        s.cycle.rounds_in_phase < usize::MAX,
        *old(u) == round_counted(s, time, event),
        s.cycle.phase == CyclePhase::Down ==> call_ensures(
            ProbeBW::update_probe_down,
            (u, target, &event, &params),
            (),
        ),
        s.cycle.phase == CyclePhase::Cruise ==> call_ensures(
            ProbeBW::update_probe_cruise,
            (u, target, &event, &params),
            (),
        ),
        s.cycle.phase == CyclePhase::Refill ==> call_ensures(
            ProbeBW::update_probe_refill,
            (u, target, &event, &params),
            (),
        ),
        s.cycle.phase == CyclePhase::Up ==> call_ensures(
            ProbeBW::update_probe_up,
            (u, prior_in_flight, target, &event, &params),
            (),
        ),
    ensures
        ({
            let after = *final(u);
            let phase = after.cycle.phase;
            let expired = s.cycle.phase == CyclePhase::Down && phase != CyclePhase::Down
                && event.event_time.nanos >= after.model.min_rtt_timestamp.nanos
                + params.probe_rtt_period.nanos && event.sample_min_rtt is Some;
            &&& expired ==> (mode matches Mode::ProbeRTT(m) && {
                &&& m.cycle == after.cycle
                &&& m.exit_time is None
                &&& m.model.pacing_gain@ == (0x80_0000nat, -23int)
                &&& m.model.cwnd_gain@ == (0x80_0000nat, -23int)
                &&& m.model == BBRv2NetworkModel {
                    min_rtt: event.sample_min_rtt->0,
                    min_rtt_timestamp: event.event_time,
                    pacing_gain: m.model.pacing_gain,
                    cwnd_gain: m.model.cwnd_gain,
                    ..after.model
                }
            })
            &&& !expired ==> (mode matches Mode::ProbeBW(m) && {
                &&& m.cycle == after.cycle
                &&& m.model.pacing_gain == if phase == CyclePhase::Up {
                    params.probe_bw_probe_up_pacing_gain
                } else if phase == CyclePhase::Down {
                    params.probe_bw_probe_down_pacing_gain
                } else {
                    params.probe_bw_default_pacing_gain
                }
                &&& m.model.cwnd_gain == if phase == CyclePhase::Up {
                    params.probe_bw_up_cwnd_gain
                } else {
                    params.probe_bw_cwnd_gain
                }
                &&& m.model == BBRv2NetworkModel {
                    pacing_gain: m.model.pacing_gain,
                    cwnd_gain: m.model.cwnd_gain,
                    ..after.model
                }
            })
        }),
{
    let c = s.counted(time, event);
    assert(c == round_counted(s, time, event));
}

/// The rounds since the last probe count those that events end, each but one
/// that the cycle began with, until the next cycle begins with PROBE_DOWN; the
/// rounds of a phase do so until the next phase begins. Neither start moves
/// otherwise.
pub proof fn rounds_are_counted(
    s: ProbeBW,
    prior_in_flight: usize,
    time: Instant,
    event: BBRv2CongestionEvent,
    target: usize,
    params: Params,
    mode: Mode,
)
    requires
        call_ensures(
            ProbeBW::on_congestion_event,
            (s, prior_in_flight, time, &event, target, &params),
            mode,
        ),
        s.cycle.phase != CyclePhase::NotStarted,
        s.cycle.rounds_since_probe < usize::MAX,
        s.cycle.rounds_in_phase < usize::MAX,
    ensures
        ({
            let b = s.cycle;
            let a = laws::cycle_of(mode);
            let new_cycle = b.phase == CyclePhase::Up && a.phase == CyclePhase::Down;
            &&& new_cycle ==> a.start_time == event.event_time && a.rounds_since_probe == 0
            &&& !new_cycle ==> a.start_time == b.start_time && a.rounds_since_probe
                == b.rounds_since_probe + if event.end_of_round_trip && b.start_time != time {
                1int
            } else {
                0
            }
            &&& a.phase != b.phase ==> a.phase_start_time == event.event_time && a.rounds_in_phase
                == 0
            &&& a.phase == b.phase ==> a.phase_start_time == b.phase_start_time
                && a.rounds_in_phase == b.rounds_in_phase + if event.end_of_round_trip
                && b.phase_start_time != time {
                1int
            } else {
                0
            }
        }),
{
    let c = s.counted(time, event);
    match s.cycle.phase {
        CyclePhase::Up => lemma_rounds_in_up(c, prior_in_flight, target, event, params),
        CyclePhase::Down => lemma_rounds_in_down(c, target, event, params),
        _ => lemma_rounds_elsewhere(c, target, event, params),
    }
}

/// Whether a phase that handles an event leaves the counts of rounds as they
/// are, but for those that begin anew.
spec fn keeps_rounds(b: Cycle, a: Cycle, event: BBRv2CongestionEvent) -> bool {
    let new_cycle = b.phase == CyclePhase::Up && a.phase == CyclePhase::Down;
    &&& new_cycle ==> a.start_time == event.event_time && a.rounds_since_probe == 0
    &&& !new_cycle ==> a.start_time == b.start_time && a.rounds_since_probe
        == b.rounds_since_probe
    &&& a.phase != b.phase ==> a.phase_start_time == event.event_time && a.rounds_in_phase == 0
    &&& a.phase == b.phase ==> a.phase_start_time == b.phase_start_time && a.rounds_in_phase
        == b.rounds_in_phase
}

proof fn lemma_rounds_in_up(
    c: ProbeBW,
    prior_in_flight: usize,
    target: usize,
    event: BBRv2CongestionEvent,
    params: Params,
)
    requires
        c.cycle.phase == CyclePhase::Up,
    ensures
        keeps_rounds(
            c.cycle,
            c.up_updated(prior_in_flight, target, event, params).cycle,
            event,
        ),
{
    let a = c.adapted(target, event, params);
    assert(keeps_rounds(c.cycle, a.cycle, event));
    assert(keeps_rounds(c.cycle, a.grown(event, params).cycle, event));
}

proof fn lemma_rounds_in_down(
    c: ProbeBW,
    target: usize,
    event: BBRv2CongestionEvent,
    params: Params,
)
    requires
        c.cycle.phase == CyclePhase::Down,
    ensures
        keeps_rounds(c.cycle, c.down_updated(target, event, params).cycle, event),
{
    let f = c.down_first_round(event);
    assert(keeps_rounds(c.cycle, f.cycle, event));
    let a = f.adapted(target, event, params);
    assert(keeps_rounds(c.cycle, a.cycle, event));
    assert(keeps_rounds(c.cycle, f.refill(0, event.event_time).cycle, event));
    assert(keeps_rounds(c.cycle, a.refill(0, event.event_time).cycle, event));
    assert(keeps_rounds(c.cycle, a.cruise(event.event_time).cycle, event));
}

proof fn lemma_rounds_elsewhere(
    c: ProbeBW,
    target: usize,
    event: BBRv2CongestionEvent,
    params: Params,
)
    ensures
        c.cycle.phase == CyclePhase::Cruise ==> keeps_rounds(
            c.cycle,
            c.cruise_updated(target, event, params).cycle,
            event,
        ),
        c.cycle.phase == CyclePhase::Refill ==> keeps_rounds(
            c.cycle,
            c.refill_updated(target, event, params).cycle,
            event,
        ),
{
    let a = c.adapted(target, event, params);
    assert(a.cycle.phase == c.cycle.phase);
    assert(a.cycle.start_time == c.cycle.start_time);
    assert(a.cycle.rounds_since_probe == c.cycle.rounds_since_probe);
}

/// A cycle that coexists with Reno probes after the most rounds at the latest:
/// an event that leaves it waiting, in PROBE_DOWN or PROBE_CRUISE, leaves fewer
/// rounds than that since the last probe. Nor does it wait for longer than its
/// wait.
pub proof fn waiting_has_an_end(
    s: ProbeBW,
    prior_in_flight: usize,
    time: Instant,
    event: BBRv2CongestionEvent,
    target: usize,
    params: Params,
    mode: Mode,
)
    requires
        call_ensures(
            ProbeBW::on_congestion_event,
            (s, prior_in_flight, time, &event, target, &params),
            mode,
        ),
        s.cycle.phase == CyclePhase::Down || s.cycle.phase == CyclePhase::Cruise,
        s.cycle.probe_wait_time is Some,
        s.cycle.rounds_since_probe < usize::MAX,
        s.cycle.rounds_in_phase < usize::MAX,
        params.probe_bw_probe_max_rounds < 0x20_0000_0000_0000,
        laws::cycle_of(mode).phase == CyclePhase::Down || laws::cycle_of(mode).phase
            == CyclePhase::Cruise,
    ensures
        params.enable_reno_coexistence ==> laws::cycle_of(mode).rounds_since_probe
            < params.probe_bw_probe_max_rounds,
        event.event_time.nanos <= s.cycle.start_time.nanos + s.cycle.probe_wait_time->0.nanos,
        laws::cycle_of(mode).probe_wait_time == s.cycle.probe_wait_time,
{
    rounds_are_counted(s, prior_in_flight, time, event, target, params, mode);
    let c = s.counted(time, event);
    if s.cycle.phase == CyclePhase::Down {
        let f = c.down_first_round(event);
        lemma_due(f.adapted(target, event, params), target, event, params);
    } else {
        lemma_due(c.adapted(target, event, params), target, event, params);
    }
}

/// An event as the mode is told of it.
pub struct Tick {
    pub prior_in_flight: usize,
    pub time: Instant,
    pub event: BBRv2CongestionEvent,
    pub target: usize,
}

/// Whether an event takes the mode from one state to another.
pub open spec fn ticks_to(a: ProbeBW, t: Tick, params: Params, b: ProbeBW) -> bool {
    call_ensures(
        ProbeBW::on_congestion_event,
        (a, t.prior_in_flight, t.time, &t.event, t.target, &params),
        Mode::ProbeBW(b),
    )
}

/// Whether a state is one of waiting for the next probe.
pub open spec fn waits(s: ProbeBW) -> bool {
    (s.cycle.phase == CyclePhase::Down || s.cycle.phase == CyclePhase::Cruise)
        && s.cycle.probe_wait_time is Some
}

/// The round trips that a series of events ends, save those at a given time.
pub open spec fn rounds_ended(ticks: Seq<Tick>, start: Instant) -> nat
    decreases ticks.len(),
{
    if ticks.len() == 0 {
        0
    } else {
        rounds_ended(ticks.drop_last(), start) + if ticks.last().event.end_of_round_trip
            && ticks.last().time != start {
            1nat
        } else {
            0nat
        }
    }
}

/// While a cycle waits for its next probe, the rounds since the last one are
/// those that its events have ended. With Reno coexistence these stay below the
/// most rounds: the event that ends as many begins the next probe.
pub proof fn rounds_bring_the_next_probe(
    states: Seq<ProbeBW>,
    ticks: Seq<Tick>,
    params: Params,
)
    requires
        states.len() == ticks.len() + 1,
        states[0].cycle.rounds_since_probe == 0,
        states[0].cycle.rounds_in_phase == 0,
        ticks.len() < usize::MAX,
        forall|i: int| 0 <= i < states.len() ==> waits(#[trigger] states[i]),
        forall|i: int|
            0 <= i < ticks.len() ==> ticks_to(
                states[i],
                #[trigger] ticks[i],
                params,
                states[i + 1],
            ),
    ensures
        states.last().cycle.start_time == states[0].cycle.start_time,
        states.last().cycle.rounds_since_probe == rounds_ended(ticks, states[0].cycle.start_time),
        states.last().cycle.rounds_in_phase <= ticks.len(),
        params.enable_reno_coexistence && params.probe_bw_probe_max_rounds < 0x20_0000_0000_0000
            && ticks.len() > 0 ==> rounds_ended(ticks, states[0].cycle.start_time)
            < params.probe_bw_probe_max_rounds,
    decreases ticks.len(),
{
    if ticks.len() > 0 {
        let n = ticks.len() - 1;
        let earlier = states.drop_last();
        let rest = ticks.drop_last();
        assert forall|i: int| 0 <= i < rest.len() implies ticks_to(
            earlier[i],
            #[trigger] rest[i],
            params,
            earlier[i + 1],
        ) by {
            assert(ticks_to(states[i], ticks[i], params, states[i + 1]));
        }
        assert forall|i: int| 0 <= i < earlier.len() implies waits(#[trigger] earlier[i]) by {
            assert(waits(states[i]));
        }
        rounds_bring_the_next_probe(earlier, rest, params);
        assert(ticks_to(states[n], ticks[n], params, states[n + 1]));
        assert(waits(states[n]) && waits(states[n + 1]));
        lemma_rounds_ended(rest, states[0].cycle.start_time);
        let t = ticks[n];
        rounds_are_counted(
            states[n],
            t.prior_in_flight,
            t.time,
            t.event,
            t.target,
            params,
            Mode::ProbeBW(states[n + 1]),
        );
        if params.probe_bw_probe_max_rounds < 0x20_0000_0000_0000 {
            waiting_has_an_end(
                states[n],
                t.prior_in_flight,
                t.time,
                t.event,
                t.target,
                params,
                Mode::ProbeBW(states[n + 1]),
            );
        }
    }
}

proof fn lemma_rounds_ended(ticks: Seq<Tick>, start: Instant)
    ensures
        rounds_ended(ticks, start) <= ticks.len(),
    decreases ticks.len(),
{
    if ticks.len() > 0 {
        lemma_rounds_ended(ticks.drop_last(), start);
    }
}

/// Entering the mode starts the clock of the cycle. The first entry starts in
/// PROBE_DOWN, a cruise and a refill start anew, the latter with its slope, and
/// the other phases go on.
pub proof fn entry_resumes_the_phase(s: &mut ProbeBW, now: Instant, params: Params)
    requires
        params.wf(),
        call_ensures(ProbeBW::enter, (s, now, &params), ()),
    ensures
        ({
            let t = ProbeBW { cycle: Cycle { start_time: now, ..old(s).cycle }, ..*old(s) };
            match old(s).cycle.phase {
                CyclePhase::NotStarted => *final(s) == t.down(false, false, now, params),
                CyclePhase::Cruise => *final(s) == t.cruise(now),
                CyclePhase::Refill => *final(s) == t.refill(old(s).cycle.probe_up_rounds, now),
                CyclePhase::Up => *final(s) == t,
                CyclePhase::Down => *final(s) == t,
            }
        }),
{
}

/// A quiet time moves the time at which the minimum round-trip time was
/// measured by as much, and changes nothing else.
pub proof fn quiet_time_moves_the_timestamp(
    s: ProbeBW,
    now: Instant,
    start: Instant,
    mode: Mode,
)
    requires
        call_ensures(ProbeBW::on_exit_quiescence, (s, now, start), mode),
        now.nanos >= start.nanos,
        s.model.min_rtt_timestamp.nanos + (now.nanos - start.nanos) <= u64::MAX,
    ensures
        mode matches Mode::ProbeBW(m) && {
            &&& m.cycle == s.cycle
            &&& m.model.min_rtt_timestamp.nanos - s.model.min_rtt_timestamp.nanos == now.nanos
                - start.nanos
            &&& m.model == BBRv2NetworkModel {
                min_rtt_timestamp: m.model.min_rtt_timestamp,
                ..s.model
            }
        },
{
}

/// Leaving the mode changes nothing.
pub proof fn leaving_changes_nothing(s: &mut ProbeBW)
    requires
        call_ensures(ProbeBW::leave, (s,), ()),
    ensures
        *final(s) == *old(s),
{
}

/// Moving on to PROBE_RTT keeps the cycle and what is known of the path, with
/// gains of one and no end in sight.
pub proof fn probe_rtt_takes_over_the_path(s: ProbeBW, mode: Mode)
    requires
        call_ensures(ProbeBW::into_probe_rtt, (s,), mode),
    ensures
        mode matches Mode::ProbeRTT(m) && {
            &&& m.cycle == s.cycle
            &&& m.exit_time is None
            &&& m.model.pacing_gain@ == (0x80_0000nat, -23int)
            &&& m.model.cwnd_gain@ == (0x80_0000nat, -23int)
            &&& m.model == BBRv2NetworkModel {
                pacing_gain: m.model.pacing_gain,
                cwnd_gain: m.model.cwnd_gain,
                ..s.model
            }
        },
{
}

} // verus!
