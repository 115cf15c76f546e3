//! What the model of the path, the gains of the phases, DRAIN and the log do,
//! told by what a call is given and what it leaves behind.

use vstd::arithmetic::div_mod::*;
use vstd::prelude::*;

use crate::bbr2::bandwidth::Bandwidth;
use crate::bbr2::cycle::{Cycle, CyclePhase};
use crate::bbr2::drain::Drain;
use crate::bbr2::event::{BBRv2CongestionEvent, Limits};
use crate::bbr2::log;
use crate::bbr2::mode::Mode;
use crate::bbr2::network_model::BBRv2NetworkModel;
use crate::bbr2::params::Params;
use crate::bbr2::probe_bw::ProbeBW;
use crate::bbr2::probe_laws;
use crate::dyadic::{self, Dyadic};
use crate::time::{Duration, Instant, NANOS_PER_MILLI};

verus! {

/// A rate delivers as many bytes in a span as its bits and the span's seconds
/// make, in whole bytes, as far as a `usize` holds them.
pub proof fn rates_deliver_over_time(rate: Bandwidth, span: Duration, bytes: usize)
    requires
        call_ensures(Bandwidth::to_bytes_per_period, (rate, span), bytes),
    ensures
        bytes * 8_000_000_000 <= rate.bits_per_second * span.nanos,
        rate.bits_per_second * span.nanos < (bytes + 1) * 8_000_000_000 || bytes == usize::MAX,
{
    let x = rate.bits_per_second as int;
    let y = span.nanos as int;
    assert(x * y >= 0) by (nonlinear_arith)
        requires
            x >= 0,
            y >= 0,
    ;
    lemma_fundamental_div_mod(x * y, 8_000_000_000);
    lemma_mod_bound(x * y, 8_000_000_000);
}

/// A rate in bytes is eight times one in bits, no rate is zero, and an unbounded
/// one is the largest.
pub proof fn rates_in_bits(bytes: u64, rate: Bandwidth, none: Bandwidth, all: Bandwidth)
    requires
        bytes * 8 <= u64::MAX,
        call_ensures(Bandwidth::from_bytes_per_second, (bytes,), rate),
        call_ensures(Bandwidth::zero, (), none),
        call_ensures(Bandwidth::infinite, (), all),
    ensures
        rate.bits_per_second == 8 * bytes,
        none.bits_per_second <= rate.bits_per_second <= all.bits_per_second,
        none.bits_per_second == 0,
        all.bits_per_second == u64::MAX,
{
}

/// The path holds what its largest bandwidth, of this cycle or the one before,
/// delivers in its minimum round-trip time.
pub proof fn capacity_is_of_the_largest_bandwidth(
    m: BBRv2NetworkModel,
    largest: Bandwidth,
    given: Bandwidth,
    bytes: usize,
    of_largest: usize,
    of_given: usize,
    delivered: usize,
)
    requires
        call_ensures(BBRv2NetworkModel::max_bandwidth, (&m,), largest),
        call_ensures(BBRv2NetworkModel::bdp0, (&m,), bytes),
        call_ensures(BBRv2NetworkModel::bdp1, (&m, largest), of_largest),
        call_ensures(BBRv2NetworkModel::bdp1, (&m, given), of_given),
        call_ensures(Bandwidth::to_bytes_per_period, (given, m.min_rtt), delivered),
    ensures
        largest == m.max_bandwidth_before || largest == m.max_bandwidth_now,
        largest.bits_per_second >= m.max_bandwidth_before.bits_per_second,
        largest.bits_per_second >= m.max_bandwidth_now.bits_per_second,
        bytes == of_largest,
        of_given == delivered,
{
}

/// A path starts with nothing measured but a first round-trip time, with no
/// short-term bound, and with the gains of a start; a cycle starts with nothing
/// counted.
pub proof fn paths_start_unmeasured(
    params: Params,
    rtt: Duration,
    name: String,
    now: Instant,
    m: BBRv2NetworkModel,
    c: Cycle,
)
    requires
        call_ensures(BBRv2NetworkModel::new, (&params, rtt, name, now), m),
        call_ensures(Cycle::new, (now,), c),
    ensures
        m.logging_name == name && m.min_rtt == rtt && m.min_rtt_timestamp == now,
        m.total_bytes_acked == 0 && m.max_ack_height == 0 && m.round_trip_count == 0,
        m.max_bandwidth_before.bits_per_second == 0 && m.max_bandwidth_now.bits_per_second == 0,
        m.bytes_lost_in_round == 0 && m.loss_events_in_round == 0 && m.rounds_with_queueing == 0,
        m.max_bytes_delivered_in_round == 0 && m.min_bytes_in_flight_in_round == usize::MAX,
        m.bandwidth_lo is None && m.inflight_lo == usize::MAX && m.inflight_hi == 13_000,
        m.cwnd_gain == params.startup_cwnd_gain && m.pacing_gain == params.startup_pacing_gain,
        c.phase == CyclePhase::NotStarted && c.start_time == now && c.phase_start_time == now,
        c.rounds_in_phase == 0 && c.rounds_since_probe == 0 && c.probe_wait_time is None,
        c.probe_up_rounds == 0 && c.probe_up_bytes is None && c.probe_up_acked == 0,
        !c.is_sample_from_probing && !c.has_advanced_max_bw,
        !c.last_cycle_probed_too_high && !c.last_cycle_stopped_risky_probe,
{
}

/// Headroom takes a fraction off the upper bound, and all of it where the
/// fraction is more than that.
pub proof fn headroom_is_taken_off(m: BBRv2NetworkModel, params: Params, left: usize)
    requires
        call_ensures(BBRv2NetworkModel::inflight_hi_with_headroom, (&m, &params), left),
    ensures
        left <= m.inflight_hi,
        ({
            let off = dyadic::scaled(m.inflight_hi as nat, params.inflight_hi_headroom@);
            off <= m.inflight_hi && left + off == m.inflight_hi || off > m.inflight_hi && left == 0
        }),
{
}

/// Inflight is too high where a valid sample comes with enough losses in the
/// round, and they are more than a fraction of what was in flight.
pub proof fn losses_tell_of_too_much_inflight(
    m: BBRv2NetworkModel,
    event: BBRv2CongestionEvent,
    max_loss_events: usize,
    params: Params,
    b: bool,
)
    requires
        call_ensures(
            BBRv2NetworkModel::is_inflight_too_high,
            (&m, &event, max_loss_events, &params),
            b,
        ),
    ensures
        b ==> event.last_packet_send_state.is_valid && m.loss_events_in_round >= max_loss_events
            && event.last_packet_send_state.bytes_in_flight > 0,
        b ==> m.bytes_lost_in_round > dyadic::scaled(
            event.last_packet_send_state.bytes_in_flight as nat,
            params.loss_threshold@,
        ),
        !b && event.last_packet_send_state.is_valid && m.loss_events_in_round >= max_loss_events
            && event.last_packet_send_state.bytes_in_flight > 0 ==> m.bytes_lost_in_round
            <= dyadic::scaled(
            event.last_packet_send_state.bytes_in_flight as nat,
            params.loss_threshold@,
        ),
{
}

/// A minimum round-trip time expires after its period, where a sample can take
/// its place, and changes only then.
pub proof fn min_rtt_expires_after_its_period(
    m: &mut BBRv2NetworkModel,
    event: BBRv2CongestionEvent,
    params: Params,
    expired: bool,
)
    requires
        call_ensures(BBRv2NetworkModel::maybe_expire_min_rtt, (m, &event, &params), expired),
    ensures
        expired == (event.sample_min_rtt is Some && event.event_time.nanos
            - old(m).min_rtt_timestamp.nanos >= params.probe_rtt_period.nanos),
        expired ==> Some(final(m).min_rtt) == event.sample_min_rtt && final(m).min_rtt_timestamp
            == event.event_time,
        !expired ==> final(m).min_rtt == old(m).min_rtt && final(m).min_rtt_timestamp == old(
            m,
        ).min_rtt_timestamp,
        *final(m) == (BBRv2NetworkModel {
            min_rtt: final(m).min_rtt,
            min_rtt_timestamp: final(m).min_rtt_timestamp,
            ..*old(m)
        }),
{
}

/// Postponing moves the time of the minimum round-trip time, and nothing else.
pub proof fn postponing_moves_the_timestamp(m: &mut BBRv2NetworkModel, span: Duration)
    requires
        old(m).min_rtt_timestamp.nanos + span.nanos <= u64::MAX,
        call_ensures(BBRv2NetworkModel::postpone_min_rtt_timestamp, (m, span), ()),
    ensures
        final(m).min_rtt_timestamp.nanos == old(m).min_rtt_timestamp.nanos + span.nanos,
        *final(m) == (BBRv2NetworkModel {
            min_rtt_timestamp: final(m).min_rtt_timestamp,
            ..*old(m)
        }),
{
}

/// Advancing the filter moves the bandwidth of the cycle back, and changes
/// nothing else.
pub proof fn filter_moves_the_bandwidth_back(m: &mut BBRv2NetworkModel)
    requires
        call_ensures(BBRv2NetworkModel::advance_max_bandwidth_filter, (m,), ()),
    ensures
        probe_laws::bandwidth_moved_back(*old(m), *final(m)),
        *final(m) == (BBRv2NetworkModel {
            max_bandwidth_before: final(m).max_bandwidth_before,
            max_bandwidth_now: final(m).max_bandwidth_now,
            ..*old(m)
        }),
{
}

/// Starting a round early clears what the round has counted, and nothing else.
pub proof fn restart_clears_the_round(m: &mut BBRv2NetworkModel)
    requires
        call_ensures(BBRv2NetworkModel::restart_round_early, (m,), ()),
    ensures
        probe_laws::in_a_new_round(*final(m)),
        probe_laws::same_measurements(*final(m), *old(m)),
        probe_laws::same_bandwidths(*final(m), *old(m)),
        probe_laws::same_gains(*final(m), *old(m)),
        probe_laws::same_bounds(*final(m), *old(m)),
{
}

/// A cap brings a short-term bound down, where there is one, and changes nothing
/// else.
pub proof fn caps_bring_the_bound_down(m: &mut BBRv2NetworkModel, cap: usize)
    requires
        call_ensures(BBRv2NetworkModel::cap_inflight_lo, (m, cap), ()),
    ensures
        old(m).inflight_lo == usize::MAX ==> final(m).inflight_lo == usize::MAX,
        old(m).inflight_lo < usize::MAX ==> final(m).inflight_lo == probe_laws::lesser(
            old(m).inflight_lo as nat,
            cap as nat,
        ),
        *final(m) == (BBRv2NetworkModel { inflight_lo: final(m).inflight_lo, ..*old(m) }),
{
}

/// A round counts as one with a queue where no moment of it had less in flight
/// than a gain over what the path holds, nor than that and two packets. One
/// round without ends the count.
pub proof fn rounds_with_a_queue_are_counted(
    m: &mut BBRv2NetworkModel,
    gain: Dyadic,
    bdp: usize,
)
    requires
        old(m).rounds_with_queueing < usize::MAX,
        call_ensures(BBRv2NetworkModel::check_persistent_queue, (m, gain), ()),
        call_ensures(BBRv2NetworkModel::bdp0, (&*old(m),), bdp),
    ensures
        ({
            let least = old(m).min_bytes_in_flight_in_round;
            let queue = least >= dyadic::scaled(bdp as nat, gain@) && least >= probe_laws::lesser(
                (bdp + 2600) as nat,
                usize::MAX as nat,
            );
            &&& queue ==> final(m).rounds_with_queueing == old(m).rounds_with_queueing + 1
            &&& !queue ==> final(m).rounds_with_queueing == 0
        }),
        *final(m) == (BBRv2NetworkModel {
            rounds_with_queueing: final(m).rounds_with_queueing,
            ..*old(m)
        }),
{
}

/// The gains of a phase: PROBE_UP has its own for pacing and for the window,
/// PROBE_DOWN its own for pacing, and the other phases share theirs.
pub proof fn phases_have_their_gains(
    phase: CyclePhase,
    params: Params,
    pacing: Dyadic,
    cwnd: Dyadic,
)
    requires
        call_ensures(CyclePhase::pacing_gain, (phase, &params), pacing),
        call_ensures(CyclePhase::cwnd_gain, (phase, &params), cwnd),
    ensures
        phase == CyclePhase::Up ==> pacing == params.probe_bw_probe_up_pacing_gain && cwnd
            == params.probe_bw_up_cwnd_gain,
        phase == CyclePhase::Down ==> pacing == params.probe_bw_probe_down_pacing_gain && cwnd
            == params.probe_bw_cwnd_gain,
        phase != CyclePhase::Up && phase != CyclePhase::Down ==> pacing
            == params.probe_bw_default_pacing_gain && cwnd == params.probe_bw_cwnd_gain,
{
}

/// An event in DRAIN sets the gains of the mode. It ends the mode where no more
/// is in flight than the path holds, and PROBE_BW is entered; else the mode goes
/// on, with all else as it was.
pub proof fn drain_ends_at_the_target(
    s: Drain,
    time: Instant,
    event: BBRv2CongestionEvent,
    params: Params,
    mode: Mode,
    target: usize,
    bdp: usize,
    e: &mut ProbeBW,
)
    requires
        call_ensures(Drain::on_congestion_event, (s, time, &event, &params), mode),
        call_ensures(Drain::drain_target, (&s,), target),
        call_ensures(BBRv2NetworkModel::bdp0, (&s.model,), bdp),
        *old(e) == (ProbeBW {
            model: BBRv2NetworkModel {
                pacing_gain: params.drain_pacing_gain,
                cwnd_gain: params.drain_cwnd_gain,
                ..s.model
            },
            cycle: s.cycle,
        }),
        call_ensures(ProbeBW::enter, (e, time, &params), ()),
    ensures
        target == bdp,
        event.bytes_in_flight <= target ==> mode == Mode::ProbeBW(*final(e)),
        event.bytes_in_flight > target ==> mode == Mode::Drain(
            Drain { model: old(e).model, cycle: s.cycle },
        ),
{
}

/// DRAIN does not probe, heeds only the short-term bound, and is left as it is
/// by a quiet time and by being entered or left. It hands the path on as it is.
pub proof fn drain_keeps_to_itself(
    s: Drain,
    now: Instant,
    start: Instant,
    params: Params,
    probing: bool,
    limits: Limits<usize>,
    woken: Mode,
    next: Mode,
    e: &mut ProbeBW,
    entered: &mut Drain,
    left: &mut Drain,
)
    requires
        call_ensures(Drain::enter, (entered,), ()),
        call_ensures(Drain::leave, (left,), ()),
        call_ensures(Drain::is_probing_for_bandwidth, (&s,), probing),
        call_ensures(Drain::get_cwnd_limits, (&s,), limits),
        call_ensures(Drain::on_exit_quiescence, (s, now, start), woken),
        call_ensures(Drain::into_probe_bw, (s, now, &params), next),
        *old(e) == (ProbeBW { model: s.model, cycle: s.cycle }),
        call_ensures(ProbeBW::enter, (e, now, &params), ()),
    ensures
        !probing,
        limits.lo == 0 && limits.hi == s.model.inflight_lo,
        woken == Mode::Drain(s),
        *final(entered) == *old(entered) && *final(left) == *old(left),
        next == Mode::ProbeBW(*final(e)),
{
}

/// The row that is logged for an event holds each value in its place.
pub proof fn rows_hold_each_value_in_place(
    model: BBRv2NetworkModel,
    event: BBRv2CongestionEvent,
    probing: bool,
    elapsed: u128,
    row: Vec<u128>,
)
    requires
        call_ensures(log::logging_values, (&model, &event, probing, elapsed), row),
    ensures
        row@.len() == 26,
        row@[0] == model.rounds_with_queueing,
        row@[1] == model.min_bytes_in_flight_in_round,
        dyadic::whole(model.cwnd_gain@) <= u128::MAX ==> row@[2] == dyadic::whole(model.cwnd_gain@),
        dyadic::whole(model.pacing_gain@) <= u128::MAX ==> row@[3] == dyadic::whole(
            model.pacing_gain@,
        ),
        row@[4] == model.inflight_hi,
        row@[5] == elapsed,
        row@[6] == event.prior_cwnd,
        row@[7] == event.prior_bytes_in_flight,
        row@[8] == event.bytes_in_flight,
        row@[9] == event.bytes_acked,
        row@[10] == event.bytes_lost,
        row@[11] == if event.end_of_round_trip { 1int } else { 0 },
        row@[12] == if event.is_probing_for_bandwidth { 1int } else { 0 },
        event.sample_max_bandwidth matches Some(b) ==> row@[13] == b.bits_per_second,
        event.sample_max_bandwidth is None ==> row@[13] == 0,
        event.sample_min_rtt matches Some(rtt) ==> row@[14] == rtt.nanos / NANOS_PER_MILLI,
        event.sample_min_rtt is None ==> row@[14] == 0,
        row@[15] == if event.last_packet_send_state.is_valid { 1int } else { 0 },
        row@[16] == if event.last_packet_send_state.is_app_limited { 1int } else { 0 },
        row@[17] == event.last_packet_send_state.total_bytes_sent,
        row@[18] == event.last_packet_send_state.total_bytes_acked,
        row@[19] == event.last_packet_send_state.total_bytes_lost,
        row@[20] == event.last_packet_send_state.bytes_in_flight,
        row@[21] == if probing { 1int } else { 0 },
        row@[22] == model.loss_events_in_round,
        row@[23] == model.total_bytes_acked,
        model.bandwidth_lo matches Some(b) ==> row@[24] == b.bits_per_second,
        model.bandwidth_lo is None ==> row@[24] == u64::MAX,
        row@[25] == model.round_trip_count,
{
}

/// The row of DRAIN is that of samples of no probe.
pub proof fn drain_logs_no_probe(
    s: Drain,
    event: BBRv2CongestionEvent,
    elapsed: u128,
    row: Vec<u128>,
    same: Vec<u128>,
)
    requires
        call_ensures(Drain::logging_values, (&s, &event, elapsed), row),
        call_ensures(log::logging_values, (&s.model, &event, false, elapsed), same),
    ensures
        row@ == same@,
{
}

} // verus!
