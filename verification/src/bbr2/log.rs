//! The row that the sender logs for an event.

use vstd::prelude::*;

use crate::bbr2::bandwidth::Bandwidth;
use crate::bbr2::event::BBRv2CongestionEvent;
use crate::bbr2::network_model::BBRv2NetworkModel;
use crate::dyadic;
use crate::time::NANOS_PER_MILLI;

verus! {

/// A truth value as a number.
pub open spec fn bit(b: bool) -> u128 {
    if b {
        1
    } else {
        0
    }
}

/// A bandwidth in bits per second, or a default where there is none.
pub open spec fn rate(b: Option<Bandwidth>, default: u64) -> u128 {
    match b {
        Some(b) => b.bits_per_second as u128,
        None => default as u128,
    }
}

/// The values of the row, in order: the model, the event, the counters when
/// the sampled packet was sent, and whether samples are of a probe.
pub open spec fn row(
    model: BBRv2NetworkModel,
    event: BBRv2CongestionEvent,
    is_sample_from_probing: bool,
    elapsed_millis: u128,
) -> Seq<u128> {
    let sent = event.last_packet_send_state;
    seq![
        model.rounds_with_queueing as u128,
        model.min_bytes_in_flight_in_round as u128,
        dyadic::clamped_wide(dyadic::whole(model.cwnd_gain@)) as u128,
        dyadic::clamped_wide(dyadic::whole(model.pacing_gain@)) as u128,
        model.inflight_hi as u128,
        elapsed_millis,
        event.prior_cwnd as u128,
        event.prior_bytes_in_flight as u128,
        event.bytes_in_flight as u128,
        event.bytes_acked as u128,
        event.bytes_lost as u128,
        bit(event.end_of_round_trip),
        bit(event.is_probing_for_bandwidth),
        rate(event.sample_max_bandwidth, 0),
        match event.sample_min_rtt {
            Some(rtt) => rtt.nanos / NANOS_PER_MILLI,
            None => 0,
        },
        bit(sent.is_valid),
        bit(sent.is_app_limited),
        sent.total_bytes_sent as u128,
        sent.total_bytes_acked as u128,
        sent.total_bytes_lost as u128,
        sent.bytes_in_flight as u128,
        bit(is_sample_from_probing),
        model.loss_events_in_round as u128,
        model.total_bytes_acked as u128,
        rate(model.bandwidth_lo, u64::MAX),
        model.round_trip_count as u128,
    ]
}

fn number(b: bool) -> (n: u128)
    ensures
        n == bit(b),
{
    if b {
        1
    } else {
        0
    }
}

fn bits_per_second(b: Option<Bandwidth>, default: Bandwidth) -> (n: u128)
    ensures
        n == rate(b, default.bits_per_second),
{
    match b {
        Some(b) => b.bits_per_second as u128,
        None => default.bits_per_second as u128,
    }
}

/// The values to log for an event, `elapsed_millis` milliseconds after it.
pub fn logging_values(
    model: &BBRv2NetworkModel,
    congestion_event: &BBRv2CongestionEvent,
    is_sample_from_probing: bool,
    elapsed_millis: u128,
) -> (values: Vec<u128>)
    requires
        model.wf(),
    ensures
        values@ == row(*model, *congestion_event, is_sample_from_probing, elapsed_millis),
{
    let sent = congestion_event.last_packet_send_state;
    vec![
        model.rounds_with_queueing as u128,
        model.min_bytes_in_flight_in_round as u128,
        model.cwnd_gain.to_u128(),
        model.pacing_gain.to_u128(),
        model.inflight_hi as u128,
        elapsed_millis,
        congestion_event.prior_cwnd as u128,
        congestion_event.prior_bytes_in_flight as u128,
        congestion_event.bytes_in_flight as u128,
        congestion_event.bytes_acked as u128,
        congestion_event.bytes_lost as u128,
        number(congestion_event.end_of_round_trip),
        number(congestion_event.is_probing_for_bandwidth),
        bits_per_second(congestion_event.sample_max_bandwidth, Bandwidth::zero()),
        match congestion_event.sample_min_rtt {
            Some(rtt) => rtt.as_millis(),
            None => 0,
        },
        number(sent.is_valid),
        number(sent.is_app_limited),
        sent.total_bytes_sent as u128,
        sent.total_bytes_acked as u128,
        sent.total_bytes_lost as u128,
        sent.bytes_in_flight as u128,
        number(is_sample_from_probing),
        model.loss_events_in_round as u128,
        model.total_bytes_acked as u128,
        bits_per_second(model.bandwidth_lo, Bandwidth::infinite()),
        model.round_trip_count as u128,
    ]
}

} // verus!
