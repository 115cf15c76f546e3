use quiche_recovery::bbr2::bandwidth::Bandwidth;
use quiche_recovery::bbr2::cycle::{Cycle, CyclePhase};
use quiche_recovery::bbr2::drain::Drain;
use quiche_recovery::bbr2::event::{BBRv2CongestionEvent, SendTimeState};
use quiche_recovery::bbr2::mode::Mode;
use quiche_recovery::bbr2::network_model::BBRv2NetworkModel;
use quiche_recovery::bbr2::params::Params;
use quiche_recovery::time::{Duration, Instant};

const START: Instant = Instant { nanos: 5_000 };

fn draining(params: &Params) -> Drain {
    let mut model =
        BBRv2NetworkModel::new(params, Duration::from_millis(100), "name".to_owned(), START);
    model.max_bandwidth_now = Bandwidth::from_bytes_per_second(200_000);
    Drain { model, cycle: Cycle::new(START) }
}

fn event(bytes_in_flight: usize) -> BBRv2CongestionEvent {
    BBRv2CongestionEvent {
        event_time: Instant::from_nanos(9_000),
        prior_cwnd: 1,
        prior_bytes_in_flight: 2,
        bytes_in_flight,
        bytes_acked: 3,
        bytes_lost: 4,
        end_of_round_trip: true,
        is_probing_for_bandwidth: false,
        sample_max_bandwidth: Some(Bandwidth::from_bytes_per_second(10)),
        sample_min_rtt: Some(Duration::from_micros(7_999)),
        last_packet_send_state: SendTimeState {
            is_valid: true,
            is_app_limited: false,
            total_bytes_sent: 5,
            total_bytes_acked: 6,
            total_bytes_lost: 7,
            bytes_in_flight: 8,
        },
    }
}

#[test]
fn draining_goes_on_above_the_capacity() {
    let params = &Params::default();
    let drain = draining(params);
    assert_eq!(drain.drain_target(), 20_000);
    assert_eq!(drain.state_str(), "bbr_drain");
    assert!(!drain.is_probing_for_bandwidth());
    match drain.on_congestion_event(START, &event(20_001), params) {
        Mode::Drain(drain) => {
            assert_eq!(drain.model.pacing_gain, params.drain_pacing_gain);
            assert_eq!(drain.model.cwnd_gain, params.drain_cwnd_gain);
            assert_eq!(drain.get_cwnd_limits().hi, usize::MAX);
        }
        other => panic!("unexpected mode {:?}", other),
    }
}

#[test]
fn draining_ends_at_the_capacity() {
    let params = &Params::default();
    let now = Instant::from_nanos(9_000);
    match draining(params).on_congestion_event(now, &event(20_000), params) {
        Mode::ProbeBW(probe_bw) => {
            assert_eq!(probe_bw.cycle.phase, CyclePhase::Down);
            assert_eq!(probe_bw.cycle.start_time, now);
            assert_eq!(probe_bw.model.pacing_gain, params.drain_pacing_gain);
        }
        other => panic!("unexpected mode {:?}", other),
    }
}

#[test]
fn quiet_time_changes_nothing_in_drain() {
    let params = &Params::default();
    match draining(params).on_exit_quiescence(Instant::from_nanos(9_000), START) {
        Mode::Drain(drain) => assert_eq!(drain.model.min_rtt_timestamp, START),
        other => panic!("unexpected mode {:?}", other),
    }
}

#[test]
fn logged_row() {
    let params = &Params::default();
    let drain = draining(params);
    let row = drain.logging_values(&event(20), 12);
    let expected: Vec<u128> = vec![
        0,
        usize::MAX as u128,
        2,
        2,
        13_000,
        12,
        1,
        2,
        20,
        3,
        4,
        1,
        0,
        80,
        7,
        1,
        0,
        5,
        6,
        7,
        8,
        0,
        0,
        0,
        u64::MAX as u128,
        0,
    ];
    assert_eq!(row, expected);

    let mut quiet = event(20);
    quiet.sample_max_bandwidth = None;
    quiet.sample_min_rtt = None;
    let row = drain.logging_values(&quiet, 12);
    assert_eq!(row[13], 0);
    assert_eq!(row[14], 0);
}

#[test]
fn parameters_out_of_range_are_told_apart() {
    let mut params = Params::default();
    assert!(params.is_valid());
    params.beta.m = 1;
    assert!(!params.is_valid());
    let mut params = Params::default();
    params.beta.e = -74;
    assert!(params.is_valid());
    params.drain_pacing_gain.e = 2001;
    assert!(!params.is_valid());
}

#[test]
fn models_out_of_range_are_told_apart() {
    let params = &Params::default();
    assert!(draining(params).model.is_valid());
    let mut drain = draining(params);
    drain.model.pacing_gain.e = 2001;
    assert!(!drain.model.is_valid());
    let mut drain = draining(params);
    drain.model.cwnd_gain.m = 3;
    assert!(!drain.model.is_valid());
    let mut drain = draining(params);
    drain.model.min_rtt = Duration { nanos: 1 << 64 };
    assert!(!drain.model.is_valid());
}
