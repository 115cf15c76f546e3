use quiche_recovery::bbr2::bandwidth::Bandwidth;
use quiche_recovery::bbr2::cycle::{Cycle, CyclePhase};
use quiche_recovery::bbr2::event::{BBRv2CongestionEvent, SendTimeState};
use quiche_recovery::bbr2::mode::Mode;
use quiche_recovery::bbr2::network_model::BBRv2NetworkModel;
use quiche_recovery::bbr2::params::{BwLoMode, Params};
use quiche_recovery::bbr2::probe_bw::{AdaptUpperBoundsResult, ProbeBW};
use quiche_recovery::dyadic::Dyadic;
use quiche_recovery::time::{Duration, Instant};

const START: Instant = Instant { nanos: 1_000_000_000_000 };

fn at(millis: u64) -> Instant {
    Instant::from_nanos(START.nanos + millis * 1_000_000)
}

fn fresh(params: &Params) -> ProbeBW {
    let model =
        BBRv2NetworkModel::new(params, Duration::from_millis(333), "".to_owned(), START);
    ProbeBW { model, cycle: Cycle::new(START) }
}

fn quiet_event(time: Instant) -> BBRv2CongestionEvent {
    BBRv2CongestionEvent {
        event_time: time,
        prior_cwnd: 0,
        prior_bytes_in_flight: 0,
        bytes_in_flight: 0,
        bytes_acked: 0,
        bytes_lost: 0,
        end_of_round_trip: false,
        is_probing_for_bandwidth: false,
        sample_max_bandwidth: None,
        sample_min_rtt: None,
        last_packet_send_state: SendTimeState::default(),
    }
}

#[test]
fn plateau_normal_execution() {
    let last_packet_send_state_normal = SendTimeState {
        is_valid: true,
        is_app_limited: true,
        total_bytes_sent: 12046680,
        total_bytes_acked: 7147216,
        total_bytes_lost: 4270825,
        bytes_in_flight: 4897835,
    };
    let test_event_normal = BBRv2CongestionEvent {
        event_time: START,
        prior_cwnd: 6829574 as usize,
        prior_bytes_in_flight: 6829574 as usize,
        bytes_in_flight: 6824174 as usize,
        bytes_acked: 5400 as usize,
        bytes_lost: 0,
        end_of_round_trip: true,
        is_probing_for_bandwidth: true,
        sample_max_bandwidth: Some(Bandwidth::from_bytes_per_second(20977504)),
        sample_min_rtt: Some(Duration::from_millis(1867)),
        last_packet_send_state: last_packet_send_state_normal,
    };

    let params = &Params::default();
    let mut model =
        BBRv2NetworkModel::new(params, Duration::from_millis(333), "".to_owned(), START);

    model.set_total_acked_bytes(7147216);

    let cycle = Cycle::new(START);
    let mut probe_bw = ProbeBW { model, cycle };
    probe_bw.cycle.is_sample_from_probing = true;
    let bdp = probe_bw
        .model
        .bdp1(Bandwidth::from_bytes_per_second(20977504));
    let target_bytes = bdp.min(6829574 as usize);

    probe_bw.update_probe_up(
        test_event_normal.prior_bytes_in_flight as usize,
        target_bytes,
        &test_event_normal,
        params,
    );

    assert_eq!(probe_bw.cycle.probe_up_rounds, 1);
}

#[test]
fn plateau_plateau_execution() {
    let last_packet_send_state_plateau = SendTimeState {
        is_valid: true,
        is_app_limited: false,
        total_bytes_sent: 586320,
        total_bytes_acked: 562668,
        total_bytes_lost: 0,
        bytes_in_flight: 21973,
    };
    let test_event_plateau = BBRv2CongestionEvent {
        event_time: START,
        prior_cwnd: 21973 as usize,
        prior_bytes_in_flight: 21973 as usize,
        bytes_in_flight: 0,
        bytes_acked: 21973 as usize,
        bytes_lost: 0,
        end_of_round_trip: true,
        is_probing_for_bandwidth: true,
        sample_max_bandwidth: Some(Bandwidth::from_bytes_per_second(174040)),
        sample_min_rtt: Some(Duration::from_millis(1009)),
        last_packet_send_state: last_packet_send_state_plateau,
    };

    let params = &Params::default();
    let mut model =
        BBRv2NetworkModel::new(params, Duration::from_millis(333), "".to_owned(), START);
    model.set_total_acked_bytes(562668);
    let cycle = Cycle::new(START);
    let mut probe_bw = ProbeBW { model, cycle };
    probe_bw.cycle.is_sample_from_probing = true;

    // With the largest bound, probe_inflight_high_upward returns early, and the
    // rounds are not counted.
    probe_bw
        .model
        .set_inflight_hi(1.84467440737096E+019 as usize);

    assert_eq!(probe_bw.cycle.probe_up_rounds, 0);

    let bdp = probe_bw
        .model
        .bdp1(Bandwidth::from_bytes_per_second(174040));
    let target_bytes = bdp.min(21973 as usize);

    probe_bw.update_probe_up(
        test_event_plateau.prior_bytes_in_flight as usize,
        target_bytes,
        &test_event_plateau,
        params,
    );
    assert_eq!(
        test_event_plateau.prior_cwnd < probe_bw.model.inflight_hi(),
        true
    );
    assert_eq!(probe_bw.cycle.probe_up_rounds, 0);
}

#[test]
fn set_inflight_hi_correct() {
    let model_inflight_hi = usize::MAX;
    let congestion_event_prior_cwnd = 9501470;
    let congestion_event_prior_bytes_in_flight = 7058420;
    let congestion_event_bytes_in_flight = 7047620;
    let congestion_event_bytes_acked = 1350;
    let congestion_event_bytes_lost = 9450;
    let congestion_event_end_of_round_trip = false;
    let congestion_event_probing_for_bw = true;
    let max_bw = 21482635;
    let min_rtt = 2749;
    let send_state_is_valid = true;
    let send_state_is_app_limited = true;
    let send_state_total_bytes_sent = 191059942;
    let send_state_total_bytes_acked = 180688585;
    let send_state_total_bytes_lost = 906470;
    let send_state_bytes_in_flight = 9463260;
    let cycle_is_sample_from_probing = true;
    let model_loss_events_in_round = 10;

    let last_packet_send_state = SendTimeState {
        is_valid: send_state_is_valid,
        is_app_limited: send_state_is_app_limited,
        total_bytes_sent: send_state_total_bytes_sent,
        total_bytes_acked: send_state_total_bytes_acked,
        total_bytes_lost: send_state_total_bytes_lost,
        bytes_in_flight: send_state_bytes_in_flight,
    };
    let congestion_event = BBRv2CongestionEvent {
        event_time: START,
        prior_cwnd: congestion_event_prior_cwnd as usize,
        prior_bytes_in_flight: congestion_event_prior_bytes_in_flight as usize,
        bytes_in_flight: congestion_event_bytes_in_flight,
        bytes_acked: congestion_event_bytes_acked as usize,
        bytes_lost: congestion_event_bytes_lost,
        end_of_round_trip: congestion_event_end_of_round_trip,
        is_probing_for_bandwidth: congestion_event_probing_for_bw,
        sample_max_bandwidth: Some(Bandwidth::from_bytes_per_second(max_bw)),
        sample_min_rtt: Some(Duration::from_millis(min_rtt)),
        last_packet_send_state,
    };

    let params = &Params::default();
    let mut model =
        BBRv2NetworkModel::new(params, Duration::from_millis(333), "".to_owned(), START);
    model.set_total_acked_bytes(562668);
    model.set_loss_events_in_round(model_loss_events_in_round);
    model.set_inflight_hi(model_inflight_hi);
    let cycle = Cycle::new(START);
    let mut probe_bw = ProbeBW { model, cycle };
    probe_bw.cycle.is_sample_from_probing = cycle_is_sample_from_probing;

    let bdp = probe_bw
        .model
        .bdp1(Bandwidth::from_bytes_per_second(174040));
    let target_bytes = bdp.min(21973 as usize);

    probe_bw.update_probe_up(
        congestion_event.prior_bytes_in_flight as usize,
        target_bytes,
        &congestion_event,
        params,
    );
    assert_eq!(
        congestion_event.prior_cwnd < probe_bw.model.inflight_hi(),
        true
    );
}

fn growth_event(
    probe_bw: &ProbeBW,
    bytes_acked: usize,
    end_of_round_trip: bool,
) -> BBRv2CongestionEvent {
    BBRv2CongestionEvent {
        event_time: probe_bw.cycle.start_time,
        prior_cwnd: probe_bw.model.inflight_hi(),
        prior_bytes_in_flight: probe_bw.model.inflight_hi(),
        bytes_in_flight: 0,
        bytes_acked,
        bytes_lost: 0,
        end_of_round_trip,
        is_probing_for_bandwidth: true,
        sample_max_bandwidth: None,
        sample_min_rtt: None,
        last_packet_send_state: SendTimeState::default(),
    }
}

fn do_probe_up(probe_bw: &mut ProbeBW, params: &Params, step: usize, total_bytes: usize) {
    let mut remaining = total_bytes;
    loop {
        let congestion_event = growth_event(probe_bw, step.min(remaining), false);

        probe_bw.probe_inflight_high_upward(&congestion_event, params);

        if remaining > step {
            remaining -= step;
        } else {
            break;
        }
    }
}

fn probe_upward(step: usize) {
    let params = &Params::default();
    let mut probe_bw = fresh(params);
    probe_bw.model.set_inflight_hi(100_000);
    probe_bw.raise_inflight_high_slope(100_000);
    assert_eq!(probe_bw.cycle.probe_up_rounds, 1);
    assert_eq!(probe_bw.cycle.probe_up_bytes, Some(100_000));

    assert_eq!(probe_bw.model.inflight_hi(), 100_000);
    do_probe_up(&mut probe_bw, params, step, 1_000_000);
    // The bound is independent of the step.
    assert_eq!(probe_bw.model.inflight_hi(), 113_000);

    // The slope increases at the end of a round.
    let event = growth_event(&probe_bw, 10_000, true);
    probe_bw.probe_inflight_high_upward(&event, params);
    assert_eq!(probe_bw.cycle.probe_up_rounds, 2);
    assert_eq!(probe_bw.cycle.probe_up_bytes, Some(56500));

    do_probe_up(&mut probe_bw, params, step, 1_000_000);
    assert_eq!(probe_bw.model.inflight_hi(), 135_100);

    let event = growth_event(&probe_bw, 10_000, true);
    probe_bw.probe_inflight_high_upward(&event, params);
    assert_eq!(probe_bw.cycle.probe_up_rounds, 3);
    assert_eq!(probe_bw.cycle.probe_up_bytes, Some(33775));

    do_probe_up(&mut probe_bw, params, step, 1_000_000);
    assert_eq!(probe_bw.model.inflight_hi(), 174_100);
}

#[test]
fn probe_upward_in_steps_of_100() {
    probe_upward(100);
}

#[test]
fn probe_upward_in_steps_of_10_000() {
    probe_upward(10_000);
}

#[test]
fn probe_upward_in_steps_of_65_536() {
    probe_upward(65_536);
}

#[test]
fn probe_upward_in_steps_of_300_000() {
    probe_upward(300_000);
}

#[test]
fn slope_stops_at_a_packet_and_at_thirty_rounds() {
    let params = &Params::default();
    let mut probe_bw = fresh(params);
    for _ in 0..40 {
        probe_bw.raise_inflight_high_slope(100_000);
    }
    assert_eq!(probe_bw.cycle.probe_up_rounds, 30);
    assert_eq!(probe_bw.cycle.probe_up_bytes, Some(1300));
}

#[test]
fn growth_needs_a_window_in_full_use() {
    let params = &Params::default();
    let mut probe_bw = fresh(params);
    probe_bw.model.set_inflight_hi(100_000);
    probe_bw.raise_inflight_high_slope(100_000);

    let mut event = growth_event(&probe_bw, 500_000, true);
    event.prior_bytes_in_flight = 99_999;
    probe_bw.probe_inflight_high_upward(&event, params);
    assert_eq!(probe_bw.model.inflight_hi(), 100_000);
    assert_eq!(probe_bw.cycle.probe_up_rounds, 1);

    event.prior_cwnd = 99_999;
    probe_bw.probe_inflight_high_upward(&event, params);
    assert_eq!(probe_bw.model.inflight_hi(), 100_000);
    assert_eq!(probe_bw.cycle.probe_up_acked, 0);

    let mut ignoring = *params;
    ignoring.probe_up_ignore_inflight_hi = true;
    let event = growth_event(&probe_bw, 500_000, true);
    probe_bw.probe_inflight_high_upward(&event, &ignoring);
    assert_eq!(probe_bw.model.inflight_hi(), 100_000);

    probe_bw.probe_inflight_high_upward(&event, params);
    assert_eq!(probe_bw.model.inflight_hi(), 106_500);
    assert_eq!(probe_bw.cycle.probe_up_rounds, 2);
}

#[test]
fn first_entry_starts_a_cycle() {
    let params = &Params::default();
    let mut probe_bw = fresh(params);
    probe_bw.model.bandwidth_lo = Some(Bandwidth::from_bytes_per_second(1000));
    probe_bw.enter(at(5), params);
    assert_eq!(probe_bw.cycle.phase, CyclePhase::Down);
    assert_eq!(probe_bw.cycle.start_time, at(5));
    assert_eq!(probe_bw.cycle.phase_start_time, at(5));
    assert_eq!(
        probe_bw.cycle.probe_wait_time,
        Some(Duration::from_micros(2_000_500))
    );
    assert_eq!(probe_bw.model.bandwidth_lo, None);
    assert_eq!(probe_bw.state_str(), "bbr_probe_bw_down");

    // Entering again in the same phase only restarts the cycle's clock.
    probe_bw.enter(at(9), params);
    assert_eq!(probe_bw.cycle.phase, CyclePhase::Down);
    assert_eq!(probe_bw.cycle.start_time, at(9));
    assert_eq!(probe_bw.cycle.phase_start_time, at(5));
}

#[test]
fn default_lower_bound_mode_keeps_the_bandwidth() {
    let mut params = Params::default();
    params.bw_lo_mode = BwLoMode::Default;
    let mut probe_bw = fresh(&params);
    let low = Some(Bandwidth::from_bytes_per_second(1000));
    probe_bw.model.bandwidth_lo = low;
    probe_bw.enter_probe_down(true, true, at(1), &params);
    assert_eq!(probe_bw.model.bandwidth_lo, low);
    assert!(probe_bw.cycle.last_cycle_probed_too_high);
    assert!(probe_bw.cycle.last_cycle_stopped_risky_probe);
}

#[test]
fn entry_resumes_a_cruise_and_a_refill() {
    let params = &Params::default();
    let mut probe_bw = fresh(params);
    probe_bw.cycle.phase = CyclePhase::Cruise;
    probe_bw.model.inflight_lo = 50_000;
    probe_bw.cycle.is_sample_from_probing = true;
    probe_bw.enter(at(3), params);
    assert_eq!(probe_bw.cycle.phase, CyclePhase::Cruise);
    assert_eq!(probe_bw.model.inflight_lo, 13_000);
    assert!(!probe_bw.cycle.is_sample_from_probing);
    assert_eq!(probe_bw.state_str(), "bbr_probe_bw_cruise");

    probe_bw.cycle.phase = CyclePhase::Refill;
    probe_bw.cycle.probe_up_rounds = 7;
    probe_bw.cycle.probe_up_acked = 11;
    probe_bw.enter(at(4), params);
    assert_eq!(probe_bw.cycle.probe_up_rounds, 7);
    assert_eq!(probe_bw.cycle.probe_up_acked, 0);
    assert_eq!(probe_bw.model.inflight_lo, usize::MAX);
    assert_eq!(probe_bw.state_str(), "bbr_probe_bw_refill");
    assert!(probe_bw.is_probing_for_bandwidth());
}

fn in_mode(mode: Mode) -> ProbeBW {
    match mode {
        Mode::ProbeBW(probe_bw) => probe_bw,
        other => panic!("unexpected mode {:?}", other),
    }
}

#[test]
fn a_whole_cycle() {
    let params = &Params::default();
    let mut probe_bw = fresh(params);
    probe_bw.model.max_bandwidth_now = Bandwidth::from_bytes_per_second(1_000_000);
    probe_bw.model.set_inflight_hi(400_000);
    probe_bw.enter(at(0), params);

    // 1,000,000 bytes per second for 333 milliseconds.
    assert_eq!(probe_bw.model.bdp0(), 333_000);

    // Not drained yet: the phase goes on.
    let mut event = quiet_event(at(10));
    event.bytes_in_flight = 333_000;
    let probe_bw = in_mode(probe_bw.on_congestion_event(0, at(10), &event, 333_000, params));
    assert_eq!(probe_bw.cycle.phase, CyclePhase::Down);
    assert!(!probe_bw.is_probing_for_bandwidth());

    // Drained below the capacity of the path.
    let mut event = quiet_event(at(20));
    event.bytes_in_flight = 332_999;
    let probe_bw = in_mode(probe_bw.on_congestion_event(0, at(20), &event, 333_000, params));
    assert_eq!(probe_bw.cycle.phase, CyclePhase::Cruise);
    assert_eq!(probe_bw.model.pacing_gain, Dyadic::one());
    assert_eq!(
        probe_bw.model.max_bandwidth_before,
        Bandwidth::from_bytes_per_second(1_000_000)
    );
    // A cruise leaves headroom: 400,000 less the whole part of 15 percent.
    assert_eq!(probe_bw.get_cwnd_limits(params).hi, 340_000);

    // The wait of 2,000.5 milliseconds is over.
    let event = quiet_event(at(2_000));
    let probe_bw = in_mode(probe_bw.on_congestion_event(0, at(2_000), &event, 333_000, params));
    assert_eq!(probe_bw.cycle.phase, CyclePhase::Cruise);
    let event = quiet_event(at(2_001));
    let probe_bw = in_mode(probe_bw.on_congestion_event(0, at(2_001), &event, 333_000, params));
    assert_eq!(probe_bw.cycle.phase, CyclePhase::Refill);
    assert_eq!(probe_bw.get_cwnd_limits(params).hi, 400_000);

    // The refill lasts a round.
    let mut event = quiet_event(at(2_100));
    event.end_of_round_trip = true;
    event.prior_cwnd = 400_000;
    let probe_bw = in_mode(probe_bw.on_congestion_event(0, at(2_100), &event, 333_000, params));
    assert_eq!(probe_bw.cycle.phase, CyclePhase::Up);
    assert_eq!(probe_bw.state_str(), "bbr_probe_bw_up");
    assert_eq!(probe_bw.cycle.probe_up_bytes, Some(400_000));
    assert!(probe_bw.cycle.is_sample_from_probing);
    assert_eq!(probe_bw.model.pacing_gain, Dyadic::single(5, 4));

    // Heavy loss: the probe has gone too high.
    let mut probe_bw = probe_bw;
    probe_bw.model.bytes_lost_in_round = 50_000;
    probe_bw.model.loss_events_in_round = 2;
    let mut event = quiet_event(at(2_200));
    event.last_packet_send_state.is_valid = true;
    event.last_packet_send_state.bytes_in_flight = 450_000;
    let probe_bw =
        in_mode(probe_bw.on_congestion_event(400_000, at(2_200), &event, 500_000, params));
    assert_eq!(probe_bw.cycle.phase, CyclePhase::Down);
    assert!(probe_bw.cycle.last_cycle_probed_too_high);
    // 500,000 times 0.7 in single precision.
    assert_eq!(probe_bw.model.inflight_hi(), (500_000f32 * (1.0 - 0.3f32)) as usize);
    assert_eq!(probe_bw.model.pacing_gain, Dyadic::single(9, 10));
}

#[test]
fn an_expired_round_trip_time_leads_to_probe_rtt() {
    let params = &Params::default();
    let mut probe_bw = fresh(params);
    probe_bw.enter(at(10_000), params);
    let mut event = quiet_event(at(10_400));
    event.sample_min_rtt = Some(Duration::from_millis(90));
    match probe_bw.on_congestion_event(0, at(10_400), &event, 0, params) {
        Mode::ProbeRTT(probe_rtt) => {
            assert_eq!(probe_rtt.model.min_rtt(), Duration::from_millis(90));
            assert_eq!(probe_rtt.model.min_rtt_timestamp, at(10_400));
            assert_eq!(probe_rtt.model.pacing_gain, Dyadic::one());
            assert_eq!(probe_rtt.model.cwnd_gain, Dyadic::one());
            assert_eq!(probe_rtt.exit_time, None);
        }
        other => panic!("unexpected mode {:?}", other),
    }
}

#[test]
fn down_lasts_a_round_trip_unless_told_otherwise() {
    let mut params = Params::default();
    let mut probe_bw = fresh(&params);
    probe_bw.enter(at(0), &params);
    let mut event = quiet_event(at(333));
    event.bytes_in_flight = 1_000_000;
    assert!(!probe_bw.has_stayed_long_enough_in_probe_down(&event, &params));
    event.event_time = at(334);
    assert!(probe_bw.has_stayed_long_enough_in_probe_down(&event, &params));
    assert!(probe_bw.has_phase_lasted(Duration::from_millis(333), &event));
    assert!(!probe_bw.has_cycle_lasted(Duration::from_millis(334), &event));
    params.disable_probe_down_early_exit = true;
    assert!(!probe_bw.has_stayed_long_enough_in_probe_down(&event, &params));
    probe_bw.update_probe_down(0, &event, &params);
    assert_eq!(probe_bw.cycle.phase, CyclePhase::Down);
    params.disable_probe_down_early_exit = false;
    probe_bw.update_probe_down(0, &event, &params);
    assert_eq!(probe_bw.cycle.phase, CyclePhase::Cruise);
}

#[test]
fn a_risky_probe_is_stopped_and_taken_up_again() {
    let params = &Params::default();
    let mut probe_bw = fresh(params);
    probe_bw.cycle.phase = CyclePhase::Up;
    probe_bw.cycle.last_cycle_probed_too_high = true;
    let event = quiet_event(at(1));
    probe_bw.update_probe_up(12_999, 0, &event, params);
    assert_eq!(probe_bw.cycle.phase, CyclePhase::Up);
    probe_bw.update_probe_up(13_000, 0, &event, params);
    assert_eq!(probe_bw.cycle.phase, CyclePhase::Down);
    assert!(probe_bw.cycle.last_cycle_stopped_risky_probe);
    assert!(!probe_bw.cycle.last_cycle_probed_too_high);

    let mut event = quiet_event(at(2));
    event.end_of_round_trip = true;
    probe_bw.cycle.rounds_in_phase = 1;
    probe_bw.update_probe_down(0, &event, params);
    assert_eq!(probe_bw.cycle.phase, CyclePhase::Refill);
    assert!(!probe_bw.cycle.last_cycle_stopped_risky_probe);
    assert!(probe_bw.cycle.has_advanced_max_bw);
}

#[test]
fn a_queue_over_two_rounds_ends_the_probe() {
    let params = &Params::default();
    let mut probe_bw = fresh(params);
    probe_bw.cycle.phase = CyclePhase::Up;
    probe_bw.cycle.rounds_in_phase = 1;
    let mut event = quiet_event(at(1));
    event.end_of_round_trip = true;
    // The largest count of bytes in flight is above every target.
    probe_bw.update_probe_up(0, 0, &event, params);
    assert_eq!(probe_bw.model.rounds_with_queueing(), 1);
    assert_eq!(probe_bw.cycle.phase, CyclePhase::Up);
    probe_bw.update_probe_up(0, 0, &event, params);
    assert_eq!(probe_bw.cycle.phase, CyclePhase::Down);
    assert!(!probe_bw.cycle.last_cycle_stopped_risky_probe);
}

#[test]
fn a_queue_by_bytes_ends_the_probe() {
    let mut params = Params::default();
    params.max_probe_up_queue_rounds = 0;
    params.add_ack_height_to_queueing_threshold = true;
    let mut probe_bw = fresh(&params);
    probe_bw.cycle.phase = CyclePhase::Up;
    probe_bw.cycle.rounds_in_phase = 1;
    probe_bw.model.max_ack_height = 400;
    probe_bw.model.max_bandwidth_now = Bandwidth::from_bytes_per_second(1_000_000);
    // 333,000 times 1.25, and two packets, and the height.
    let mut event = quiet_event(at(1));
    event.bytes_in_flight = 416_250 + 2_600 + 399;
    probe_bw.update_probe_up(0, 0, &event, &params);
    assert_eq!(probe_bw.cycle.phase, CyclePhase::Up);
    event.bytes_in_flight = 416_250 + 2_600 + 400;
    probe_bw.update_probe_up(0, 0, &event, &params);
    assert_eq!(probe_bw.cycle.phase, CyclePhase::Down);
}

#[test]
fn upper_bounds_adapt_to_samples() {
    let mut params = Params::default();
    let mut probe_bw = fresh(&params);
    let mut event = quiet_event(at(1));
    assert!(
        probe_bw.maybe_adapt_upper_bounds(0, &event, &params)
            == AdaptUpperBoundsResult::NotAdaptedInvalidSample
    );
    event.last_packet_send_state.is_valid = true;
    assert!(
        probe_bw.maybe_adapt_upper_bounds(0, &event, &params)
            == AdaptUpperBoundsResult::NotAdaptedInflightHighNotSet
    );
    // A bound that is set is raised to what was delivered meanwhile.
    probe_bw.model.set_inflight_hi(20_000);
    probe_bw.model.set_total_acked_bytes(90_000);
    event.last_packet_send_state.total_bytes_acked = 60_000;
    event.last_packet_send_state.bytes_in_flight = 25_000;
    assert!(
        probe_bw.maybe_adapt_upper_bounds(0, &event, &params)
            == AdaptUpperBoundsResult::AdaptedOk
    );
    assert_eq!(probe_bw.model.inflight_hi(), 30_000);
    // Or to what was in flight.
    params.use_bytes_delivered_for_inflight_hi = false;
    probe_bw.model.set_inflight_hi(20_000);
    probe_bw.maybe_adapt_upper_bounds(0, &event, &params);
    assert_eq!(probe_bw.model.inflight_hi(), 25_000);
    // A probe that lost too much lowers it, here to what a round delivered.
    probe_bw.cycle.is_sample_from_probing = true;
    probe_bw.model.bytes_lost_in_round = 10_000;
    probe_bw.model.loss_events_in_round = 2;
    probe_bw.model.max_bytes_delivered_in_round = 26_000;
    params.limit_inflight_hi_by_max_delivered = true;
    assert!(
        probe_bw.maybe_adapt_upper_bounds(10_000, &event, &params)
            == AdaptUpperBoundsResult::AdaptedProbedTooHigh
    );
    assert_eq!(probe_bw.model.inflight_hi(), 26_000);
    assert!(!probe_bw.cycle.is_sample_from_probing);
}

#[test]
fn reno_coexistence_counts_rounds() {
    let mut params = Params::default();
    let mut probe_bw = fresh(&params);
    let one = Dyadic::from_integer(1, 53);
    probe_bw.cycle.rounds_since_probe = 62;
    assert!(!probe_bw.is_time_to_probe_for_reno_coexistence(1_000_000, one, &params));
    probe_bw.cycle.rounds_since_probe = 63;
    assert!(probe_bw.is_time_to_probe_for_reno_coexistence(1_000_000, one, &params));
    // Half of 63 rounds, in whole rounds.
    let half = Dyadic { m: 1 << 52, e: -53 };
    probe_bw.cycle.rounds_since_probe = 30;
    assert!(!probe_bw.is_time_to_probe_for_reno_coexistence(1_000_000, half, &params));
    probe_bw.cycle.rounds_since_probe = 31;
    assert!(probe_bw.is_time_to_probe_for_reno_coexistence(1_000_000, half, &params));
    // As many rounds as a tenth of the packets in flight.
    params.probe_bw_probe_reno_gain = Dyadic::single(1, 10);
    let rounds = (0.1f32 * 130_000f32 / 1300f32) as usize;
    probe_bw.cycle.rounds_since_probe = rounds - 1;
    assert!(!probe_bw.is_time_to_probe_for_reno_coexistence(130_000, one, &params));
    probe_bw.cycle.rounds_since_probe = rounds;
    assert!(probe_bw.is_time_to_probe_for_reno_coexistence(130_000, one, &params));
    params.enable_reno_coexistence = false;
    assert!(!probe_bw.is_time_to_probe_for_reno_coexistence(130_000, one, &params));
}

#[test]
fn window_limits_follow_the_phase() {
    let mut params = Params::default();
    let mut probe_bw = fresh(&params);
    probe_bw.cycle.phase = CyclePhase::Up;
    probe_bw.model.inflight_lo = 14_000;
    assert_eq!(probe_bw.get_cwnd_limits(&params).hi, 13_000);
    params.probe_up_ignore_inflight_hi = true;
    assert_eq!(probe_bw.get_cwnd_limits(&params).hi, 14_000);
    probe_bw.model.inflight_lo = 12_000;
    params.probe_up_ignore_inflight_hi = false;
    assert_eq!(probe_bw.get_cwnd_limits(&params).hi, 12_000);
    assert_eq!(probe_bw.get_cwnd_limits(&params).lo, 0);
}

#[test]
fn quiet_time_postpones_the_round_trip_time() {
    let params = &Params::default();
    let probe_bw = fresh(params);
    let stamp = probe_bw.model.min_rtt_timestamp;
    let probe_bw = in_mode(probe_bw.on_exit_quiescence(at(700), at(200)));
    assert_eq!(
        probe_bw.model.min_rtt_timestamp,
        Instant::from_nanos(stamp.nanos + 500_000_000)
    );
    // Reversed readings count as no time.
    let probe_bw = in_mode(probe_bw.on_exit_quiescence(at(200), at(700)));
    assert_eq!(
        probe_bw.model.min_rtt_timestamp,
        Instant::from_nanos(stamp.nanos + 500_000_000)
    );
}
