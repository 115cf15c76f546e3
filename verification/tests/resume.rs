use quiche_recovery::dyadic::Dyadic;
use quiche_recovery::packet::Acked;
use quiche_recovery::resume::{is_readable, CrState, Resume};
use quiche_recovery::time::{Duration, Instant};

const NOW: Instant = Instant { nanos: 77 };
const LATER: Instant = Instant { nanos: 99 };

fn at_secs(secs: u64) -> Duration {
    Duration::from_secs(secs)
}

fn saved(text: &str, current_secs: u64) -> Resume {
    Resume::new(Some(text.as_bytes()), at_secs(current_secs), NOW)
}

fn packet(pkt_num: u64, size: usize) -> Acked {
    Acked { pkt_num, size }
}

#[test]
fn no_file_disables() {
    let mut resume = Resume::new(None, at_secs(5), NOW);
    assert_eq!(resume.get_state(), CrState::Reconnaissance);
    assert_eq!(resume.get_saved_rtt(), u64::MAX);
    assert_eq!(resume.get_saved_cwnd(), Dyadic { m: 0, e: 0 });
    assert!(!resume.enabled());
    assert_eq!(resume.get_state(), CrState::Normal);
}

#[test]
fn empty_file_disables() {
    let mut resume = saved("", 5);
    assert!(!resume.enabled());
    assert_eq!(resume.get_state(), CrState::Normal);
}

#[test]
fn saved_parameters_are_read() {
    let mut resume = saved("rtt,3,cwnd,60000,time,1000", 2000);
    assert_eq!(resume.get_saved_rtt(), 3);
    // 60,000 in double precision.
    assert_eq!(resume.get_saved_cwnd(), Dyadic { m: 60_000 << 37, e: -37 });
    assert!(resume.enabled());
    assert_eq!(resume.get_state(), CrState::Reconnaissance);
    assert_eq!(resume.get_state_timer(), NOW);
    assert_eq!(resume.total_acked, 0);
    let (state, rtt, cwnd, pipesize) = resume.log_values();
    assert_eq!(state, CrState::Reconnaissance);
    assert_eq!(rtt, Duration::from_secs(3));
    assert_eq!(cwnd, 60_000);
    assert_eq!(pipesize, 0);
}

#[test]
fn unreadable_fields_take_defaults() {
    let resume = saved("rtt,x,cwnd,-1,time,12 ", 2000);
    assert_eq!(resume.get_saved_rtt(), u64::MAX);
    assert_eq!(resume.log_values().2, 0);
    // Without a time of saving the parameters are as old as the epoch.
    assert!(!saved("a,1,b,2,c,?", 7201).enabled());
    assert!(saved("a,1,b,2,c,?", 7200).enabled());
}

#[test]
fn parameters_are_used_for_two_hours() {
    assert!(saved("a,1,b,2,c,1000", 8200).enabled());
    assert!(!saved("a,1,b,2,c,1000", 8201).enabled());
    let text = "a,1,b,2,c,1000";
    let just_over = Duration { nanos: 8_200_000_000_001 };
    assert!(!Resume::new(Some(text.as_bytes()), just_over, NOW).enabled());
}

fn jumped() -> Resume {
    let mut resume = saved("a,1,b,20000,c,1000", 1000);
    let windows = resume.process_ack(10, &packet(1, 1200), 3000, true, LATER);
    assert_eq!(windows, (Some(10_000), None));
    resume
}

#[test]
fn acknowledged_initial_window_jumps() {
    let mut resume = saved("a,1,b,20000,c,1000", 1000);
    assert_eq!(resume.process_ack(10, &packet(1, 1200), 3000, false, LATER), (None, None));
    assert_eq!(resume.get_state(), CrState::Reconnaissance);
    assert_eq!(resume.total_acked, 1);

    let resume = jumped();
    assert_eq!(resume.get_state(), CrState::Unvalidated(10));
    assert_eq!(resume.get_pipesize(), 3000);
    assert_eq!(resume.get_jump_cwnd(), 10_000);
    assert_eq!(resume.get_state_timer(), LATER);
}

#[test]
fn nothing_to_jump_to_ends_resume() {
    let mut resume = saved("a,1,b,1,c,1000", 1000);
    assert_eq!(resume.process_ack(10, &packet(1, 1200), 3000, true, LATER), (None, None));
    assert_eq!(resume.get_state(), CrState::Normal);
    let mut resume = saved("a,1,b,1,c,1000", 1000);
    assert_eq!(resume.send_packet(Some(at_secs(1)), 500, 4, false, true, LATER), 0);
    assert_eq!(resume.get_state(), CrState::Normal);
}

#[test]
fn validation_of_a_large_flight() {
    let mut resume = jumped();
    assert_eq!(resume.process_ack(20, &packet(9, 1000), 9000, true, LATER), (None, None));
    assert_eq!(resume.get_state(), CrState::Unvalidated(10));
    assert_eq!(resume.get_pipesize(), 4000);
    assert_eq!(resume.process_ack(20, &packet(10, 1000), 9000, true, LATER), (Some(9000), None));
    assert_eq!(resume.get_state(), CrState::Validating(20));
    assert_eq!(resume.process_ack(30, &packet(19, 1000), 9000, true, LATER), (None, None));
    assert_eq!(resume.get_state(), CrState::Validating(20));
    assert_eq!(resume.process_ack(30, &packet(20, 1000), 9000, true, LATER), (None, None));
    assert_eq!(resume.get_state(), CrState::Normal);
    assert_eq!(resume.get_pipesize(), 7000);
    assert_eq!(resume.total_acked, 5);
    assert!(!resume.enabled());
}

#[test]
fn small_flight_ends_resume() {
    let mut resume = jumped();
    assert_eq!(resume.process_ack(20, &packet(10, 1000), 4000, true, LATER), (Some(4000), None));
    assert_eq!(resume.get_state(), CrState::Normal);
}

#[test]
fn congestion_retreats() {
    let mut resume = jumped();
    assert_eq!(resume.congestion_event(25), 1500);
    assert_eq!(resume.get_state(), CrState::SafeRetreat(25));
    assert_eq!(resume.congestion_event(26), 0);
    assert_eq!(resume.get_state(), CrState::SafeRetreat(25));
    assert_eq!(resume.process_ack(30, &packet(24, 700), 9000, true, LATER), (None, None));
    assert_eq!(resume.get_pipesize(), 3700);
    assert_eq!(resume.process_ack(30, &packet(25, 700), 9000, true, LATER), (None, Some(3700)));
    assert_eq!(resume.get_state(), CrState::Normal);
    assert_eq!(resume.congestion_event(40), 0);
    assert_eq!(resume.process_ack(50, &packet(49, 700), 9000, true, LATER), (None, None));
    assert_eq!(resume.get_state(), CrState::Normal);
}

#[test]
fn congestion_elsewhere_ends_resume() {
    let mut resume = saved("a,1,b,20000,c,1000", 1000);
    assert_eq!(resume.congestion_event(3), 0);
    assert_eq!(resume.get_state(), CrState::Normal);
    let mut resume = jumped();
    resume.change_state(CrState::Validating(4));
    assert_eq!(resume.congestion_event(3), 0);
    assert_eq!(resume.get_state(), CrState::Normal);
}

#[test]
fn flight_size_decides_at_the_end_of_the_unvalidated_phase() {
    let mut resume = jumped();
    assert_eq!(resume.check_flight_size(3001, 3002, 8), 3000);
    assert_eq!(resume.get_state(), CrState::Normal);
    let mut resume = jumped();
    assert_eq!(resume.check_flight_size(3000, 10, 8), 3000);
    assert_eq!(resume.get_state(), CrState::Normal);
    let mut resume = jumped();
    assert_eq!(resume.check_flight_size(3001, 3001, 8), 3001);
    assert_eq!(resume.get_state(), CrState::Validating(8));
}

#[test]
fn sending_jumps_once_there_is_a_sample() {
    let mut resume = saved("a,1,b,20000,c,1000", 1000);
    let rtt = Some(at_secs(1));
    assert_eq!(resume.send_packet(rtt, 500, 4, true, true, LATER), 500);
    assert_eq!(resume.send_packet(rtt, 501, 4, false, false, LATER), 501);
    assert_eq!(resume.send_packet(None, 502, 4, false, true, LATER), 502);
    assert_eq!(resume.get_state(), CrState::Reconnaissance);
    assert_eq!(resume.send_packet(rtt, 503, 4, false, true, LATER), 10_000);
    assert_eq!(resume.get_state(), CrState::Unvalidated(4));
    assert_eq!(resume.get_pipesize(), 503);
    assert_eq!(resume.get_state_timer(), LATER);
    assert_eq!(resume.send_packet(rtt, 504, 5, false, true, LATER), 0);
    assert_eq!(resume.send_packet(rtt, 504, 5, true, true, LATER), 504);
}

#[test]
fn a_short_round_trip_ends_resume() {
    let send = |rtt: Duration| {
        let mut resume = saved("a,10,b,20000,c,1000", 1000);
        let window = resume.send_packet(Some(rtt), 503, 4, false, true, LATER);
        (window, resume)
    };
    for millis in [0, 1000, 5000] {
        let (window, resume) = send(Duration::from_millis(millis));
        assert_eq!(window, 503);
        assert_eq!(resume.get_state(), CrState::Normal);
        assert_eq!(resume.get_pipesize(), 0);
        assert_eq!(resume.get_jump_cwnd(), 0);
        assert_eq!(resume.get_state_timer(), NOW);
    }
    for millis in [5001, 10_000, 900_000] {
        let (window, resume) = send(Duration::from_millis(millis));
        assert_eq!(window, 10_000);
        assert_eq!(resume.get_state(), CrState::Unvalidated(4));
        assert_eq!(resume.get_pipesize(), 503);
        assert_eq!(resume.get_jump_cwnd(), 10_000);
        assert_eq!(resume.get_state_timer(), LATER);
    }
}

#[test]
fn an_unreadable_round_trip_time_ends_resume() {
    let mut resume = saved("a,x,b,20000,c,1000", 1000);
    assert_eq!(resume.send_packet(Some(at_secs(1)), 503, 4, false, true, LATER), 503);
    assert_eq!(resume.get_state(), CrState::Normal);
}

#[test]
fn saved_round_trip_time_can_be_replaced() {
    let mut resume = saved("a,10,b,20000,c,1000", 1000);
    resume.set_saved_rtt(42);
    assert_eq!(resume.get_saved_rtt(), 42);
}

#[test]
fn unreadable_parameters_are_told_apart() {
    assert!(is_readable(b"", at_secs(0)));
    assert!(is_readable(b"a,1,b,2,c,1000", at_secs(1000)));
    assert!(!is_readable(b"a,1,b,2,c,1000", at_secs(999)));
    assert!(!is_readable(b"a,1,b,2,c", at_secs(1000)));
    assert!(is_readable(b"a,1,b,2,c,?", at_secs(0)));
}

#[test]
fn the_jump_is_half_whatever_is_called() {
    let mut resume = saved("a,1,b,20000,c,1000", 1000);
    resume.change_state(CrState::Unvalidated(3));
    assert_eq!(resume.get_jump_cwnd(), 0);
    resume.change_state(CrState::Reconnaissance);
    resume.set_saved_rtt(50);
    resume.process_ack(10, &packet(1, 1200), 3000, true, LATER);
    resume.check_flight_size(9000, 10, 8);
    assert_eq!(resume.get_jump_cwnd(), 10_000);
}

#[test]
fn a_missing_parameter_disables() {
    for text in ["a,x,b,20000,c,1000", "a,1,b,x,c,1000", "a,,b,20000,c,1000", "a,x,b,x,c,1000"] {
        let mut resume = saved(text, 1000);
        assert_eq!(resume.get_state(), CrState::Reconnaissance);
        assert!(!resume.enabled());
        assert_eq!(resume.get_state(), CrState::Normal);
        assert_eq!(resume.process_ack(10, &packet(1, 1200), 3000, true, LATER), (None, None));
    }
    assert!(saved("a,1,b,20000,c,1000", 1000).enabled());
    // Both are there, though one is nothing.
    assert!(saved("a,0,b,0,c,1000", 1000).enabled());
}

#[test]
fn a_jump_after_a_forced_phase_is_a_jump() {
    let mut resume = saved("a,1,b,20000,c,1000", 1000);
    resume.change_state(CrState::Unvalidated(3));
    resume.change_state(CrState::Reconnaissance);
    resume.process_ack(10, &packet(1, 1200), 3000, true, LATER);
    assert_eq!(resume.get_state(), CrState::Unvalidated(10));
    assert_eq!(resume.get_jump_cwnd(), 10_000);
}
