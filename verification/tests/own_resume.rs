use quiche_recovery::own_resume::{is_readable, CrState, OwnResume};
use quiche_recovery::packet::Acked;
use quiche_recovery::time::{Duration, Instant};

const NOW: Instant = Instant { nanos: 1_000_000_000 };

fn after(millis: u64) -> Instant {
    Instant::from_nanos(NOW.nanos + millis * 1_000_000)
}

fn saved(text: &str) -> OwnResume {
    OwnResume::new("id", Some(text.as_bytes()), NOW)
}

fn packet(pkt_num: u64, size: usize) -> Acked {
    Acked { pkt_num, size }
}

#[test]
fn without_a_file_it_is_set_up_by_hand() {
    let mut resume = OwnResume::new("id", None, NOW);
    assert_eq!(resume.get_saved_rtt(), 0);
    resume.setup(Duration::from_millis(2500), 9000);
    assert!(resume.enabled());
    assert_eq!(resume.get_saved_rtt(), 2);
    let (state, rtt, cwnd, pipesize) = resume.log_values();
    assert_eq!(state, CrState::Reconnaissance);
    assert_eq!(rtt, Duration::from_millis(2500));
    assert_eq!(cwnd, 9000);
    assert_eq!(pipesize, 0);
}

#[test]
fn without_parameters_it_ends() {
    let mut resume = OwnResume::new("id", None, NOW);
    assert!(!resume.enabled());
    assert_eq!(resume.get_state(), CrState::Normal);
    // Being set up does not start it again.
    resume.setup(Duration::from_secs(1), 9000);
    assert!(!resume.enabled());
}

#[test]
fn four_fields_are_enough() {
    let mut resume = saved("rtt,+7,cwnd,3000");
    assert_eq!(resume.get_saved_rtt(), 7);
    assert_eq!(resume.log_values().2, 3000);
    assert_eq!(resume.get_saved_cwnd().to_usize(), 3000);
    assert!(resume.enabled());
    let resume = saved("rtt,seven,cwnd,99999999999999999999999");
    assert_eq!(resume.get_saved_rtt(), 0);
    assert_eq!(resume.log_values().2, 0);
}

fn jumped(cwnd: &str) -> OwnResume {
    let mut resume = saved(&format!("rtt,1,cwnd,{}", cwnd));
    let windows = resume.process_ack(10, &packet(1, 1200), 3000, true, after(5));
    assert_eq!(windows, (None, None));
    assert_eq!(resume.get_state(), CrState::Unvalidated(10));
    resume
}

#[test]
fn the_jump_is_capped() {
    assert_eq!(jumped("3998").get_jump_cwnd(), 1999);
    assert_eq!(jumped("4000").get_jump_cwnd(), 2000);
    assert_eq!(jumped("1000000").get_jump_cwnd(), 2000);
    assert_eq!(jumped("0").get_jump_cwnd(), 0);
    assert_eq!(jumped("4000").get_pipesize(), 3000);
    assert_eq!(jumped("4000").total_acked, 1200);
}

#[test]
fn unvalidated_phase_lasts_a_saved_round_trip() {
    let mut resume = jumped("4000");
    assert_eq!(resume.process_ack(20, &packet(9, 100), 9000, true, after(1005)), (None, None));
    assert_eq!(resume.get_state(), CrState::Unvalidated(10));
    assert_eq!(resume.process_ack(21, &packet(9, 100), 9000, true, after(1006)), (None, None));
    assert_eq!(resume.get_state(), CrState::Validating(21));
    assert_eq!(resume.get_pipesize(), 3200);
}

#[test]
fn an_acknowledged_jump_is_validated_or_done() {
    let mut resume = jumped("4000");
    assert_eq!(
        resume.process_ack(20, &packet(10, 100), 9000, true, after(6)),
        (Some(9000), None)
    );
    assert_eq!(resume.get_state(), CrState::Validating(20));
    resume.process_ack(30, &packet(20, 100), 9000, true, after(7));
    assert_eq!(resume.get_state(), CrState::Normal);
    assert_eq!(resume.total_acked, 1400);

    let mut resume = jumped("4000");
    // Late, but what is in flight is already known to fit.
    assert_eq!(
        resume.process_ack(20, &packet(10, 100), 3100, true, after(5000)),
        (Some(3100), None)
    );
    assert_eq!(resume.get_state(), CrState::Normal);
}

#[test]
fn a_retreat_halves_the_window() {
    let mut resume = jumped("4000");
    assert_eq!(resume.send_packet(None, 700, 1, false, true), 2000);
    assert_eq!(resume.congestion_event(25), 0);
    assert_eq!(resume.get_state(), CrState::SafeRetreat(25));
    assert_eq!(resume.send_packet(None, 700, 1, false, true), 1500);
    assert_eq!(resume.process_ack(30, &packet(24, 700), 1, true, after(8)), (None, None));
    assert_eq!(resume.send_packet(None, 700, 1, false, true), 1850);
    assert_eq!(resume.process_ack(30, &packet(25, 700), 1, true, after(9)), (None, Some(3700)));
    assert_eq!(resume.get_state(), CrState::Normal);
    assert_eq!(resume.send_packet(None, 700, 1, false, true), 700);
    assert_eq!(resume.process_ack(30, &packet(26, 700), 1, true, after(9)), (None, None));
}

#[test]
fn congestion_outside_the_unvalidated_phase_ends_it() {
    let mut resume = saved("a,1,b,4000");
    assert_eq!(resume.congestion_event(1), 0);
    assert_eq!(resume.get_state(), CrState::Normal);
    let mut resume = jumped("4000");
    resume.process_ack(20, &packet(10, 100), 9000, true, after(6));
    assert_eq!(resume.congestion_event(1), 0);
    assert_eq!(resume.get_state(), CrState::Normal);
    assert_eq!(resume.congestion_event(1), 0);
}

#[test]
fn an_unlike_round_trip_time_ends_it() {
    let send = |rtt: Duration| {
        let mut resume = saved("a,2,b,4000");
        let window = resume.send_packet(Some(rtt), 700, 1, false, true);
        (window, resume.get_state())
    };
    assert_eq!(send(Duration::from_millis(1000)), (700, CrState::Normal));
    assert_eq!(send(Duration::from_millis(1001)), (0, CrState::Reconnaissance));
    assert_eq!(send(Duration::from_millis(19_999)), (0, CrState::Reconnaissance));
    assert_eq!(send(Duration::from_millis(20_000)), (700, CrState::Normal));
}

#[test]
fn too_little_data_leaves_everything() {
    let mut resume = saved("a,2,b,4000");
    let rtt = Some(Duration::from_millis(1));
    assert_eq!(resume.send_packet(rtt, 700, 1, true, true), 4000);
    assert_eq!(resume.send_packet(rtt, 700, 1, false, false), 4000);
    assert_eq!(resume.send_packet(None, 700, 1, false, true), 700);
    assert_eq!(resume.get_state(), CrState::Reconnaissance);
}

#[test]
fn missing_fields_are_noticed() {
    assert!(is_readable(b"a,1,b,2"));
    assert!(!is_readable(b"a,1,b"));
    assert!(!is_readable(b""));
}

#[test]
fn setting_up_anew_does_not_move_a_jump() {
    let mut resume = jumped("3000");
    assert_eq!(resume.get_jump_cwnd(), 1500);
    resume.setup(Duration::from_secs(1), 1_000_000);
    assert_eq!(resume.get_jump_cwnd(), 1500);

    let mut resume = OwnResume::new("id", None, NOW);
    resume.setup(Duration::from_secs(1), 1_000_000);
    assert_eq!(resume.get_jump_cwnd(), 0);
    resume.process_ack(10, &packet(1, 1200), 3000, false, after(5));
    assert_eq!(resume.get_jump_cwnd(), 0);
    resume.process_ack(10, &packet(1, 1200), 3000, true, after(5));
    assert_eq!(resume.get_jump_cwnd(), 2000);
}

#[test]
fn a_missing_parameter_disables_it() {
    for text in ["a,x,b,4000", "a,1,b,x", "a,,b,4000", "a,x,b,x"] {
        let mut resume = saved(text);
        assert!(!resume.enabled());
        assert_eq!(resume.get_state(), CrState::Normal);
        assert_eq!(resume.send_packet(None, 700, 1, false, true), 700);
    }
    let mut resume = saved("a,x,b,4000");
    resume.setup(Duration::from_secs(1), 4000);
    assert!(resume.enabled());
    assert!(saved("a,1,b,4000").enabled());
}
