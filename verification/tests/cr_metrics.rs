use quiche_recovery::cr_metrics::{CREvent, CRMetrics};
use quiche_recovery::time::{Duration, Instant};

const START: u64 = 1_000_000_000;

fn later(nanos: u64) -> Instant {
    Instant::from_nanos(START + nanos)
}

fn reported(cwnd: usize, micros: u64) -> CRMetrics {
    let mut metrics = CRMetrics::new("id", 10, later(0));
    let min_rtt = Duration::from_micros(micros);
    let event = metrics.maybe_update(min_rtt, cwnd, later(1));
    assert_eq!(event, Some(CREvent { min_rtt, cwnd }));
    metrics
}

/// Whether native floats find a value outside the tolerated range.
fn outside(old: f64, new: f64, secs: f64) -> bool {
    let range = 1.0f64 / secs;
    let spread = old * range;
    new < old - spread || new > old + spread
}

#[test]
fn small_windows_are_not_reported() {
    let mut metrics = CRMetrics::new("id", 10, later(0));
    let rtt = Duration::from_millis(50);
    assert_eq!(metrics.maybe_update(rtt, 39, later(90_000_000_000)), None);
    assert!(metrics.maybe_update(rtt, 40, later(90_000_000_000)).is_some());
}

#[test]
fn nothing_is_reported_twice_at_an_instant() {
    let mut metrics = CRMetrics::new("id", 10, later(0));
    assert_eq!(metrics.maybe_update(Duration::from_millis(50), 1000, later(0)), None);
    let mut metrics = reported(1000, 5);
    assert_eq!(metrics.maybe_update(Duration::from_millis(50), 9_000_000, later(1)), None);
}

#[test]
fn a_minute_renews_a_report() {
    let mut metrics = reported(1000, 50_000);
    let rtt = Duration::from_micros(50_000);
    assert_eq!(metrics.maybe_update(rtt, 1000, later(60_000_000_001)), None);
    assert!(metrics.maybe_update(rtt, 1000, later(60_000_000_002)).is_some());
}

#[test]
fn repetition_is_quiet() {
    for nanos in [2u64, 3, 500, 1_000_001, 2_000_000_000, 59_000_000_000] {
        let mut metrics = reported(123_457, 33_333);
        let rtt = Duration::from_micros(33_333);
        assert_eq!(metrics.maybe_update(rtt, 123_457, later(1 + nanos)), None);
    }
}

#[test]
fn the_range_narrows_with_time() {
    // After ten seconds a tenth is tolerated.
    let gap = 10_000_000_000;
    let rtt = Duration::from_micros(50_000);
    for (cwnd, expected) in [(899, true), (900, false), (1000, false), (1100, false), (1101, true)] {
        let mut metrics = reported(1000, 50_000);
        let event = metrics.maybe_update(rtt, cwnd, later(1 + gap));
        assert_eq!(event.is_some(), expected);
    }
    for (micros, expected) in [(44_999, true), (45_000, false), (55_000, false), (55_001, true)] {
        let mut metrics = reported(1000, 50_000);
        let event = metrics.maybe_update(Duration::from_micros(micros), 1000, later(1 + gap));
        assert_eq!(event.is_some(), expected);
    }
}

#[test]
fn reports_are_those_of_native_floats() {
    let gaps = [1u64, 7, 999_999_999, 1_000_000_000, 1_500_000_001, 3_333_333_333, 29_999_999_999];
    let cwnds = [40usize, 1000, 99_991, 1_000_003, 9_007_199_254_740_993];
    for gap in gaps {
        let secs = std::time::Duration::from_nanos(gap).as_secs_f64();
        for old in cwnds {
            for new in [old / 3, old - old / 10, old - 1, old + 1, old + old / 3, old * 2] {
                if new < 40 {
                    continue;
                }
                let mut metrics = reported(old, 2_000);
                let event = metrics.maybe_update(Duration::from_micros(2_000), new, later(1 + gap));
                assert_eq!(event.is_some(), outside(old as f64, new as f64, secs));
                let mut metrics = reported(1_000, old as u64);
                let event =
                    metrics.maybe_update(Duration::from_micros(new as u64), 1_000, later(1 + gap));
                assert_eq!(event.is_some(), outside(old as f64, new as f64, secs));
            }
        }
    }
}

#[test]
fn an_unreported_observation_is_forgotten() {
    let mut metrics = reported(1000, 50_000);
    let rtt = Duration::from_micros(50_000);
    assert_eq!(metrics.maybe_update(rtt, 1090, later(10_000_000_001)), None);
    // Still measured against 1,000, after twenty seconds within a twentieth.
    assert_eq!(metrics.maybe_update(rtt, 1050, later(20_000_000_001)), None);
    assert!(metrics.maybe_update(rtt, 1051, later(20_000_000_001)).is_some());
}
