//! The observation phase of careful resume: which round-trip times and windows
//! of a connection are worth keeping for the next one.

use vstd::arithmetic::power2::*;
use vstd::prelude::*;

use crate::dyadic::{self, Dyadic, DOUBLE};
use crate::time::{self, Duration, Instant, NANOS_PER_MICRO, NANOS_PER_SEC};

verus! {

/// The seconds after which an observation is always reported.
pub const CR_EVENT_MAXIMUM_GAP: u64 = 60;

/// The number of initial windows that a window must reach to be reported.
pub const WINDOWS_TO_REPORT: usize = 4;

/// An update of the parameters to be kept for future connections.
#[derive(Clone, Copy, Debug, PartialEq, Eq, Structural)]
pub struct CREvent {
    /// A windowed minimum of the round-trip time.
    pub min_rtt: Duration,
    /// The congestion window, in bytes.
    pub cwnd: usize,
}

/// The parameters that were last reported, and when.
pub struct CRMetrics {
    trace_id: String,
    iw: usize,
    min_rtt: Duration,
    cwnd: usize,
    last_update: Instant,
}

/// The state of the observer.
pub struct CRMetricsState {
    pub trace_id: Seq<char>,
    pub iw: nat,
    /// The last reported round-trip time, in nanoseconds.
    pub min_rtt: nat,
    pub cwnd: nat,
    pub last_update: Instant,
}

/// A whole number in double precision.
pub open spec fn double(n: nat) -> (nat, int) {
    dyadic::rounded(n, 1, 0, DOUBLE as nat)
}

/// The tolerated deviation `nanos` after a report, as a part of what was
/// reported: the inverse of the seconds that have passed.
pub open spec fn range(nanos: nat) -> (nat, int) {
    dyadic::quotient(double(1), time::seconds(nanos), DOUBLE as nat)
}

/// The tolerated deviation from a reported value.
pub open spec fn spread(old: nat, range: (nat, int)) -> (nat, int) {
    dyadic::product(double(old), range, DOUBLE as nat)
}

/// Whether a value lies below what is tolerated. Nothing does where more than
/// the reported value is.
pub open spec fn below(old: nat, new: nat, range: (nat, int)) -> bool {
    &&& !dyadic::less(double(old), spread(old, range))
    &&& dyadic::less(
        double(new),
        dyadic::difference(double(old), spread(old, range), DOUBLE as nat),
    )
}

/// Whether a value lies above what is tolerated.
pub open spec fn above(old: nat, new: nat, range: (nat, int)) -> bool {
    dyadic::less(dyadic::sum(double(old), spread(old, range), DOUBLE as nat), double(new))
}

/// Whether a value lies outside what is tolerated.
pub open spec fn outside(old: nat, new: nat, range: (nat, int)) -> bool {
    below(old, new, range) || above(old, new, range)
}

impl CRMetricsState {
    /// Whether the window that must be reached is within a `usize`, and the
    /// last round-trip time is a span.
    pub open spec fn wf(self) -> bool {
        &&& self.iw * WINDOWS_TO_REPORT <= usize::MAX
        &&& self.min_rtt <= time::MAX_NANOS
    }

    /// Whether an observation is reported: it is one of a window that has
    /// grown, and the last report is a minute old or the values have left the
    /// range around it, which narrows with time.
    pub open spec fn reports(self, min_rtt: nat, cwnd: nat, now: Instant) -> bool {
        let gap = time::elapsed(now, self.last_update);
        &&& cwnd >= self.iw * WINDOWS_TO_REPORT
        &&& {
            ||| gap > CR_EVENT_MAXIMUM_GAP * NANOS_PER_SEC
            ||| gap > 0 && (outside(
                self.min_rtt / NANOS_PER_MICRO as nat,
                min_rtt / NANOS_PER_MICRO as nat,
                range(gap),
            ) || outside(self.cwnd, cwnd, range(gap)))
        }
    }

    /// The state after an observation.
    pub open spec fn observed(self, min_rtt: nat, cwnd: nat, now: Instant) -> CRMetricsState {
        if self.reports(min_rtt, cwnd, now) {
            CRMetricsState { min_rtt, cwnd, last_update: now, ..self }
        } else {
            self
        }
    }
}

impl View for CRMetrics {
    type V = CRMetricsState;

    closed spec fn view(&self) -> CRMetricsState {
        CRMetricsState {
            trace_id: self.trace_id@,
            iw: self.iw as nat,
            min_rtt: self.min_rtt.nanos as nat,
            cwnd: self.cwnd as nat,
            last_update: self.last_update,
        }
    }
}

/// The bounds of the tolerated deviation, which keep the sums exact enough to
/// be computed.
proof fn lemma_range(nanos: nat, secs: Dyadic)
    requires
        secs@ == time::seconds(nanos),
        dyadic::normal(secs@, DOUBLE as nat),
        secs.m > 0,
        -99 <= secs.e <= -3,
    ensures
        dyadic::normal(range(nanos), DOUBLE as nat),
        range(nanos).0 > 0,
        -102 <= range(nanos).1 <= -4,
{
    lemma2_to64();
    lemma2_to64_rest();
    lemma_unit();
    dyadic::lemma_quotient_exponent(double(1), secs@, 53);
    dyadic::lemma_rounded_normal(double(1).0, secs@.0, double(1).1 - secs@.1, 53);
}

/// The number one in double precision.
proof fn lemma_unit()
    ensures
        double(1) == (pow2(52), -52int),
        dyadic::normal(double(1), DOUBLE as nat),
{
    lemma2_to64();
    lemma2_to64_rest();
    dyadic::lemma_rounded_normal(1, 1, 0, 53);
    assert(dyadic::fits(1, 1, 53, -52)) by {
        assert(1 * pow2(52) == pow2(52));
    }
    dyadic::lemma_scale_unique(1, 1, 53, -52);
    let m = pow2(52);
    assert(m / 1 == m && m % 1 == 0);
}

/// Whether a value lies outside what is tolerated.
fn lies_outside(old: u128, new: u128, range: Dyadic) -> (r: bool)
    requires
        old < 0x40_0000_0000_0000 * 0x1_0000_0000_0000_0000,
        new < 0x40_0000_0000_0000 * 0x1_0000_0000_0000_0000,
        dyadic::normal(range@, DOUBLE as nat),
        range.m > 0,
        -102 <= range.e <= -4,
    ensures
        r == outside(old as nat, new as nat, range@),
{
    let old_value = Dyadic::from_integer(old, DOUBLE);
    let new_value = Dyadic::from_integer(new, DOUBLE);
    let spread = old_value.times(range, DOUBLE);
    proof {
        if old_value.m > 0 {
            dyadic::lemma_product_exponent(old_value@, range@, 53);
        }
    }
    if !old_value.is_less(spread) && new_value.is_less(old_value.minus(spread, DOUBLE)) {
        return true;
    }
    old_value.plus(spread, DOUBLE).is_less(new_value)
}

impl CRMetrics {
    /// Starts observing at a reading of the clock.
    pub fn new(trace_id: &str, iw: usize, now: Instant) -> (r: CRMetrics)
        ensures
            r@ == (CRMetricsState {
                trace_id: trace_id@,
                iw: iw as nat,
                min_rtt: 0,
                cwnd: 0,
                last_update: now,
            }),
    {
        CRMetrics {
            trace_id: trace_id.to_owned(),
            iw,
            min_rtt: Duration::zero(),
            cwnd: 0,
            last_update: now,
        }
    }

    /// Takes an observation, and returns it where it is worth keeping.
    pub fn maybe_update(
        &mut self,
        new_min_rtt: Duration,
        new_cwnd: usize,
        now: Instant,
    ) -> (event: Option<CREvent>)
        requires
            old(self)@.wf(),
            new_min_rtt.wf(),
        ensures
            final(self)@ == old(self)@.observed(new_min_rtt.nanos as nat, new_cwnd as nat, now),
            final(self)@.wf(),
            event == if old(self)@.reports(new_min_rtt.nanos as nat, new_cwnd as nat, now) {
                Some(CREvent { min_rtt: new_min_rtt, cwnd: new_cwnd })
            } else {
                None
            },
    {
        let gap = now.since(self.last_update);
        let should_update = if new_cwnd < self.iw * WINDOWS_TO_REPORT {
            false
        } else if gap.nanos > Duration::from_secs(CR_EVENT_MAXIMUM_GAP).nanos {
            true
        } else if gap.nanos == 0 {
            false
        } else {
            let secs = gap.as_secs_double();
            proof {
                lemma_range(gap.nanos as nat, secs);
                lemma_unit();
            }
            let range = Dyadic::from_integer(1, DOUBLE).over(secs, DOUBLE);
            lies_outside(self.min_rtt.as_micros(), new_min_rtt.as_micros(), range)
                || lies_outside(self.cwnd as u128, new_cwnd as u128, range)
        };
        if should_update {
            self.min_rtt = new_min_rtt;
            self.cwnd = new_cwnd;
            self.last_update = now;
            Some(CREvent { cwnd: new_cwnd, min_rtt: new_min_rtt })
        } else {
            None
        }
    }
}

/// A value that has not changed lies within what is tolerated.
proof fn lemma_same_is_tolerated(old: nat, range: (nat, int))
    ensures
        !outside(old, old, range),
{
    let a = double(old);
    let b = spread(old, range);
    lemma_unit();
    if old > 0 {
        dyadic::lemma_rounded_normal(old, 1, 0, 53);
    }
    if a.0 * range.0 > 0 {
        dyadic::lemma_rounded_normal(a.0 * range.0, 1, a.1 + range.1, 53);
    }
    dyadic::lemma_sum_and_difference(a, b, 53);
}

/// Within a minute of a report, what was reported is not reported again.
pub proof fn repetition_is_not_reported(s: CRMetricsState, now: Instant)
    requires
        time::elapsed(now, s.last_update) <= CR_EVENT_MAXIMUM_GAP * NANOS_PER_SEC,
    ensures
        !s.reports(s.min_rtt, s.cwnd, now),
        s.observed(s.min_rtt, s.cwnd, now) == s,
{
    let r = range(time::elapsed(now, s.last_update));
    lemma_same_is_tolerated(s.min_rtt / NANOS_PER_MICRO as nat, r);
    lemma_same_is_tolerated(s.cwnd, r);
}

/// At the instant of a report nothing else is reported, whatever it is.
pub proof fn one_report_an_instant(
    s: CRMetricsState,
    now: Instant,
    min_rtt: nat,
    cwnd: nat,
    other_rtt: nat,
    other_cwnd: nat,
)
    requires
        s.reports(min_rtt, cwnd, now),
    ensures
        !s.observed(min_rtt, cwnd, now).reports(other_rtt, other_cwnd, now),
{
}

/// A window of fewer than four initial ones is never reported, and any other
/// one is once a minute has passed.
pub proof fn old_reports_are_renewed(s: CRMetricsState, now: Instant, min_rtt: nat, cwnd: nat)
    requires
        time::elapsed(now, s.last_update) > CR_EVENT_MAXIMUM_GAP * NANOS_PER_SEC,
    ensures
        s.reports(min_rtt, cwnd, now) <==> cwnd >= s.iw * WINDOWS_TO_REPORT,
{
}

/// Whether native double precision finds a value outside the tolerated range,
/// a number of nanoseconds after a report: more than the reported value away,
/// over the seconds that have passed, in either direction.
pub open spec fn strays(old: nat, new: nat, nanos: nat) -> bool {
    let secs = dyadic::sum(
        dyadic::rounded(nanos / 1_000_000_000, 1, 0, 53),
        dyadic::quotient(
            dyadic::rounded(nanos % 1_000_000_000, 1, 0, 53),
            dyadic::rounded(1_000_000_000, 1, 0, 53),
            53,
        ),
        53,
    );
    let o = dyadic::rounded(old, 1, 0, 53);
    let n = dyadic::rounded(new, 1, 0, 53);
    let away = dyadic::product(
        o,
        dyadic::quotient(dyadic::rounded(1, 1, 0, 53), secs, 53),
        53,
    );
    ||| dyadic::less(dyadic::sum(o, away, 53), n)
    ||| !dyadic::less(o, away) && dyadic::less(n, dyadic::difference(o, away, 53))
}

/// An observation is reported where its window is at least four initial ones,
/// and either a minute has passed since the last report, or some time has and
/// its round-trip time, in microseconds, or its window strays from what was
/// reported then. What is reported is the observation, and it is what the next
/// one is held against; an observation that is not leaves nothing behind.
pub proof fn straying_observations_are_reported(
    s: &mut CRMetrics,
    min_rtt: Duration,
    cwnd: usize,
    now: Instant,
    event: Option<CREvent>,
)
    requires
        call_ensures(CRMetrics::maybe_update, (s, min_rtt, cwnd, now), event),
    ensures
        ({
            let b = old(s)@;
            let gap = now.nanos - b.last_update.nanos;
            event is Some <==> {
                &&& cwnd >= 4 * b.iw
                &&& {
                    ||| gap > 60_000_000_000
                    ||| gap > 0 && strays(b.min_rtt / 1000, min_rtt.nanos as nat / 1000, gap as nat)
                    ||| gap > 0 && strays(b.cwnd, cwnd as nat, gap as nat)
                }
            }
        }),
        event matches Some(e) ==> {
            &&& e.min_rtt == min_rtt && e.cwnd == cwnd
            &&& final(s)@.min_rtt == min_rtt.nanos && final(s)@.cwnd == cwnd
            &&& final(s)@.last_update == now
        },
        event is None ==> final(s)@ == old(s)@,
        final(s)@.iw == old(s)@.iw && final(s)@.trace_id == old(s)@.trace_id,
{
    let gap = time::elapsed(now, old(s)@.last_update);
    assert(WINDOWS_TO_REPORT * old(s)@.iw == 4 * old(s)@.iw);
}

/// Observation starts with nothing reported.
pub proof fn observation_starts_with_nothing(
    trace_id: &str,
    iw: usize,
    now: Instant,
    r: CRMetrics,
)
    requires
        call_ensures(CRMetrics::new, (trace_id, iw, now), r),
    ensures
        r@.trace_id == trace_id@ && r@.iw == iw && r@.last_update == now,
        r@.min_rtt == 0 && r@.cwnd == 0,
{
}

} // verus!
