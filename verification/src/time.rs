//! Spans of time and readings of a monotonic clock, as whole nanoseconds.

use vstd::arithmetic::power2::*;
use vstd::prelude::*;

use crate::dyadic::{self, Dyadic, DOUBLE};

verus! {

pub const NANOS_PER_SEC: u128 = 1_000_000_000;

pub const NANOS_PER_MILLI: u128 = 1_000_000;

pub const NANOS_PER_MICRO: u128 = 1_000;

/// The longest span: `u64::MAX` seconds and 999,999,999 nanoseconds.
pub const MAX_NANOS: u128 = 18_446_744_073_709_551_615_999_999_999;

/// A span of time.
#[derive(Clone, Copy, Debug, PartialEq, Eq, Structural)]
pub struct Duration {
    pub nanos: u128,
}

/// A reading of a monotonic clock: nanoseconds since an arbitrary origin.
#[derive(Clone, Copy, Debug, PartialEq, Eq, Structural)]
pub struct Instant {
    pub nanos: u64,
}

/// The seconds in a span of `nanos` nanoseconds, in double precision: the
/// whole seconds plus the rest divided by a billion.
pub open spec fn seconds(nanos: nat) -> (nat, int) {
    dyadic::sum(
        dyadic::rounded(nanos / NANOS_PER_SEC as nat, 1, 0, DOUBLE as nat),
        dyadic::quotient(
            dyadic::rounded(nanos % NANOS_PER_SEC as nat, 1, 0, DOUBLE as nat),
            dyadic::rounded(NANOS_PER_SEC as nat, 1, 0, DOUBLE as nat),
            DOUBLE as nat,
        ),
        DOUBLE as nat,
    )
}

impl Duration {
    /// Whether the span is no longer than the longest one.
    pub open spec fn wf(self) -> bool {
        self.nanos <= MAX_NANOS
    }

    pub fn zero() -> (d: Duration)
        ensures
            d.nanos == 0,
    {
        Duration { nanos: 0 }
    }

    pub fn from_secs(secs: u64) -> (d: Duration)
        ensures
            d.nanos == secs * NANOS_PER_SEC,
            d.wf(),
    {
        Duration { nanos: secs as u128 * NANOS_PER_SEC }
    }

    pub fn from_millis(millis: u64) -> (d: Duration)
        ensures
            d.nanos == millis * NANOS_PER_MILLI,
            d.wf(),
    {
        Duration { nanos: millis as u128 * NANOS_PER_MILLI }
    }

    pub fn from_micros(micros: u64) -> (d: Duration)
        ensures
            d.nanos == micros * NANOS_PER_MICRO,
            d.wf(),
    {
        Duration { nanos: micros as u128 * NANOS_PER_MICRO }
    }

    /// The whole seconds in the span.
    pub fn as_secs(self) -> (secs: u64)
        requires
            self.wf(),
        ensures
            secs == self.nanos / NANOS_PER_SEC,
    {
        (self.nanos / NANOS_PER_SEC) as u64
    }

    /// The whole milliseconds in the span.
    pub fn as_millis(self) -> (millis: u128)
        ensures
            millis == self.nanos / NANOS_PER_MILLI,
    {
        self.nanos / NANOS_PER_MILLI
    }

    /// The whole microseconds in the span.
    pub fn as_micros(self) -> (micros: u128)
        ensures
            micros == self.nanos / NANOS_PER_MICRO,
    {
        self.nanos / NANOS_PER_MICRO
    }

    /// The seconds in a positive span of at most a minute, in double
    /// precision.
    pub fn as_secs_double(self) -> (secs: Dyadic)
        requires
            0 < self.nanos <= 60 * NANOS_PER_SEC,
        ensures
            secs@ == seconds(self.nanos as nat),
            dyadic::normal(secs@, DOUBLE as nat),
            secs.m > 0,
            -99 <= secs.e <= -3,
    {
        let whole: u128 = self.nanos / NANOS_PER_SEC;
        let rest: u128 = self.nanos % NANOS_PER_SEC;
        let a = Dyadic::from_integer(whole, DOUBLE);
        let c = Dyadic::from_integer(rest, DOUBLE);
        let billion = Dyadic::from_integer(NANOS_PER_SEC, DOUBLE);
        proof {
            lemma2_to64();
            dyadic::lemma_integer_exponent(NANOS_PER_SEC as nat, 53, 29, 30);
            dyadic::lemma_rounded_normal(NANOS_PER_SEC as nat, 1, 0, 53);
            if whole > 0 {
                dyadic::lemma_integer_exponent(whole as nat, 53, 0, 6);
                dyadic::lemma_rounded_normal(whole as nat, 1, 0, 53);
            }
            if rest > 0 {
                dyadic::lemma_integer_exponent(rest as nat, 53, 0, 30);
                dyadic::lemma_rounded_normal(rest as nat, 1, 0, 53);
                dyadic::lemma_quotient_exponent(c@, billion@, 53);
            }
        }
        let b = c.over(billion, DOUBLE);
        proof {
            if whole > 0 && rest > 0 {
                dyadic::lemma_sum_exponent(a@, b@, 53);
            } else {
                dyadic::lemma_sum_zero(a@, b@, 53);
            }
        }
        a.plus(b, DOUBLE)
    }

    /// The span divided by a whole number.
    pub fn divided_by(self, k: u32) -> (d: Duration)
        requires
            k > 0,
        ensures
            d.nanos == self.nanos as nat / k as nat,
    {
        Duration { nanos: self.nanos / k as u128 }
    }

    /// The span multiplied by a whole number.
    pub fn multiplied_by(self, k: u32) -> (d: Duration)
        requires
            self.nanos * k <= MAX_NANOS,
        ensures
            d.nanos == self.nanos * k,
    {
        Duration { nanos: self.nanos * k as u128 }
    }

    /// The sum of two spans.
    pub fn plus(self, other: Duration) -> (d: Duration)
        requires
            self.nanos + other.nanos <= MAX_NANOS,
        ensures
            d.nanos == self.nanos + other.nanos,
    {
        Duration { nanos: self.nanos + other.nanos }
    }

    /// The difference of two spans.
    pub fn minus(self, other: Duration) -> (d: Duration)
        requires
            other.nanos <= self.nanos,
        ensures
            d.nanos == self.nanos - other.nanos,
    {
        Duration { nanos: self.nanos - other.nanos }
    }
}

/// The nanoseconds from `earlier` to `later`, none where the two are reversed.
pub open spec fn elapsed(later: Instant, earlier: Instant) -> nat {
    if later.nanos > earlier.nanos {
        (later.nanos - earlier.nanos) as nat
    } else {
        0
    }
}

impl Instant {
    pub fn from_nanos(nanos: u64) -> (i: Instant)
        ensures
            i.nanos == nanos,
    {
        Instant { nanos }
    }

    /// The span since an earlier reading.
    pub fn since(self, earlier: Instant) -> (d: Duration)
        ensures
            d.nanos == elapsed(self, earlier),
            d.wf(),
    {
        if self.nanos > earlier.nanos {
            Duration { nanos: (self.nanos - earlier.nanos) as u128 }
        } else {
            Duration { nanos: 0 }
        }
    }

    /// The reading a span later.
    pub fn plus(self, d: Duration) -> (i: Instant)
        requires
            self.nanos + d.nanos <= u64::MAX,
        ensures
            i.nanos == self.nanos + d.nanos,
    {
        Instant { nanos: self.nanos + d.nanos as u64 }
    }
}

/// Spans are made of their units, and give back the whole ones.
pub proof fn spans_are_made_of_units(
    n: u64,
    secs: Duration,
    millis: Duration,
    micros: Duration,
    nothing: Duration,
    d: Duration,
    in_secs: u64,
    in_millis: u128,
    in_micros: u128,
)
    requires
        d.wf(),
        call_ensures(Duration::from_secs, (n,), secs),
        call_ensures(Duration::from_millis, (n,), millis),
        call_ensures(Duration::from_micros, (n,), micros),
        call_ensures(Duration::zero, (), nothing),
        call_ensures(Duration::as_secs, (d,), in_secs),
        call_ensures(Duration::as_millis, (d,), in_millis),
        call_ensures(Duration::as_micros, (d,), in_micros),
    ensures
        secs.nanos == n * 1_000_000_000,
        millis.nanos == n * 1_000_000,
        micros.nanos == n * 1_000,
        nothing.nanos == 0,
        in_secs * 1_000_000_000 <= d.nanos < (in_secs + 1) * 1_000_000_000,
        in_millis * 1_000_000 <= d.nanos < (in_millis + 1) * 1_000_000,
        in_micros * 1_000 <= d.nanos < (in_micros + 1) * 1_000,
{
}

/// Spans and readings are added and taken apart: the span since a reading leads
/// from it to the later one, and is nothing where the two are reversed.
pub proof fn spans_lead_from_one_reading_to_another(
    a: Instant,
    b: Instant,
    span: Duration,
    back: Duration,
    moved: Instant,
    c: Duration,
    d: Duration,
    sum: Duration,
    rest: Duration,
)
    requires
        a.nanos <= b.nanos,
        c.nanos + d.nanos <= MAX_NANOS,
        call_ensures(Instant::since, (b, a), span),
        call_ensures(Instant::since, (a, b), back),
        call_ensures(Instant::plus, (a, span), moved),
        call_ensures(Duration::plus, (c, d), sum),
        call_ensures(Duration::minus, (sum, d), rest),
    ensures
        moved == b,
        span.nanos == b.nanos - a.nanos,
        back.nanos == 0,
        sum.nanos == c.nanos + d.nanos,
        rest.nanos == c.nanos,
{
}

/// A part of a span fits in it as often as it is divided, and a multiple is made
/// of as many.
pub proof fn parts_make_up_a_span(
    d: Duration,
    k: u32,
    part: Duration,
    multiple: Duration,
)
    requires
        k > 0,
        d.nanos * k <= MAX_NANOS,
        call_ensures(Duration::divided_by, (d, k), part),
        call_ensures(Duration::multiplied_by, (d, k), multiple),
    ensures
        part.nanos * k <= d.nanos < (part.nanos + 1) * k,
        multiple.nanos == d.nanos * k,
{
    let n = d.nanos as int;
    let t = k as int;
    vstd::arithmetic::div_mod::lemma_fundamental_div_mod(n, t);
    vstd::arithmetic::div_mod::lemma_mod_bound(n, t);
    let q = n / t;
    assert(q * t <= n && n < (q + 1) * t) by (nonlinear_arith)
        requires
            n == t * q + n % t,
            0 <= n % t < t,
    ;
}

} // verus!
