//! Binary floating-point arithmetic on integers.
//!
//! Gains and rates are held as `m * 2^e`. Every operation returns the exact
//! result rounded to a given number of significant bits, to the nearest
//! representable number and to the even one of two equally near, which is how
//! IEEE 754 rounds. With 24 bits the results are those of single precision,
//! with 53 bits those of double precision, as long as neither overflows nor
//! becomes subnormal.

use vstd::arithmetic::power2::*;
use vstd::prelude::*;

verus! {

/// Significant bits of a single-precision number.
pub const SINGLE: u32 = 24;

/// Significant bits of a double-precision number.
pub const DOUBLE: u32 = 53;

/// The largest magnitude of an exponent that the operations accept.
pub const EXPONENT_LIMIT: i32 = 2000;

/// The non-negative number `m * 2^e`.
#[derive(Clone, Copy, Debug, PartialEq, Eq, Structural)]
pub struct Dyadic {
    pub m: u64,
    pub e: i32,
}

impl View for Dyadic {
    type V = (nat, int);

    /// The pair of mantissa and exponent.
    open spec fn view(&self) -> (nat, int) {
        (self.m as nat, self.e as int)
    }
}

/// The integer nearest to `n / d`, the even one of two equally near.
pub open spec fn nearest_even(n: nat, d: nat) -> nat {
    let q = n / d;
    let r = n % d;
    if 2 * r > d || (2 * r == d && q % 2 == 1) {
        q + 1
    } else {
        q
    }
}

/// The numerator of `n / (d * 2^k)`, over whole numbers.
pub open spec fn num_at(n: nat, k: int) -> nat {
    if k < 0 {
        n * pow2((-k) as nat)
    } else {
        n
    }
}

/// The denominator of `n / (d * 2^k)`, over whole numbers.
pub open spec fn den_at(d: nat, k: int) -> nat {
    if k > 0 {
        d * pow2(k as nat)
    } else {
        d
    }
}

/// Whether `n / (d * 2^k)` lies between `2^(p-1)` and `2^p`, that is, whether
/// its whole part has exactly `p` bits.
pub open spec fn fits(n: nat, d: nat, p: nat, k: int) -> bool {
    pow2((p - 1) as nat) * den_at(d, k) <= num_at(n, k) < pow2(p) * den_at(d, k)
}

/// The power of two by which `n / d` is scaled to have `p` bits.
pub open spec fn scale(n: nat, d: nat, p: nat) -> int {
    choose|k: int| fits(n, d, p, k)
}

/// `n / d * 2^e` rounded to `p` significant bits.
pub open spec fn rounded(n: nat, d: nat, e: int, p: nat) -> (nat, int) {
    if n == 0 {
        (0, 0)
    } else {
        let k = scale(n, d, p);
        let q = nearest_even(num_at(n, k), den_at(d, k));
        if q == pow2(p) {
            (pow2((p - 1) as nat), e + k + 1)
        } else {
            (q, e + k)
        }
    }
}

/// The whole part of a number.
pub open spec fn whole(a: (nat, int)) -> nat {
    if a.1 >= 0 {
        a.0 * pow2(a.1 as nat)
    } else {
        a.0 / pow2((-a.1) as nat)
    }
}

/// A whole number, or the largest `usize` where it does not fit in one.
pub open spec fn clamped(n: nat) -> nat {
    if n <= usize::MAX {
        n
    } else {
        usize::MAX as nat
    }
}

/// The whole part of `x` times a gain, in single precision.
pub open spec fn scaled(x: nat, gain: (nat, int)) -> nat {
    clamped(whole(product(rounded(x, 1, 0, SINGLE as nat), gain, SINGLE as nat)))
}

/// The number one in single precision.
pub open spec fn one() -> (nat, int) {
    (0x80_0000, -23)
}

/// The mantissa of `a` when it is written with the exponent `e`.
pub open spec fn aligned(a: (nat, int), e: int) -> nat {
    a.0 * pow2((a.1 - e) as nat)
}

/// The exponent to which two numbers are aligned: the smaller one, or that of
/// the other number where one of them is zero.
pub open spec fn low(a: (nat, int), b: (nat, int)) -> int {
    if a.0 == 0 {
        b.1
    } else if b.0 == 0 || a.1 <= b.1 {
        a.1
    } else {
        b.1
    }
}

/// Whether `a` is less than `b`.
pub open spec fn less(a: (nat, int), b: (nat, int)) -> bool {
    aligned(a, low(a, b)) < aligned(b, low(a, b))
}

/// The product `a * b` in `p` bits.
pub open spec fn product(a: (nat, int), b: (nat, int), p: nat) -> (nat, int) {
    rounded(a.0 * b.0, 1, a.1 + b.1, p)
}

/// The quotient `a / b` in `p` bits.
pub open spec fn quotient(a: (nat, int), b: (nat, int), p: nat) -> (nat, int) {
    rounded(a.0, b.0, a.1 - b.1, p)
}

/// The sum `a + b` in `p` bits.
pub open spec fn sum(a: (nat, int), b: (nat, int), p: nat) -> (nat, int) {
    rounded(aligned(a, low(a, b)) + aligned(b, low(a, b)), 1, low(a, b), p)
}

/// The difference `a - b` in `p` bits, for `b` no greater than `a`.
pub open spec fn difference(a: (nat, int), b: (nat, int), p: nat) -> (nat, int) {
    rounded((aligned(a, low(a, b)) - aligned(b, low(a, b))) as nat, 1, low(a, b), p)
}

/// Whether a number is written with exactly `p` bits, or is zero.
pub open spec fn normal(a: (nat, int), p: nat) -> bool {
    ||| a == (0nat, 0int)
    ||| pow2((p - 1) as nat) <= a.0 < pow2(p)
}

impl Dyadic {
    /// Whether the number is written with exactly `p` bits and its exponent
    /// is within the accepted range.
    pub open spec fn wf(self, p: nat) -> bool {
        &&& normal(self@, p)
        &&& -EXPONENT_LIMIT <= self.e <= EXPONENT_LIMIT
    }
}

/// A ratio at the next smaller scale is twice as large.
proof fn lemma_scale_step(n: nat, d: nat, p: nat, k: int)
    requires
        p >= 1,
    ensures
        pow2((p - 1) as nat) * den_at(d, k) <= num_at(n, k) <==> pow2(p) * den_at(d, k - 1)
            <= num_at(n, k - 1),
{
    lemma_pow2_unfold(p);
    let lo = pow2((p - 1) as nat);
    assert(pow2(p) == 2 * lo);
    if k > 0 {
        lemma_pow2_unfold(k as nat);
        let t = pow2((k - 1) as nat);
        assert(pow2(k as nat) == 2 * t);
        if k - 1 == 0 {
            lemma2_to64();
        }
        assert(den_at(d, k - 1) == d * t);
        assert(lo * (d * (2 * t)) == (2 * lo) * (d * t)) by (nonlinear_arith);
    } else {
        lemma_pow2_unfold((1 - k) as nat);
        let t = num_at(n, k);
        assert(num_at(n, k - 1) == 2 * t) by {
            if k == 0 {
                lemma2_to64();
                let s = pow2(1);
                assert(n * s == 2 * n) by (nonlinear_arith)
                    requires
                        s == 2,
                ;
            } else {
                let s = pow2((-k) as nat);
                assert(pow2((1 - k) as nat) == 2 * s);
                assert(n * (2 * s) == 2 * (n * s)) by (nonlinear_arith);
            }
        }
        assert((2 * lo) * d == 2 * (lo * d)) by (nonlinear_arith);
    }
}

/// A ratio at every smaller scale has more than `p` bits.
proof fn lemma_scale_below(n: nat, d: nat, p: nat, k: int, j: int)
    requires
        p >= 1,
        pow2((p - 1) as nat) * den_at(d, k) <= num_at(n, k),
        j < k,
    ensures
        pow2(p) * den_at(d, j) <= num_at(n, j),
    decreases k - j,
{
    if j == k - 1 {
        lemma_scale_step(n, d, p, k);
    } else {
        lemma_scale_below(n, d, p, k, j + 1);
        lemma_pow2_unfold(p);
        let lo = pow2((p - 1) as nat);
        let t = den_at(d, j + 1);
        assert(lo * t <= (2 * lo) * t) by (nonlinear_arith)
            requires
                lo >= 0,
                t >= 0,
        ;
        lemma_scale_step(n, d, p, j + 1);
    }
}

/// At most one scale gives a ratio exactly `p` bits.
pub proof fn lemma_scale_unique(n: nat, d: nat, p: nat, k: int)
    requires
        p >= 1,
        fits(n, d, p, k),
    ensures
        scale(n, d, p) == k,
{
    let j = scale(n, d, p);
    assert(fits(n, d, p, j));
    if j < k {
        lemma_scale_below(n, d, p, k, j);
    } else if k < j {
        lemma_scale_below(n, d, p, j, k);
    }
}

/// Whether `n / (d * 2^k)` is at least `2^(p-1)`.
spec fn reaches(n: nat, d: nat, p: nat, k: int) -> bool {
    pow2((p - 1) as nat) * den_at(d, k) <= num_at(n, k)
}

/// Between a scale at which a ratio is large enough and one at which it is
/// not lies the scale that gives it exactly `p` bits.
proof fn lemma_scale_search(n: nat, d: nat, p: nat, k: int, top: int) -> (r: int)
    requires
        p >= 1,
        k < top,
        reaches(n, d, p, k),
        !reaches(n, d, p, top),
    ensures
        fits(n, d, p, r),
    decreases top - k,
{
    if reaches(n, d, p, k + 1) {
        lemma_scale_search(n, d, p, k + 1, top)
    } else {
        lemma_scale_step(n, d, p, k + 1);
        k
    }
}

proof fn lemma_pow2_exceeds(n: nat)
    ensures
        pow2(n) > n,
    decreases n,
{
    lemma2_to64();
    if n > 0 {
        lemma_pow2_exceeds((n - 1) as nat);
        lemma_pow2_unfold(n);
    }
}

/// Every positive ratio has exactly `p` bits at some scale.
pub proof fn lemma_scale_exists(n: nat, d: nat, p: nat)
    requires
        p >= 1,
        n > 0,
        d > 0,
    ensures
        fits(n, d, p, scale(n, d, p)),
{
    let lo = pow2((p - 1) as nat);
    lemma_pow2_pos((p - 1) as nat);
    lemma_pow2_exceeds(d);
    lemma_pow2_exceeds(n);
    let b = (p - 1) + d;
    lemma_pow2_adds((p - 1) as nat, d);
    let t = pow2(d);
    assert(lo * d <= n * (lo * t)) by (nonlinear_arith)
        requires
            n >= 1,
            lo >= 0,
            t >= d,
    ;
    assert(reaches(n, d, p, -b));
    let u = pow2(n);
    assert(lo * (d * u) >= u) by (nonlinear_arith)
        requires
            lo >= 1,
            d >= 1,
            u >= 0,
    ;
    assert(!reaches(n, d, p, n as int));
    let k = lemma_scale_search(n, d, p, -b, n as int);
    assert(fits(n, d, p, k));
}

/// A ratio between `2^a` and `2^b` is scaled by at least `a - p + 1` and at
/// most `b - p` bits.
pub proof fn lemma_scale_bounds(n: nat, d: nat, p: nat, a: int, b: int)
    requires
        p >= 1,
        n > 0,
        d > 0,
        den_at(d, a) <= num_at(n, a),
        num_at(n, b) < den_at(d, b),
    ensures
        a - p + 1 <= scale(n, d, p) <= b - p,
{
    lemma_scale_exists(n, d, p);
    lemma2_to64();
    let k = scale(n, d, p);
    // A ratio of at least `2^a` has one bit at the scale `a`.
    assert(reaches(n, d, 1, a)) by {
        assert(1 * den_at(d, a) == den_at(d, a));
    }
    lemma_bits(n, d, p, a);
    if k < a - p + 1 {
        lemma_scale_below(n, d, p, a - p + 1, k);
    }
    if k > b - p {
        if reaches(n, d, p, b - p + 1) {
            lemma_bits(n, d, p, b);
            assert(1 * den_at(d, b) == den_at(d, b));
            assert(false);
        }
        if k > b - p + 1 {
            lemma_scale_below(n, d, p, k, b - p + 1);
            lemma_threshold_order(p, den_at(d, b - p + 1));
        }
    }
}

/// Reaching one bit at some scale is reaching `p` bits `p - 1` scales below.
proof fn lemma_bits(n: nat, d: nat, p: nat, a: int)
    requires
        p >= 1,
    ensures
        reaches(n, d, 1, a) <==> reaches(n, d, p, a - p + 1),
    decreases p,
{
    if p > 1 {
        lemma_bits(n, d, (p - 1) as nat, a);
        lemma_scale_step(n, d, (p - 1) as nat, a - p + 2);
        assert((p - 1) as nat - 1 == p - 2);
    }
}

proof fn lemma_threshold_order(p: nat, t: nat)
    requires
        p >= 1,
    ensures
        pow2((p - 1) as nat) * t <= pow2(p) * t,
{
    lemma_pow2_unfold(p);
    let lo = pow2((p - 1) as nat);
    assert(lo * t <= (2 * lo) * t) by (nonlinear_arith)
        requires
            lo >= 0,
            t >= 0,
    ;
}

/// The exponent of a ratio between `2^a` and `2^b`, once it is rounded.
pub proof fn lemma_rounded_exponent(n: nat, d: nat, e: int, p: nat, a: int, b: int)
    requires
        p >= 1,
        n > 0,
        d > 0,
        den_at(d, a) <= num_at(n, a),
        num_at(n, b) < den_at(d, b),
    ensures
        e + a - p + 1 <= rounded(n, d, e, p).1 <= e + b - p + 1,
{
    lemma_scale_bounds(n, d, p, a, b);
}

/// The exponent of a whole number between `2^a` and `2^b`.
pub proof fn lemma_integer_exponent(n: nat, p: nat, a: nat, b: nat)
    requires
        p >= 1,
        pow2(a) <= n < pow2(b),
    ensures
        a - p + 1 <= rounded(n, 1, 0, p).1 <= b - p + 1,
{
    lemma_pow2_pos(a);
    lemma2_to64();
    assert(1 * pow2(a) == pow2(a) && 1 * pow2(b) == pow2(b));
    lemma_rounded_exponent(n, 1, 0, p, a as int, b as int);
}

/// The exponent of a product of two positive numbers of `p` bits.
pub proof fn lemma_product_exponent(a: (nat, int), b: (nat, int), p: nat)
    requires
        p >= 1,
        normal(a, p),
        normal(b, p),
        a.0 > 0,
        b.0 > 0,
    ensures
        a.1 + b.1 + p - 1 <= product(a, b, p).1 <= a.1 + b.1 + p + 1,
{
    let lo = pow2((p - 1) as nat);
    let hi = pow2(p);
    let n = a.0 * b.0;
    lemma2_to64();
    lemma_pow2_pos((p - 1) as nat);
    lemma_pow2_adds((p - 1) as nat, (p - 1) as nat);
    lemma_pow2_adds(p, p);
    assert(lo * lo <= n < hi * hi) by (nonlinear_arith)
        requires
            lo <= a.0 < hi,
            lo <= b.0 < hi,
            n == a.0 * b.0,
    ;
    assert(lo * lo >= 1) by (nonlinear_arith)
        requires
            lo >= 1,
    ;
    lemma_rounded_exponent(n, 1, a.1 + b.1, p, 2 * p - 2, 2 * p as int);
}

/// The exponent of a quotient of two positive numbers of `p` bits.
pub proof fn lemma_quotient_exponent(a: (nat, int), b: (nat, int), p: nat)
    requires
        p >= 1,
        normal(a, p),
        normal(b, p),
        a.0 > 0,
        b.0 > 0,
    ensures
        a.1 - b.1 - p <= quotient(a, b, p).1 <= a.1 - b.1 - p + 2,
        quotient(a, b, p).0 > 0,
{
    lemma2_to64();
    lemma_pow2_unfold(p);
    lemma_pow2_pos((p - 1) as nat);
    let two = pow2(1);
    assert(a.0 * two == 2 * a.0 && b.0 * two == 2 * b.0) by (nonlinear_arith)
        requires
            two == 2,
    ;
    lemma_rounded_exponent(a.0, b.0, a.1 - b.1, p, -1, 1);
    lemma_rounded_normal(a.0, b.0, a.1 - b.1, p);
}

/// The exponent of a sum of two positive numbers of `p` bits.
pub proof fn lemma_sum_exponent(a: (nat, int), b: (nat, int), p: nat)
    requires
        p >= 1,
        normal(a, p),
        normal(b, p),
        a.0 > 0,
        b.0 > 0,
    ensures
        low(a, b) <= sum(a, b, p).1 <= (if a.1 <= b.1 { b.1 } else { a.1 }) + 2,
        sum(a, b, p).0 > 0,
{
    let (x, y) = if a.1 <= b.1 { (a, b) } else { (b, a) };
    let gap = (y.1 - x.1) as nat;
    let t = pow2(gap);
    let hi = pow2(p);
    let n = aligned(a, x.1) + aligned(b, x.1);
    lemma2_to64();
    lemma_pow2_pos(gap);
    lemma_pow2_pos((p - 1) as nat);
    lemma_pow2_adds(p, gap);
    lemma_pow2_unfold(p + gap + 1);
    lemma_pow2_pos((p + gap + 1) as nat);
    assert(x.0 * 1 == x.0) by (nonlinear_arith);
    assert(n == x.0 + y.0 * t);
    assert(n < 2 * (hi * t)) by (nonlinear_arith)
        requires
            x.0 < hi,
            y.0 < hi,
            t >= 1,
            n == x.0 + y.0 * t,
    ;
    assert(y.0 * t >= 0) by (nonlinear_arith)
        requires
            y.0 >= 0,
            t >= 0,
    ;
    assert(1 * pow2((p - 1) as nat) == pow2((p - 1) as nat));
    assert(1 * pow2(p + gap + 1) == pow2(p + gap + 1));
    lemma_rounded_exponent(n, 1, x.1, p, p - 1, (p + gap + 1) as int);
    lemma_rounded_normal(n, 1, x.1, p);
}

/// A number of `p` bits is its own sum with zero.
pub proof fn lemma_sum_zero(a: (nat, int), b: (nat, int), p: nat)
    requires
        p >= 1,
        normal(a, p),
        normal(b, p),
        a.0 == 0 || b.0 == 0,
        a.0 > 0 || b.0 > 0,
    ensures
        sum(a, b, p) == if a.0 > 0 { a } else { b },
{
    let x = if a.0 > 0 { a } else { b };
    let y = if a.0 > 0 { b } else { a };
    let t = pow2((y.1 - x.1) as nat);
    lemma2_to64();
    assert(x.0 * 1 == x.0) by (nonlinear_arith);
    assert(0 * t == 0) by (nonlinear_arith);
    assert(aligned(a, x.1) + aligned(b, x.1) == x.0);
    assert(fits(x.0, 1, p, 0)) by {
        assert(pow2((p - 1) as nat) * 1 == pow2((p - 1) as nat));
        assert(pow2(p) * 1 == pow2(p));
    }
    lemma_scale_unique(x.0, 1, p, 0);
    assert(nearest_even(x.0, 1) == x.0) by {
        assert(x.0 / 1 == x.0 && x.0 % 1 == 0);
    }
}

/// A rounded positive ratio has exactly `p` bits.
pub proof fn lemma_rounded_normal(n: nat, d: nat, e: int, p: nat)
    requires
        p >= 1,
        n > 0,
        d > 0,
    ensures
        normal(rounded(n, d, e, p), p),
        rounded(n, d, e, p).0 > 0,
{
    lemma_scale_exists(n, d, p);
    let k = scale(n, d, p);
    let u = num_at(n, k);
    let v = den_at(d, k);
    let lo = pow2((p - 1) as nat);
    let hi = pow2(p);
    lemma_pow2_pos((p - 1) as nat);
    lemma_pow2_unfold(p);
    if k > 0 {
        lemma_pow2_pos(k as nat);
        let t = pow2(k as nat);
        assert(d * t > 0) by (nonlinear_arith)
            requires
                d > 0,
                t > 0,
        ;
    }
    assert(lo <= u / v < hi) by (nonlinear_arith)
        requires
            lo * v <= u < hi * v,
            v > 0,
    ;
}

/// A number of `p` bits, written with the exponent `e + k`.
proof fn lemma_aligned_shift(o: (nat, int), e: int, k: int)
    requires
        e <= o.1,
        e + k <= o.1,
    ensures
        k >= 0 ==> aligned(o, e) == aligned(o, e + k) * pow2(k as nat),
        k <= 0 ==> aligned(o, e + k) == aligned(o, e) * pow2((-k) as nat),
{
    let m = o.0;
    if k >= 0 {
        let t = pow2((o.1 - e - k) as nat);
        let u = pow2(k as nat);
        lemma_pow2_adds((o.1 - e - k) as nat, k as nat);
        assert(m * (t * u) == (m * t) * u) by (nonlinear_arith);
    }
    if k <= 0 {
        let t = pow2((o.1 - e) as nat);
        let u = pow2((-k) as nat);
        lemma_pow2_adds((o.1 - e) as nat, (-k) as nat);
        assert(m * (t * u) == (m * t) * u) by (nonlinear_arith);
    }
}

proof fn lemma_double(n: nat)
    ensures
        n * pow2(1) == 2 * n,
{
    lemma2_to64();
    let two = pow2(1);
    assert(n * two == 2 * n) by (nonlinear_arith)
        requires
            two == 2,
    ;
}

/// Rounding does not take a number below one of `p` bits that is no greater.
pub proof fn lemma_rounded_at_least(n: nat, e: int, o: (nat, int), p: nat)
    requires
        p >= 1,
        normal(o, p),
        o.0 > 0,
        e <= o.1,
        n >= aligned(o, e),
    ensures
        !less(rounded(n, 1, e, p), o),
{
    let big = pow2(p);
    let half = pow2((p - 1) as nat);
    let a0 = aligned(o, e);
    lemma2_to64();
    lemma_pow2_unfold(p);
    lemma_pow2_pos((p - 1) as nat);
    lemma_pow2_pos((o.1 - e) as nat);
    let t0 = pow2((o.1 - e) as nat);
    assert(o.0 * t0 > 0) by (nonlinear_arith)
        requires
            o.0 > 0,
            t0 > 0,
    ;
    lemma_scale_exists(n, 1, p);
    lemma_rounded_normal(n, 1, e, p);
    let k = scale(n, 1, p);
    let u = num_at(n, k);
    let v = den_at(1, k);
    let q = nearest_even(u, v);
    let r = rounded(n, 1, e, p);
    if r.1 > o.1 {
        lemma_pow2_unfold((r.1 - o.1) as nat);
        lemma_pow2_pos((r.1 - o.1 - 1) as nat);
        let g = pow2((r.1 - o.1) as nat);
        let m = r.0;
        assert(m * g >= big) by (nonlinear_arith)
            requires
                m >= half,
                g >= 2,
                big == 2 * half,
        ;
        let m = o.0;
        assert(m * pow2(0) == m) by (nonlinear_arith)
            requires
                pow2(0) == 1,
        ;
    } else {
        let a = aligned(o, e + k);
        lemma_aligned_shift(o, e, k);
        assert(q >= a) by {
            if k <= 0 {
                let w = pow2((-k) as nat);
                assert(u / 1 == u && u % 1 == 0);
                assert(n * w >= a0 * w) by (nonlinear_arith)
                    requires
                        n >= a0,
                        w >= 0,
                ;
                if k == 0 {
                    assert(n * w == n) by (nonlinear_arith)
                        requires
                            w == 1,
                    ;
                }
            } else {
                let w = pow2(k as nat);
                lemma_pow2_pos(k as nat);
                assert(1 * w == w);
                assert(n / w >= a) by (nonlinear_arith)
                    requires
                        n >= a * w,
                        w > 0,
                ;
            }
        }
        if q == big {
            lemma_aligned_shift(o, e + k, 1);
            lemma_double(aligned(o, e + k + 1));
        }
        let m = r.0;
        assert(m * pow2(0) == m) by (nonlinear_arith)
            requires
                pow2(0) == 1,
        ;
    }
}

/// Rounding does not take a number above one of `p` bits that is no smaller.
pub proof fn lemma_rounded_at_most(n: nat, e: int, o: (nat, int), p: nat)
    requires
        p >= 1,
        normal(o, p),
        o.0 > 0,
        e <= o.1,
        0 < n <= aligned(o, e),
    ensures
        !less(o, rounded(n, 1, e, p)),
{
    let big = pow2(p);
    let half = pow2((p - 1) as nat);
    let a0 = aligned(o, e);
    lemma2_to64();
    lemma_pow2_unfold(p);
    lemma_pow2_pos((p - 1) as nat);
    lemma_scale_exists(n, 1, p);
    lemma_rounded_normal(n, 1, e, p);
    let k = scale(n, 1, p);
    let u = num_at(n, k);
    let v = den_at(1, k);
    let q = nearest_even(u, v);
    let r = rounded(n, 1, e, p);
    assert(e + k <= o.1) by {
        if e + k > o.1 {
            let g = (o.1 - e) as nat;
            let t = pow2(g);
            let w = pow2((k - 1) as nat);
            let m = o.0;
            lemma_pow2_unfold(k as nat);
            lemma_pow2_pos(g);
            if g < k - 1 {
                lemma_pow2_strictly_increases(g, (k - 1) as nat);
            }
            assert(1 * pow2(k as nat) == pow2(k as nat));
            assert(m * t < half * (2 * w)) by (nonlinear_arith)
                requires
                    m < 2 * half,
                    t <= w,
                    t >= 1,
                    half >= 1,
            {
                assert(m * t < (2 * half) * t);
                assert((2 * half) * t <= (2 * half) * w);
            }
        }
    }
    let a = aligned(o, e + k);
    lemma_aligned_shift(o, e, k);
    assert(q <= a) by {
        if k <= 0 {
            let w = pow2((-k) as nat);
            assert(u / 1 == u && u % 1 == 0);
            assert(n * w <= a0 * w) by (nonlinear_arith)
                requires
                    n <= a0,
                    w >= 0,
            ;
            if k == 0 {
                assert(n * w == n) by (nonlinear_arith)
                    requires
                        w == 1,
                ;
            }
        } else {
            let w = pow2(k as nat);
            lemma_pow2_pos(k as nat);
            assert(1 * w == w);
            assert(n % w > 0 ==> n / w + 1 <= a) by (nonlinear_arith)
                requires
                    n <= a * w,
                    w > 0,
            ;
            assert(n % w == 0 ==> n / w <= a) by (nonlinear_arith)
                requires
                    n <= a * w,
                    w > 0,
            ;
        }
    }
    if q == big {
        if e + k == o.1 {
            let m = o.0;
            assert(m * pow2(0) == m) by (nonlinear_arith)
                requires
                    pow2(0) == 1,
            ;
        }
        lemma_aligned_shift(o, e + k, 1);
        lemma_double(aligned(o, e + k + 1));
    }
    let m = r.0;
    assert(m * pow2(0) == m) by (nonlinear_arith)
        requires
            pow2(0) == 1,
    ;
}

/// A sum in `p` bits is no less than its first term, and a difference no
/// greater.
pub proof fn lemma_sum_and_difference(a: (nat, int), b: (nat, int), p: nat)
    requires
        p >= 1,
        normal(a, p),
        normal(b, p),
    ensures
        !less(sum(a, b, p), a),
        !less(a, b) ==> !less(a, difference(a, b, p)),
{
    let l = low(a, b);
    let t = pow2((a.1 - l) as nat);
    let u = pow2((b.1 - l) as nat);
    let m = b.0;
    assert(0 * t == 0 && 0 * u == 0) by (nonlinear_arith);
    assert(m * u >= 0) by (nonlinear_arith)
        requires
            m >= 0,
            u >= 0,
    ;
    if a.0 > 0 {
        let n = (aligned(a, l) - aligned(b, l)) as nat;
        lemma_rounded_at_least(aligned(a, l) + aligned(b, l), l, a, p);
        if !less(a, b) && n > 0 {
            lemma_rounded_at_most(n, l, a, p);
        } else if !less(a, b) {
            let z = pow2((0 - a.1) as nat);
            assert(0 * z == 0) by (nonlinear_arith);
        }
    } else if b.0 > 0 {
        lemma2_to64();
        assert(m * pow2(0) == m) by (nonlinear_arith)
            requires
                pow2(0) == 1,
        ;
    }
}

/// Two to the power of `k`.
fn power(k: u32) -> (r: u128)
    requires
        k < 128,
    ensures
        r == pow2(k as nat),
        r >= 1,
{
    let mut r: u128 = 1;
    let mut i: u32 = 0;
    proof {
        lemma2_to64();
    }
    while i < k
        invariant
            i <= k < 128,
            r == pow2(i as nat),
        decreases k - i,
    {
        proof {
            lemma_pow2_unfold((i + 1) as nat);
            lemma_power_limit((i + 1) as nat);
        }
        r = r * 2;
        i = i + 1;
    }
    proof {
        lemma_pow2_pos(k as nat);
    }
    r
}

proof fn lemma_power_limit(k: nat)
    requires
        k < 128,
    ensures
        pow2(k) <= 0x8000_0000_0000_0000_0000_0000_0000_0000u128,
{
    lemma2_to64_rest();
    lemma_pow2_adds(63, 64);
    lemma2_to64();
    if k < 127 {
        lemma_pow2_strictly_increases(k, 127);
    }
    assert(0x8000_0000_0000_0000 * 0x1_0000_0000_0000_0000
        == 0x8000_0000_0000_0000_0000_0000_0000_0000) by (nonlinear_arith);
}

/// Bounds on the thresholds between which a scaled ratio has `p` bits.
proof fn lemma_threshold(p: nat, d: nat)
    requires
        1 <= p <= 53,
        d < 0x1_0000_0000_0000_0000,
    ensures
        pow2(p) == 2 * pow2((p - 1) as nat),
        0 < pow2((p - 1) as nat) <= 0x10_0000_0000_0000,
        pow2((p - 1) as nat) * d < 0x10_0000_0000_0000 * 0x1_0000_0000_0000_0000,
{
    lemma_pow2_unfold(p);
    lemma2_to64_rest();
    lemma_pow2_pos((p - 1) as nat);
    if p < 53 {
        lemma_pow2_strictly_increases((p - 1) as nat, 52);
    }
    let lo = pow2((p - 1) as nat);
    assert(lo * d <= 0x10_0000_0000_0000 * d) by (nonlinear_arith)
        requires
            lo <= 0x10_0000_0000_0000,
            d >= 0,
    ;
}

/// A power of two below `2^118` has an exponent below 118.
proof fn lemma_exponent_limit(k: nat)
    requires
        pow2(k) < 0x40_0000_0000_0000 * 0x1_0000_0000_0000_0000,
    ensures
        k < 118,
{
    if k >= 118 {
        lemma2_to64_rest();
        lemma2_to64();
        lemma_pow2_adds(54, 64);
        if k > 118 {
            lemma_pow2_strictly_increases(118, k);
        }
    }
}

/// `n / d * 2^e`, rounded to `p` significant bits.
#[verifier::rlimit(40)]
pub fn round(n: u128, d: u128, e: i32, p: u32) -> (r: Dyadic)
    requires
        1 <= p <= 53,
        0 < d < 0x1_0000_0000_0000_0000,
        n < 0x40_0000_0000_0000 * 0x1_0000_0000_0000_0000,
        -10000 <= e <= 10000,
    ensures
        r@ == rounded(n as nat, d as nat, e as int, p as nat),
        normal(r@, p as nat),
        n == 0 ==> r.m == 0 && r.e == 0,
        n > 0 ==> r.m > 0 && e - 118 <= r.e <= e + 119,
{
    if n == 0 {
        return Dyadic { m: 0, e: 0 };
    }
    let lo = power(p - 1);
    proof {
        lemma_threshold(p as nat, d as nat);
        lemma2_to64();
    }
    let hi: u128 = lo * 2;
    let mut num: u128 = n;
    let mut den: u128 = d;
    let mut up: u32 = 0;
    let mut down: u32 = 0;
    while num < lo * d
        invariant
            lo == pow2((p - 1) as nat),
            lo * d < 0x10_0000_0000_0000 * 0x1_0000_0000_0000_0000,
            num == n * pow2(up as nat),
            num >= 1,
            n >= 1,
            up < 118,
            up > 0 ==> num < 2 * (lo * d),
            num < 0x40_0000_0000_0000 * 0x1_0000_0000_0000_0000,
        decreases 2 * (lo * d) - num,
    {
        proof {
            lemma_pow2_unfold((up + 1) as nat);
            let t = pow2(up as nat);
            assert(n * (2 * t) == 2 * (n * t)) by (nonlinear_arith);
            assert(pow2((up + 1) as nat) <= num * 2) by {
                assert(2 * t <= 2 * (n * t)) by (nonlinear_arith)
                    requires
                        n >= 1,
                        t >= 0,
                ;
            }
            lemma_exponent_limit((up + 1) as nat);
        }
        num = num * 2;
        up = up + 1;
    }
    proof {
        assert(hi * d == 2 * (lo * d)) by (nonlinear_arith)
            requires
                hi == lo * 2,
        ;
    }
    while num >= hi * den
        invariant
            lo == pow2((p - 1) as nat),
            hi == 2 * lo,
            0 < lo <= 0x10_0000_0000_0000,
            num == n * pow2(up as nat),
            num < 0x40_0000_0000_0000 * 0x1_0000_0000_0000_0000,
            den == d * pow2(down as nat),
            den >= d >= 1,
            lo * den <= num,
            up > 0 ==> num < hi * d,
            hi * den < 0x80_0000_0000_0000 * 0x1_0000_0000_0000_0000,
            up > 0 ==> down == 0,
            down < 118,
        decreases num - lo * den,
    {
        proof {
            lemma_pow2_unfold((down + 1) as nat);
            let t = pow2(down as nat);
            lemma_pow2_pos(down as nat);
            if up > 0 {
                lemma2_to64();
                assert(d * t == d) by (nonlinear_arith)
                    requires
                        t == 1,
                ;
            }
            assert(d * (2 * t) == 2 * (d * t)) by (nonlinear_arith);
            assert(lo * (2 * den) == hi * den) by (nonlinear_arith)
                requires
                    hi == 2 * lo,
            ;
            assert(hi * (2 * den) == 2 * (hi * den)) by (nonlinear_arith);
            assert(2 * t <= 2 * den) by (nonlinear_arith)
                requires
                    den == d * t,
                    d >= 1,
                    t >= 1,
            ;
            assert(2 * den <= lo * (2 * den)) by (nonlinear_arith)
                requires
                    lo >= 1,
                    den >= 1,
            ;
            lemma_exponent_limit((down + 1) as nat);
            assert(lo * den < lo * (2 * den)) by (nonlinear_arith)
                requires
                    lo >= 1,
                    den >= 1,
            ;
        }
        den = den * 2;
        down = down + 1;
    }
    let k: i32 = down as i32 - up as i32;
    let q: u128 = num / den;
    let rem: u128 = num % den;
    proof {
        lemma2_to64();
        assert(n * 1 == n) by (nonlinear_arith);
        assert(d * 1 == d) by (nonlinear_arith);
        assert(num == num_at(n as nat, k as int));
        assert(den == den_at(d as nat, k as int));
        assert(fits(n as nat, d as nat, p as nat, k as int));
        lemma_scale_unique(n as nat, d as nat, p as nat, k as int);
        assert(lo <= q < hi) by (nonlinear_arith)
            requires
                lo * den <= num < hi * den,
                den >= 1,
                q == num / den,
        ;
        assert(rem < den);
    }
    let near: u128 = if rem > den - rem || (rem == den - rem && q % 2 == 1) {
        q + 1
    } else {
        q
    };
    if near == hi {
        Dyadic { m: lo as u64, e: e + k + 1 }
    } else {
        Dyadic { m: near as u64, e: e + k }
    }
}

/// The mantissa of a number of at most 53 bits fits in 53 bits.
proof fn lemma_mantissa(a: (nat, int), p: nat)
    requires
        1 <= p <= 53,
        normal(a, p),
    ensures
        a.0 < 0x20_0000_0000_0000,
{
    lemma_threshold(p, 1);
}

/// Aligning to no more than 50 bits below keeps a mantissa within 104 bits.
proof fn lemma_aligned(a: (nat, int), e: int)
    requires
        a.0 < 0x20_0000_0000_0000,
        0 <= a.1 - e <= 50,
    ensures
        aligned(a, e) <= 0x80_0000_0000_0000_0000_0000_0000,
{
    lemma2_to64_rest();
    let t = pow2((a.1 - e) as nat);
    if a.1 - e < 50 {
        lemma_pow2_strictly_increases((a.1 - e) as nat, 50);
    }
    assert(a.0 * t <= 0x20_0000_0000_0000 * 0x4_0000_0000_0000) by (nonlinear_arith)
        requires
            a.0 < 0x20_0000_0000_0000,
            t <= 0x4_0000_0000_0000,
    ;
}

impl Dyadic {
    /// The whole number `n` in `p` bits.
    pub fn from_integer(n: u128, p: u32) -> (r: Dyadic)
        requires
            1 <= p <= 53,
            n < 0x40_0000_0000_0000 * 0x1_0000_0000_0000_0000,
        ensures
            r@ == rounded(n as nat, 1, 0, p as nat),
            normal(r@, p as nat),
            -118 <= r.e <= 119,
            n > 0 ==> r.m > 0,
    {
        round(n, 1, 0, p)
    }

    /// The fraction `n / d` in single precision.
    pub fn single(n: u64, d: u64) -> (r: Dyadic)
        requires
            d > 0,
        ensures
            r@ == rounded(n as nat, d as nat, 0, SINGLE as nat),
            r.wf(SINGLE as nat),
            -118 <= r.e <= 119,
            n > 0 ==> r.m > 0,
    {
        round(n as u128, d as u128, 0, SINGLE)
    }

    /// The number one in single precision.
    pub fn one() -> (r: Dyadic)
        ensures
            r@ == one(),
            r.wf(SINGLE as nat),
            normal(one(), SINGLE as nat),
    {
        proof {
            lemma2_to64();
        }
        Dyadic { m: 0x80_0000, e: -23 }
    }

    /// Whether this is a number in single precision within the accepted range.
    pub fn is_single(self) -> (b: bool)
        ensures
            b == self.wf(SINGLE as nat),
    {
        proof {
            lemma2_to64();
        }
        (self.m == 0 && self.e == 0 || 0x80_0000 <= self.m && self.m < 0x100_0000)
            && -EXPONENT_LIMIT <= self.e && self.e <= EXPONENT_LIMIT
    }

    /// The whole part of `x` times this gain, in single precision.
    pub fn scale(self, x: usize) -> (r: usize)
        requires
            self.wf(SINGLE as nat),
        ensures
            r == scaled(x as nat, self@),
    {
        Dyadic::from_integer(x as u128, SINGLE).times(self, SINGLE).to_usize()
    }

    /// The product of two numbers in `p` bits.
    pub fn times(self, other: Dyadic, p: u32) -> (r: Dyadic)
        requires
            1 <= p <= 53,
            normal(self@, p as nat),
            normal(other@, p as nat),
            -10000 <= self.e + other.e <= 10000,
        ensures
            r@ == product(self@, other@, p as nat),
            normal(r@, p as nat),
            r.e == 0 || self.e + other.e - 118 <= r.e <= self.e + other.e + 119,
    {
        proof {
            lemma_mantissa(self@, p as nat);
            lemma_mantissa(other@, p as nat);
            let a = self.m as int;
            let b = other.m as int;
            assert(a * b < 0x20_0000_0000_0000 * 0x20_0000_0000_0000) by (nonlinear_arith)
                requires
                    0 <= a < 0x20_0000_0000_0000,
                    0 <= b < 0x20_0000_0000_0000,
            ;
        }
        round(self.m as u128 * other.m as u128, 1, self.e + other.e, p)
    }

    /// The quotient of two numbers in `p` bits.
    pub fn over(self, other: Dyadic, p: u32) -> (r: Dyadic)
        requires
            1 <= p <= 53,
            normal(self@, p as nat),
            normal(other@, p as nat),
            other.m > 0,
            -10000 <= self.e - other.e <= 10000,
        ensures
            r@ == quotient(self@, other@, p as nat),
            normal(r@, p as nat),
            r.e == 0 || self.e - other.e - 118 <= r.e <= self.e - other.e + 119,
    {
        round(self.m as u128, other.m as u128, self.e - other.e, p)
    }

    /// The mantissa of the number when it is written with the exponent `e`.
    fn align(self, e: i32) -> (r: u128)
        requires
            self.m < 0x20_0000_0000_0000,
            -10000 <= e <= 10000,
            self.m > 0 ==> 0 <= self.e - e <= 50,
        ensures
            r == aligned(self@, e as int),
            r <= 0x80_0000_0000_0000_0000_0000_0000,
    {
        if self.m == 0 {
            proof {
                let t = pow2((self.e - e) as nat);
                assert(0 * t == 0) by (nonlinear_arith);
            }
            return 0;
        }
        proof {
            lemma_aligned(self@, e as int);
        }
        let t = power((self.e - e) as u32);
        self.m as u128 * t
    }

    /// The sum of two numbers in `p` bits.
    pub fn plus(self, other: Dyadic, p: u32) -> (r: Dyadic)
        requires
            1 <= p <= 53,
            normal(self@, p as nat),
            normal(other@, p as nat),
            -5000 <= self.e <= 5000,
            -5000 <= other.e <= 5000,
            self.m > 0 && other.m > 0 ==> -50 <= self.e - other.e <= 50,
        ensures
            r@ == sum(self@, other@, p as nat),
            normal(r@, p as nat),
            r.e == 0 || low(self@, other@) - 118 <= r.e <= low(self@, other@) + 119,
    {
        proof {
            lemma_mantissa(self@, p as nat);
            lemma_mantissa(other@, p as nat);
        }
        let e = if self.m == 0 {
            other.e
        } else if other.m == 0 || self.e <= other.e {
            self.e
        } else {
            other.e
        };
        round(self.align(e) + other.align(e), 1, e, p)
    }

    /// The difference of two numbers in `p` bits.
    pub fn minus(self, other: Dyadic, p: u32) -> (r: Dyadic)
        requires
            1 <= p <= 53,
            normal(self@, p as nat),
            normal(other@, p as nat),
            -5000 <= self.e <= 5000,
            -5000 <= other.e <= 5000,
            self.m > 0 && other.m > 0 ==> -50 <= self.e - other.e <= 50,
            !less(self@, other@),
        ensures
            r@ == difference(self@, other@, p as nat),
            normal(r@, p as nat),
            r.e == 0 || low(self@, other@) - 118 <= r.e <= low(self@, other@) + 119,
    {
        proof {
            lemma_mantissa(self@, p as nat);
            lemma_mantissa(other@, p as nat);
        }
        let e = if self.m == 0 {
            other.e
        } else if other.m == 0 || self.e <= other.e {
            self.e
        } else {
            other.e
        };
        round(self.align(e) - other.align(e), 1, e, p)
    }

    /// Whether the number is less than another.
    pub fn is_less(self, other: Dyadic) -> (r: bool)
        requires
            -10000 <= self.e <= 10000,
            -10000 <= other.e <= 10000,
        ensures
            r == less(self@, other@),
    {
        proof {
            lemma2_to64();
            assert(self.m * pow2(0) == self.m && other.m * pow2(0) == other.m)
                by (nonlinear_arith)
                requires
                    pow2(0) == 1,
            ;
        }
        if self.m == 0 || other.m == 0 {
            proof {
                let s = pow2((self.e - low(self@, other@)) as nat);
                let t = pow2((other.e - low(self@, other@)) as nat);
                assert(0 * s == 0 && 0 * t == 0) by (nonlinear_arith);
            }
            self.m == 0 && other.m > 0
        } else if self.e <= other.e {
            let d: u32 = (other.e - self.e) as u32;
            proof {
                lemma_shifted(other.m, d as nat);
            }
            if d >= 64 {
                true
            } else {
                (self.m as u128) < other.m as u128 * power(d)
            }
        } else {
            let d: u32 = (self.e - other.e) as u32;
            proof {
                lemma_shifted(self.m, d as nat);
            }
            if d >= 64 {
                false
            } else {
                self.m as u128 * power(d) < other.m as u128
            }
        }
    }

    /// The whole part of the number, or the largest `usize` where it does not
    /// fit in one.
    pub fn to_usize(self) -> (r: usize)
        requires
            -10000 <= self.e <= 10000,
        ensures
            r == clamped(whole(self@)),
    {
        proof {
            lemma2_to64();
        }
        if self.e >= 0 {
            let d: u32 = self.e as u32;
            proof {
                lemma_shifted(self.m, d as nat);
            }
            if self.m == 0 {
                return 0;
            }
            if d >= 64 {
                return usize::MAX;
            }
            let v = self.m as u128 * power(d);
            if v <= usize::MAX as u128 {
                v as usize
            } else {
                usize::MAX
            }
        } else {
            let d: u32 = (-self.e) as u32;
            proof {
                lemma_unshifted(self.m, d as nat);
            }
            if d >= 64 {
                return 0;
            }
            let v = self.m as u128 / power(d);
            if v <= usize::MAX as u128 {
                v as usize
            } else {
                usize::MAX
            }
        }
    }
}

/// A whole number, or the largest `u128` where it does not fit in one.
pub open spec fn clamped_wide(n: nat) -> nat {
    if n <= u128::MAX {
        n
    } else {
        u128::MAX as nat
    }
}

impl Dyadic {
    /// The whole part of the number, or the largest `u128` where it does not
    /// fit in one.
    pub fn to_u128(self) -> (r: u128)
        requires
            -10000 <= self.e <= 10000,
        ensures
            r == clamped_wide(whole(self@)),
    {
        if self.e < 0 {
            let d: u32 = (-self.e) as u32;
            proof {
                lemma_unshifted(self.m, d as nat);
            }
            if d >= 64 {
                return 0;
            }
            let v = self.m as u128 / power(d);
            proof {
                let t = pow2(d as nat) as int;
                let m = self.m as int;
                assert(m / t <= m) by (nonlinear_arith)
                    requires
                        m >= 0,
                        t >= 1,
                ;
            }
            return v;
        }
        let d: u32 = self.e as u32;
        proof {
            lemma_shifted(self.m, d as nat);
        }
        if self.m == 0 {
            return 0;
        }
        if d >= 128 {
            proof {
                lemma_wide(self.m, d as nat);
            }
            return u128::MAX;
        }
        match (self.m as u128).checked_mul(power(d)) {
            Some(v) => v,
            None => u128::MAX,
        }
    }
}

/// A positive mantissa that is shifted up by 128 bits or more exceeds 128 bits.
proof fn lemma_wide(m: u64, d: nat)
    requires
        m > 0,
        d >= 128,
    ensures
        m * pow2(d) > u128::MAX,
{
    lemma2_to64_rest();
    lemma2_to64();
    lemma_pow2_adds(64, 64);
    if d > 128 {
        lemma_pow2_strictly_increases(128, d);
    }
    let t = pow2(d);
    assert(0x1_0000_0000_0000_0000 * 0x1_0000_0000_0000_0000 > u128::MAX) by (nonlinear_arith);
    assert(m * t >= t) by (nonlinear_arith)
        requires
            m >= 1,
            t >= 0,
    ;
}

/// How large a 64-bit mantissa becomes when it is shifted up.
proof fn lemma_shifted(m: u64, d: nat)
    ensures
        m == 0 ==> m * pow2(d) == 0,
        m > 0 && d >= 64 ==> m * pow2(d) > u64::MAX,
        d < 64 ==> m * pow2(d) <= 0x8000_0000_0000_0000_0000_0000_0000_0000,
{
    lemma2_to64();
    lemma2_to64_rest();
    let t = pow2(d);
    if d > 64 {
        lemma_pow2_strictly_increases(64, d);
    } else if d < 63 {
        lemma_pow2_strictly_increases(d, 63);
    }
    if m > 0 && d >= 64 {
        assert(m * t >= t) by (nonlinear_arith)
            requires
                m >= 1,
                t >= 0,
        ;
    }
    if d < 64 {
        assert(m * t <= 0x1_0000_0000_0000_0000 * 0x8000_0000_0000_0000) by (nonlinear_arith)
            requires
                0 <= m <= 0x1_0000_0000_0000_0000,
                0 <= t <= 0x8000_0000_0000_0000,
        ;
    }
    assert(0 * t == 0) by (nonlinear_arith);
}

/// A 64-bit mantissa that is shifted down by 64 bits or more vanishes.
proof fn lemma_unshifted(m: u64, d: nat)
    ensures
        d >= 64 ==> m as nat / pow2(d) == 0,
        pow2(d) > 0,
{
    lemma2_to64_rest();
    lemma_pow2_pos(d);
    if d >= 64 {
        if d > 64 {
            lemma_pow2_strictly_increases(64, d);
        }
        vstd::arithmetic::div_mod::lemma_basic_div(m as int, pow2(d) as int);
    }
}

} // verus!
