//! What the operations on numbers return, told by the numbers that they are
//! given.

use vstd::arithmetic::div_mod::*;
use vstd::arithmetic::power2::*;
use vstd::prelude::*;

use crate::dyadic::{self, Dyadic};

verus! {

/// The distance of two whole numbers.
pub open spec fn distance(a: int, b: int) -> int {
    if a >= b {
        a - b
    } else {
        b - a
    }
}

/// Whether `m * 2^k` is as near to `n / d` as a whole multiple of `2^k` can be,
/// and `m` is even where two are equally near.
pub open spec fn is_nearest(m: nat, k: int, n: nat, d: nat) -> bool {
    if k >= 0 {
        let unit = d * pow2(k as nat);
        &&& 2 * distance(n as int, (m * unit) as int) <= unit
        &&& 2 * distance(n as int, (m * unit) as int) == unit ==> m % 2 == 0
    } else {
        let scaled = n * pow2((-k) as nat);
        &&& 2 * distance(scaled as int, (m * d) as int) <= d
        &&& 2 * distance(scaled as int, (m * d) as int) == d ==> m % 2 == 0
    }
}

/// The nearest whole number to a ratio is one, and even of two.
proof fn lemma_nearest(u: nat, v: nat)
    requires
        v > 0,
    ensures
        ({
            let q = dyadic::nearest_even(u, v);
            &&& 2 * distance(u as int, (q * v) as int) <= v
            &&& 2 * distance(u as int, (q * v) as int) == v ==> q % 2 == 0
        }),
{
    let f = u / v;
    let r = u % v;
    lemma_fundamental_div_mod(u as int, v as int);
    lemma_mod_bound(u as int, v as int);
    assert(f * v == v * f) by (nonlinear_arith);
    assert((f + 1) * v == f * v + v) by (nonlinear_arith);
}

/// A rounded ratio has exactly its bits, and is the nearest number with so many,
/// the even one of two.
pub proof fn rounding_is_to_the_nearest(n: nat, d: nat, e: int, p: nat)
    requires
        p >= 2,
        n > 0,
        d > 0,
    ensures
        ({
            let r = dyadic::rounded(n, d, e, p);
            &&& pow2((p - 1) as nat) <= r.0 < pow2(p)
            &&& is_nearest(r.0, r.1 - e, n, d)
        }),
{
    dyadic::lemma_rounded_normal(n, d, e, p);
    dyadic::lemma_scale_exists(n, d, p);
    let k = dyadic::scale(n, d, p);
    let u = dyadic::num_at(n, k);
    let v = dyadic::den_at(d, k);
    let q = dyadic::nearest_even(u, v);
    let r = dyadic::rounded(n, d, e, p);
    let half = pow2((p - 1) as nat);
    lemma2_to64();
    lemma_pow2_unfold(p);
    lemma_pow2_unfold((p - 1) as nat);
    if k > 0 {
        lemma_pow2_pos(k as nat);
        let t = pow2(k as nat);
        assert(d * t > 0) by (nonlinear_arith)
            requires
                d > 0,
                t > 0,
        ;
    }
    lemma_nearest(u, v);
    assert(k == 0 ==> d * pow2(0) == d) by (nonlinear_arith)
        requires
            pow2(0) == 1,
    ;
    if q == pow2(p) {
        if k >= 0 {
            let t = pow2(k as nat);
            lemma_pow2_unfold((k + 1) as nat);
            let big = d * pow2((k + 1) as nat);
            assert(big == 2 * v) by (nonlinear_arith)
                requires
                    big == d * pow2((k + 1) as nat),
                    pow2((k + 1) as nat) == 2 * t,
                    v == d * t,
            ;
            assert(half * big == q * v) by (nonlinear_arith)
                requires
                    big == 2 * v,
                    q == 2 * half,
            ;
        } else if k == -1 {
            let two = pow2(1);
            assert(u == n * two);
            assert(n * two == 2 * n) by (nonlinear_arith)
                requires
                    two == 2,
            ;
            assert(d * pow2(0) == d) by (nonlinear_arith)
                requires
                    pow2(0) == 1,
            ;
            assert(q * d == 2 * (half * d)) by (nonlinear_arith)
                requires
                    q == 2 * half,
            ;
        } else {
            let j = (-k) as nat;
            lemma_pow2_unfold(j);
            let t = pow2((j - 1) as nat);
            assert(u == 2 * (n * t)) by (nonlinear_arith)
                requires
                    u == n * pow2(j),
                    pow2(j) == 2 * t,
            ;
            assert(q * d == 2 * (half * d)) by (nonlinear_arith)
                requires
                    q == 2 * half,
            ;
        }
    } else {
        assert(r == (q, e + k));
    }
}

/// The whole part of a number is the largest whole number not above it, as far
/// as a `usize` holds it.
pub proof fn whole_parts_are_not_above(a: Dyadic, w: usize)
    requires
        call_ensures(Dyadic::to_usize, (a,), w),
    ensures
        a.e < 0 ==> w * pow2((-a.e) as nat) <= a.m && (a.m < (w + 1) * pow2((-a.e) as nat) || w
            == usize::MAX),
        a.e >= 0 ==> w == a.m * pow2(a.e as nat) || (w == usize::MAX && a.m * pow2(a.e as nat)
            > usize::MAX),
{
    if a.e < 0 {
        let t = pow2((-a.e) as nat) as int;
        lemma_pow2_pos((-a.e) as nat);
        let m = a.m as int;
        lemma_fundamental_div_mod(m, t);
        lemma_mod_bound(m, t);
        let q = m / t;
        assert(q * t <= m && m < (q + 1) * t) by (nonlinear_arith)
            requires
                m == t * q + m % t,
                0 <= m % t < t,
        ;
        assert(w * t <= q * t) by (nonlinear_arith)
            requires
                w <= q,
                t > 0,
        ;
    }
}

/// Products, quotients, sums and differences are the exact ones, rounded, and
/// numbers are compared exactly.
pub proof fn operations_round_the_exact_result(
    a: Dyadic,
    b: Dyadic,
    p: u32,
    product: Dyadic,
    quotient: Dyadic,
    sum: Dyadic,
    sum_back: Dyadic,
    less: bool,
    more: bool,
)
    requires
        a.m > 0,
        b.m > 0,
        a.e <= b.e,
        call_ensures(Dyadic::times, (a, b, p), product),
        call_ensures(Dyadic::over, (a, b, p), quotient),
        call_ensures(Dyadic::plus, (a, b, p), sum),
        call_ensures(Dyadic::plus, (b, a, p), sum_back),
        call_ensures(Dyadic::is_less, (a, b), less),
        call_ensures(Dyadic::is_less, (b, a), more),
    ensures
        product@ == dyadic::rounded(a.m as nat * b.m as nat, 1, a.e + b.e, p as nat),
        quotient@ == dyadic::rounded(a.m as nat, b.m as nat, a.e - b.e, p as nat),
        sum@ == dyadic::rounded(
            a.m as nat + b.m as nat * pow2((b.e - a.e) as nat),
            1,
            a.e as int,
            p as nat,
        ),
        sum_back == sum,
        less == (a.m < b.m * pow2((b.e - a.e) as nat)),
        more == (b.m * pow2((b.e - a.e) as nat) < a.m),
{
    lemma2_to64();
    let m = a.m as nat;
    assert(m * pow2(0) == m) by (nonlinear_arith)
        requires
            pow2(0) == 1,
    ;
}

/// A difference is the exact one, rounded, on whichever side the larger exponent
/// stands.
pub proof fn differences_round_the_exact_result(a: Dyadic, b: Dyadic, p: u32, r: Dyadic)
    requires
        a.m > 0,
        b.m > 0,
        !dyadic::less(a@, b@),
        call_ensures(Dyadic::minus, (a, b, p), r),
    ensures
        a.e <= b.e ==> r@ == dyadic::rounded(
            (a.m - b.m * pow2((b.e - a.e) as nat)) as nat,
            1,
            a.e as int,
            p as nat,
        ),
        a.e > b.e ==> r@ == dyadic::rounded(
            (a.m * pow2((a.e - b.e) as nat) - b.m) as nat,
            1,
            b.e as int,
            p as nat,
        ),
{
    lemma2_to64();
    let m = a.m as nat;
    let n = b.m as nat;
    assert(m * pow2(0) == m && n * pow2(0) == n) by (nonlinear_arith)
        requires
            pow2(0) == 1,
    ;
}

/// A gain scales a number to the whole part of their product, both in single
/// precision; whole numbers and ratios of them are rounded as they are.
pub proof fn gains_scale_by_their_product(
    gain: Dyadic,
    x: usize,
    y: usize,
    n: u128,
    p: u32,
    whole: Dyadic,
    a: u64,
    b: u64,
    ratio: Dyadic,
)
    requires
        call_ensures(Dyadic::scale, (gain, x), y),
        call_ensures(Dyadic::from_integer, (n, p), whole),
        call_ensures(Dyadic::single, (a, b), ratio),
    ensures
        ({
            let f = dyadic::rounded(x as nat, 1, 0, 24);
            let product = dyadic::rounded(f.0 * gain.m as nat, 1, f.1 + gain.e, 24);
            let floor = if product.1 >= 0 {
                product.0 * pow2(product.1 as nat)
            } else {
                product.0 / pow2((-product.1) as nat)
            };
            y == floor || (floor > usize::MAX && y == usize::MAX)
        }),
        whole@ == dyadic::rounded(n as nat, 1, 0, p as nat),
        ratio@ == dyadic::rounded(a as nat, b as nat, 0, 24),
{
}

} // verus!
