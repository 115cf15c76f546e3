use quiche_recovery::dyadic::{Dyadic, DOUBLE, SINGLE};
use quiche_recovery::time::Duration;

fn to_f64(d: Dyadic) -> f64 {
    d.m as f64 * (d.e as f64).exp2()
}

fn to_f32(d: Dyadic) -> f32 {
    to_f64(d) as f32
}

const NUMBERS: [u64; 14] = [
    0,
    1,
    2,
    3,
    10,
    1299,
    1300,
    65_537,
    16_777_217,
    16_777_219,
    4_294_967_295,
    9_007_199_254_740_993,
    9_007_199_254_740_995,
    18_446_744_073_709_551_615,
];

#[test]
fn integers_round_as_floats_do() {
    for n in NUMBERS {
        assert_eq!(to_f64(Dyadic::from_integer(n as u128, DOUBLE)), n as f64);
        assert_eq!(to_f32(Dyadic::from_integer(n as u128, SINGLE)), n as f32);
    }
}

#[test]
fn ties_round_to_even() {
    // Halfway between two numbers of 24 bits: down to even, then up to even.
    assert_eq!(Dyadic::from_integer(16_777_217, SINGLE), Dyadic { m: 8_388_608, e: 1 });
    assert_eq!(Dyadic::from_integer(16_777_219, SINGLE), Dyadic { m: 8_388_610, e: 1 });
    // All ones round up to the next power of two.
    assert_eq!(Dyadic::from_integer(0x1ff_ffff, SINGLE), Dyadic { m: 8_388_608, e: 2 });
}

#[test]
fn fractions_round_as_floats_do() {
    assert_eq!(to_f32(Dyadic::single(9, 10)), 0.9f32);
    assert_eq!(to_f32(Dyadic::single(15, 1000)), 0.015f32);
    assert_eq!(to_f32(Dyadic::single(2773, 1000)), 2.773f32);
    assert_eq!(to_f32(Dyadic::single(3, 10)), 0.3f32);
    assert_eq!(to_f32(Dyadic::one()), 1.0f32);
}

#[test]
fn products_and_quotients_round_as_floats_do() {
    for a in NUMBERS {
        for b in NUMBERS {
            let x = Dyadic::from_integer(a as u128, DOUBLE);
            let y = Dyadic::from_integer(b as u128, DOUBLE);
            assert_eq!(to_f64(x.times(y, DOUBLE)), a as f64 * b as f64);
            assert_eq!(x.is_less(y), (a as f64) < b as f64);
            if b > 0 {
                assert_eq!(to_f64(x.over(y, DOUBLE)), a as f64 / b as f64);
            }
            let x = Dyadic::from_integer(a as u128, SINGLE);
            let y = Dyadic::from_integer(b as u128, SINGLE);
            assert_eq!(to_f32(x.times(y, SINGLE)), a as f32 * b as f32);
            if b > 0 {
                assert_eq!(to_f32(x.over(y, SINGLE)), a as f32 / b as f32);
            }
        }
    }
}

#[test]
fn sums_and_differences_round_as_floats_do() {
    for a in NUMBERS {
        for b in NUMBERS {
            let x = Dyadic::from_integer(a as u128, DOUBLE);
            let y = Dyadic::from_integer(b as u128, DOUBLE);
            if a > 0 && b > 0 && (x.e - y.e > 50 || y.e - x.e > 50) {
                continue;
            }
            assert_eq!(to_f64(x.plus(y, DOUBLE)), a as f64 + b as f64);
            if a as f64 >= b as f64 {
                assert_eq!(to_f64(x.minus(y, DOUBLE)), a as f64 - b as f64);
            }
        }
    }
}

#[test]
fn sums_and_differences_stay_on_their_side() {
    for a in NUMBERS {
        for b in [1u64, 7, 1300] {
            let x = Dyadic::from_integer(a as u128, DOUBLE);
            let y = Dyadic::from_integer(b as u128, DOUBLE);
            if a > 0 && x.e - y.e > 50 {
                continue;
            }
            assert!(!x.plus(y, DOUBLE).is_less(x));
            if !x.is_less(y) {
                assert!(!x.is_less(x.minus(y, DOUBLE)));
            }
        }
    }
}

#[test]
fn gains_scale_as_floats_do() {
    for n in [0usize, 1, 1300, 333_000, 16_777_217, 999_999_999, usize::MAX] {
        assert_eq!(Dyadic::single(5, 4).scale(n), (n as f32 * 1.25f32) as usize);
        assert_eq!(Dyadic::single(9, 10).scale(n), (n as f32 * 0.9f32) as usize);
        assert_eq!(Dyadic::single(15, 1000).scale(n), (n as f32 * 0.015f32) as usize);
    }
}

#[test]
fn whole_parts() {
    assert_eq!(Dyadic::single(5, 2).to_usize(), 2);
    assert_eq!(Dyadic::single(9, 10).to_usize(), 0);
    assert_eq!(Dyadic { m: 1 << 23, e: 100 }.to_usize(), usize::MAX);
    assert_eq!(Dyadic { m: 1 << 23, e: 105 }.to_u128(), u128::MAX);
    assert_eq!(Dyadic { m: 1 << 23, e: 100 }.to_u128(), 1u128 << 123);
}

#[test]
fn seconds_are_those_of_std() {
    for nanos in [1u64, 2, 999, 1_000_000, 333_333_333, 1_000_000_000, 1_000_000_001, 59_999_999_999]
    {
        let expected = std::time::Duration::from_nanos(nanos).as_secs_f64();
        let span = Duration { nanos: nanos as u128 };
        assert_eq!(to_f64(span.as_secs_double()), expected);
    }
}
