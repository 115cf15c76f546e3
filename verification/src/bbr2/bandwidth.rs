//! Rates of delivery.

use vstd::prelude::*;

use crate::dyadic;
use crate::time::Duration;

verus! {

/// A rate in bits per second.
#[derive(Clone, Copy, Debug, PartialEq, Eq, Structural)]
pub struct Bandwidth {
    pub bits_per_second: u64,
}

/// The bytes that a rate delivers in a span, as far as a `usize` holds them.
pub open spec fn bytes_in(bandwidth: Bandwidth, span: Duration) -> nat {
    dyadic::clamped((bandwidth.bits_per_second * span.nanos) as nat / 8_000_000_000)
}

impl Bandwidth {
    pub fn zero() -> (b: Bandwidth)
        ensures
            b.bits_per_second == 0,
    {
        Bandwidth { bits_per_second: 0 }
    }

    pub fn infinite() -> (b: Bandwidth)
        ensures
            b.bits_per_second == u64::MAX,
    {
        Bandwidth { bits_per_second: u64::MAX }
    }

    pub fn from_bytes_per_second(bytes_per_second: u64) -> (b: Bandwidth)
        requires
            bytes_per_second * 8 <= u64::MAX,
        ensures
            b.bits_per_second == bytes_per_second * 8,
    {
        Bandwidth { bits_per_second: bytes_per_second * 8 }
    }

    /// The bytes that the rate delivers in a span.
    pub fn to_bytes_per_period(self, span: Duration) -> (bytes: usize)
        requires
            span.nanos <= u64::MAX,
        ensures
            bytes == bytes_in(self, span),
    {
        let bits = self.bits_per_second as u128;
        proof {
            let n = span.nanos as int;
            assert(bits * n <= 0xffff_ffff_ffff_ffff * 0xffff_ffff_ffff_ffff) by (nonlinear_arith)
                requires
                    0 <= bits <= 0xffff_ffff_ffff_ffff,
                    0 <= n <= 0xffff_ffff_ffff_ffff,
            ;
        }
        let bytes: u128 = bits * span.nanos / 8_000_000_000;
        if bytes <= usize::MAX as u128 {
            bytes as usize
        } else {
            usize::MAX
        }
    }
}

} // verus!
