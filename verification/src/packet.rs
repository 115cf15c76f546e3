//! Packets as the resume state machines see them.

use vstd::prelude::*;

verus! {

/// An acknowledged packet.
#[derive(Clone, Copy, Debug, PartialEq, Eq, Structural)]
pub struct Acked {
    pub pkt_num: u64,
    /// The bytes of the packet.
    pub size: usize,
}

} // verus!
