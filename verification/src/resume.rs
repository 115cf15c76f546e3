//! Careful resume: a new connection on a known path tries the window that an
//! earlier one had reached, and retreats where the path does not bear it.

use vstd::prelude::*;

pub use crate::cr_state::CrState;

use crate::cr_state;
use crate::dyadic::{self, Dyadic, DOUBLE};
use crate::packet::Acked;
use crate::saved_params::{self, CWND_FIELD, RTT_FIELD, TIME_FIELD};
use crate::time::{Duration, Instant, MAX_NANOS, NANOS_PER_SEC};

verus! {

/// The age in seconds up to which saved parameters are used.
pub const PARAMS_MAXIMUM_GAP: u64 = 7200;

/// The state machine of a resuming connection.
pub struct Resume {
    in_state_timer: Instant,
    enabled: bool,
    cr_state: CrState,
    saved_rtt: Duration,
    saved_cwnd: usize,
    pipesize: usize,
    jump_cwnd: usize,
    /// The packets acknowledged.
    pub total_acked: usize,
    cwnd: usize,
    rtt: Option<Duration>,
}

/// The state of the machine, with spans in nanoseconds.
pub struct ResumeState {
    /// When the unvalidated phase was entered.
    pub timer: Instant,
    pub enabled: bool,
    pub phase: CrState,
    pub saved_rtt: nat,
    pub saved_cwnd: nat,
    /// The bytes that the path is known to hold.
    pub pipesize: nat,
    /// The window to which the connection jumps.
    pub jump_cwnd: nat,
    pub total_acked: nat,
    pub cwnd: nat,
    pub rtt: Option<nat>,
}

/// What saved parameters hold, each the default where its field is no number.
pub open spec fn saved_rtt_of(text: Seq<u8>) -> nat {
    match saved_params::number(saved_params::fields(text)[RTT_FIELD as int], u64::MAX as nat) {
        Some(secs) => secs * NANOS_PER_SEC as nat,
        None => u64::MAX as nat * NANOS_PER_SEC as nat,
    }
}

pub open spec fn saved_cwnd_of(text: Seq<u8>) -> nat {
    match saved_params::number(saved_params::fields(text)[CWND_FIELD as int], usize::MAX as nat) {
        Some(cwnd) => cwnd,
        None => 0,
    }
}

pub open spec fn saved_time_of(text: Seq<u8>) -> nat {
    match saved_params::number(saved_params::fields(text)[TIME_FIELD as int], u64::MAX as nat) {
        Some(secs) => secs * NANOS_PER_SEC as nat,
        None => 0,
    }
}

/// Whether saved parameters can be read: there are none but an empty record,
/// or all their fields are there and they were not saved in the future.
pub open spec fn readable(text: Seq<u8>, current_time: Duration) -> bool {
    saved_params::fields(text).len() > 1 ==> saved_params::fields(text).len() > TIME_FIELD
        && saved_time_of(text) <= current_time.nanos
}

/// Decides whether saved parameters can be read.
pub fn is_readable(text: &[u8], current_time: Duration) -> (b: bool)
    ensures
        b == readable(text@, current_time),
{
    let list = saved_params::split_fields(text);
    if list.len() <= 1 {
        return true;
    }
    if list.len() <= TIME_FIELD {
        return false;
    }
    assert(list@[TIME_FIELD as int]@ == saved_params::fields(text@)[TIME_FIELD as int]);
    match saved_params::parse_number(&list[TIME_FIELD], u64::MAX) {
        Some(secs) => Duration::from_secs(secs).nanos <= current_time.nanos,
        None => true,
    }
}

impl ResumeState {
    pub open spec fn wf(self) -> bool {
        self.saved_rtt <= MAX_NANOS
    }

    /// The state before the first packet, given the saved parameters.
    pub open spec fn initial(
        contents: Option<Seq<u8>>,
        current_time: Duration,
        now: Instant,
    ) -> ResumeState {
        let found = contents is Some && saved_params::fields(contents->0).len() > 1;
        ResumeState {
            timer: now,
            enabled: found && saved_params::supplied(contents->0) && current_time.nanos - saved_time_of(contents->0)
                <= PARAMS_MAXIMUM_GAP * NANOS_PER_SEC,
            phase: CrState::Reconnaissance,
            saved_rtt: if found {
                saved_rtt_of(contents->0)
            } else {
                u64::MAX as nat * NANOS_PER_SEC as nat
            },
            saved_cwnd: if found {
                saved_cwnd_of(contents->0)
            } else {
                0
            },
            pipesize: 0,
            jump_cwnd: 0,
            total_acked: 0,
            cwnd: 0,
            rtt: Some(0),
        }
    }

    /// The state in another phase.
    pub open spec fn in_phase(self, phase: CrState) -> ResumeState {
        ResumeState { phase, ..self }
    }

    /// The reconnaissance ends: the connection jumps to half the saved window,
    /// or carries on as usual where that is nothing.
    pub open spec fn jumped(self, first_packet: u64, pipesize: nat, now: Instant) -> ResumeState {
        ResumeState {
            timer: now,
            phase: if self.saved_cwnd / 2 == 0 {
                CrState::Normal
            } else {
                CrState::Unvalidated(first_packet)
            },
            pipesize,
            jump_cwnd: self.saved_cwnd / 2,
            ..self
        }
    }

    /// The state after an acknowledgement.
    pub open spec fn acked(
        self,
        largest_pkt_sent: u64,
        packet: Acked,
        flightsize: nat,
        iw_acked: bool,
        now: Instant,
    ) -> ResumeState {
        let s = ResumeState { total_acked: self.total_acked + 1, ..self };
        let fuller = ResumeState { pipesize: self.pipesize + packet.size as nat, ..s };
        match self.phase {
            CrState::Reconnaissance => if iw_acked {
                s.jumped(largest_pkt_sent, flightsize, now)
            } else {
                s
            },
            CrState::Unvalidated(first_packet) => if packet.pkt_num < first_packet {
                fuller
            } else if flightsize <= fuller.pipesize {
                fuller.in_phase(CrState::Normal)
            } else {
                fuller.in_phase(CrState::Validating(largest_pkt_sent))
            },
            CrState::Validating(last_packet) => if packet.pkt_num < last_packet {
                fuller
            } else {
                fuller.in_phase(CrState::Normal)
            },
            CrState::SafeRetreat(last_packet) => if packet.pkt_num < last_packet {
                fuller
            } else {
                s.in_phase(CrState::Normal)
            },
            CrState::Normal => s,
        }
    }

    /// The new congestion window that an acknowledgement calls for.
    pub open spec fn ack_cwnd(
        self,
        packet: Acked,
        flightsize: nat,
        iw_acked: bool,
    ) -> Option<nat> {
        match self.phase {
            CrState::Reconnaissance => if iw_acked && self.saved_cwnd / 2 > 0 {
                Some(self.saved_cwnd / 2)
            } else {
                None
            },
            CrState::Unvalidated(first_packet) => if packet.pkt_num < first_packet {
                None
            } else if flightsize <= self.pipesize + packet.size {
                Some(self.pipesize + packet.size as nat)
            } else {
                Some(flightsize)
            },
            _ => None,
        }
    }

    /// The new slow-start threshold that an acknowledgement calls for: the
    /// bytes that the path holds, at the end of a retreat.
    pub open spec fn ack_ssthresh(self, packet: Acked) -> Option<nat> {
        match self.phase {
            CrState::SafeRetreat(last_packet) => if packet.pkt_num < last_packet {
                None
            } else {
                Some(self.pipesize)
            },
            _ => None,
        }
    }

    /// Whether the counts stay within a `usize` on an acknowledgement.
    pub open spec fn ack_fits(self, packet: Acked) -> bool {
        &&& self.total_acked < usize::MAX
        &&& match self.phase {
            CrState::Unvalidated(_) => self.pipesize + packet.size <= usize::MAX,
            CrState::Validating(_) => self.pipesize + packet.size <= usize::MAX,
            CrState::SafeRetreat(last) => packet.pkt_num < last ==> self.pipesize + packet.size
                <= usize::MAX,
            _ => true,
        }
    }

    /// Whether a packet about to be sent ends the reconnaissance: the initial
    /// window is acknowledged, there is data to send and a round-trip sample.
    pub open spec fn send_decides(
        self,
        rtt_sample: Option<Duration>,
        app_limited: bool,
        iw_acked: bool,
    ) -> bool {
        &&& !app_limited
        &&& iw_acked
        &&& self.phase == CrState::Reconnaissance
        &&& rtt_sample is Some
    }

    /// Whether a round-trip time is unlike the saved one: no more than half of
    /// it.
    pub open spec fn diverges(self, rtt: Duration) -> bool {
        rtt.nanos <= self.saved_rtt / 2
    }

    /// Whether a packet about to be sent makes the connection jump: the
    /// round-trip time is like the saved one.
    pub open spec fn send_jumps(
        self,
        rtt_sample: Option<Duration>,
        app_limited: bool,
        iw_acked: bool,
    ) -> bool {
        self.send_decides(rtt_sample, app_limited, iw_acked) && !self.diverges(rtt_sample->0)
    }

    /// The state after a packet is sent.
    pub open spec fn sent(
        self,
        rtt_sample: Option<Duration>,
        cwnd: nat,
        largest_pkt_sent: u64,
        app_limited: bool,
        iw_acked: bool,
        now: Instant,
    ) -> ResumeState {
        let s = ResumeState {
            cwnd,
            rtt: match rtt_sample {
                Some(rtt) => Some(rtt.nanos as nat),
                None => None,
            },
            ..self
        };
        if self.send_jumps(rtt_sample, app_limited, iw_acked) {
            s.jumped(largest_pkt_sent, cwnd, now)
        } else if self.send_decides(rtt_sample, app_limited, iw_acked) {
            s.in_phase(CrState::Normal)
        } else {
            s
        }
    }

    /// The congestion window for a packet about to be sent.
    pub open spec fn send_cwnd(
        self,
        rtt_sample: Option<Duration>,
        cwnd: nat,
        app_limited: bool,
        iw_acked: bool,
    ) -> nat {
        if self.send_jumps(rtt_sample, app_limited, iw_acked) {
            self.saved_cwnd / 2
        } else if app_limited || !iw_acked || self.phase == CrState::Reconnaissance {
            cwnd
        } else {
            0
        }
    }

    /// The state after a congestion event: a retreat from the unvalidated
    /// phase, the end of careful resume in the phases around it.
    pub open spec fn congested(self, largest_pkt_sent: u64) -> ResumeState {
        match self.phase {
            CrState::Unvalidated(_) => self.in_phase(CrState::SafeRetreat(largest_pkt_sent)),
            CrState::Validating(_) => self.in_phase(CrState::Normal),
            CrState::Reconnaissance => self.in_phase(CrState::Normal),
            _ => self,
        }
    }

    /// The window that a congestion event calls for.
    pub open spec fn congestion_cwnd(self) -> nat {
        match self.phase {
            CrState::Unvalidated(_) => self.pipesize / 2,
            _ => 0,
        }
    }

    /// The state after asking whether careful resume goes on.
    pub open spec fn asked(self) -> ResumeState {
        if self.enabled {
            self
        } else {
            self.in_phase(CrState::Normal)
        }
    }

    /// The state after the flight size is checked at the end of the
    /// unvalidated phase.
    pub open spec fn flight_checked(
        self,
        flight_size: nat,
        initial_window: nat,
        first_packet: u64,
    ) -> ResumeState {
        if flight_size < initial_window || flight_size <= self.pipesize {
            self.in_phase(CrState::Normal)
        } else {
            self.in_phase(CrState::Validating(first_packet))
        }
    }
}

impl View for Resume {
    type V = ResumeState;

    closed spec fn view(&self) -> ResumeState {
        ResumeState {
            timer: self.in_state_timer,
            enabled: self.enabled,
            phase: self.cr_state,
            saved_rtt: self.saved_rtt.nanos as nat,
            saved_cwnd: self.saved_cwnd as nat,
            pipesize: self.pipesize as nat,
            jump_cwnd: self.jump_cwnd as nat,
            total_acked: self.total_acked as nat,
            cwnd: self.cwnd as nat,
            rtt: match self.rtt {
                Some(rtt) => Some(rtt.nanos as nat),
                None => None,
            },
        }
    }
}

impl Resume {
    /// Starts from the contents of the file with the saved parameters, where
    /// there is one, at a time since the epoch and a reading of the clock.
    pub fn new(contents: Option<&[u8]>, current_time: Duration, now: Instant) -> (r: Resume)
        requires
            contents matches Some(text) ==> readable(text@, current_time),
        ensures
            r@ == ResumeState::initial(
                match contents {
                    Some(text) => Some(text@),
                    None => None,
                },
                current_time,
                now,
            ),
            r@.wf(),
    {
        let mut enabled = true;
        let mut saved_rtt = Duration::from_secs(u64::MAX);
        let mut saved_cwnd: usize = 0;
        let mut saved_time = Duration::zero();
        match contents {
            Some(text) => {
                let list = saved_params::split_fields(text);
                let ghost all = saved_params::fields(text@);
                if list.len() > 1 {
                    proof {
                        assert(list@[RTT_FIELD as int]@ == all[RTT_FIELD as int]);
                        assert(list@[CWND_FIELD as int]@ == all[CWND_FIELD as int]);
                        assert(list@[TIME_FIELD as int]@ == all[TIME_FIELD as int]);
                    }
                    if let Some(secs) = saved_params::parse_number(&list[RTT_FIELD], u64::MAX) {
                        saved_rtt = Duration::from_secs(secs);
                    } else {
                        enabled = false;
                    }
                    if let Some(cwnd) = saved_params::parse_number(
                        &list[CWND_FIELD],
                        usize::MAX as u64,
                    ) {
                        saved_cwnd = cwnd as usize;
                    } else {
                        enabled = false;
                    }
                    if let Some(secs) = saved_params::parse_number(&list[TIME_FIELD], u64::MAX) {
                        saved_time = Duration::from_secs(secs);
                    }
                    if current_time.minus(saved_time).nanos > Duration::from_secs(
                        PARAMS_MAXIMUM_GAP,
                    ).nanos {
                        // The parameters are outdated.
                        enabled = false;
                    }
                } else {
                    enabled = false;
                }
            },
            None => {
                enabled = false;
            },
        }
        Resume {
            in_state_timer: now,
            enabled,
            cr_state: CrState::default(),
            saved_rtt,
            saved_cwnd,
            jump_cwnd: 0,
            pipesize: 0,
            total_acked: 0,
            rtt: Some(Duration::zero()),
            cwnd: 0,
        }
    }

    /// Whether careful resume goes on. Without usable parameters it ends here.
    pub fn enabled(&mut self) -> (b: bool)
        ensures
            final(self)@ == old(self)@.asked(),
            b == (old(self)@.enabled && old(self)@.phase != CrState::Normal),
    {
        if self.enabled {
            self.cr_state != CrState::Normal
        } else {
            if self.cr_state != CrState::Normal {
                self.change_state(CrState::Normal);
            }
            false
        }
    }

    /// Ends the unvalidated phase by the bytes in flight: back to what the path
    /// is known to hold where they are no more than that or than an initial
    /// window, else on to validate them.
    pub fn check_flight_size(
        &mut self,
        flight_size: usize,
        initial_window: usize,
        first_packet: u64,
    ) -> (cwnd: usize)
        ensures
            final(self)@ == old(self)@.flight_checked(
                flight_size as nat,
                initial_window as nat,
                first_packet,
            ),
            cwnd == if flight_size < initial_window || flight_size <= old(self)@.pipesize {
                old(self)@.pipesize
            } else {
                flight_size as nat
            },
    {
        if flight_size < initial_window || flight_size <= self.pipesize {
            self.change_state(CrState::Normal);
            self.pipesize
        } else {
            self.change_state(CrState::Validating(first_packet));
            flight_size
        }
    }

    pub fn get_state(&self) -> (state: CrState)
        ensures
            state == self@.phase,
    {
        self.cr_state
    }

    /// The saved round-trip time, in whole seconds.
    pub fn get_saved_rtt(&self) -> (secs: u64)
        requires
            self@.wf(),
        ensures
            secs == self@.saved_rtt / NANOS_PER_SEC as nat,
    {
        self.saved_rtt.as_secs()
    }

    /// The saved window, in double precision.
    pub fn get_saved_cwnd(&self) -> (cwnd: Dyadic)
        ensures
            cwnd@ == dyadic::rounded(self@.saved_cwnd, 1, 0, DOUBLE as nat),
    {
        Dyadic::from_integer(self.saved_cwnd as u128, DOUBLE)
    }

    pub fn change_state(&mut self, state: CrState)
        ensures
            final(self)@ == old(self)@.in_phase(state),
    {
        self.cr_state = state;
    }

    pub fn get_pipesize(&self) -> (bytes: usize)
        ensures
            bytes == self@.pipesize,
    {
        self.pipesize
    }

    pub fn get_jump_cwnd(&self) -> (cwnd: usize)
        ensures
            cwnd == self@.jump_cwnd,
    {
        self.jump_cwnd
    }

    /// Replaces the saved round-trip time, given in seconds.
    pub fn set_saved_rtt(&mut self, new_rtt: u64)
        ensures
            final(self)@ == (ResumeState {
                saved_rtt: new_rtt as nat * NANOS_PER_SEC as nat,
                ..old(self)@
            }),
            final(self)@.wf(),
    {
        self.saved_rtt = Duration::from_secs(new_rtt);
    }

    /// When the unvalidated phase was entered.
    pub fn get_state_timer(&self) -> (timer: Instant)
        ensures
            timer == self@.timer,
    {
        self.in_state_timer
    }

    /// What a log line of the machine shows: the phase, the saved round-trip
    /// time and window, and the bytes that the path is known to hold.
    pub fn log_values(&self) -> (values: (CrState, Duration, usize, usize))
        ensures
            values.0 == self@.phase,
            values.1.nanos == self@.saved_rtt,
            values.2 == self@.saved_cwnd,
            values.3 == self@.pipesize,
    {
        (self.cr_state, self.saved_rtt, self.saved_cwnd, self.pipesize)
    }

    /// Handles an acknowledgement. Returns the new congestion window and the
    /// new slow-start threshold, where there is one.
    pub fn process_ack(
        &mut self,
        largest_pkt_sent: u64,
        packet: &Acked,
        flightsize: usize,
        iw_acked: bool,
        now: Instant,
    ) -> (windows: (Option<usize>, Option<usize>))
        requires
            old(self)@.ack_fits(*packet),
        ensures
            final(self)@ == old(self)@.acked(
                largest_pkt_sent,
                *packet,
                flightsize as nat,
                iw_acked,
                now,
            ),
            cr_state::window(windows.0) == old(self)@.ack_cwnd(
                *packet,
                flightsize as nat,
                iw_acked,
            ),
            cr_state::window(windows.1) == old(self)@.ack_ssthresh(*packet),
    {
        // The initial window is kept in packets, so packets are counted.
        self.total_acked = self.total_acked + 1;
        match self.cr_state {
            CrState::Reconnaissance => {
                if iw_acked {
                    self.change_state(CrState::Unvalidated(largest_pkt_sent));
                    self.in_state_timer = now;
                    self.pipesize = flightsize;
                    self.jump_cwnd = self.saved_cwnd / 2;
                    if self.jump_cwnd == 0 {
                        self.change_state(CrState::Normal);
                        return (None, None);
                    }
                    (Some(self.jump_cwnd), None)
                } else {
                    (None, None)
                }
            },
            CrState::Unvalidated(first_packet) => {
                self.pipesize = self.pipesize + packet.size;
                if packet.pkt_num >= first_packet {
                    if flightsize <= self.pipesize {
                        self.change_state(CrState::Normal);
                        (Some(self.pipesize), None)
                    } else {
                        // The last packet sent in the unvalidated phase.
                        self.change_state(CrState::Validating(largest_pkt_sent));
                        (Some(flightsize), None)
                    }
                } else {
                    (None, None)
                }
            },
            CrState::Validating(last_packet) => {
                self.pipesize = self.pipesize + packet.size;
                if packet.pkt_num >= last_packet {
                    self.change_state(CrState::Normal);
                }
                (None, None)
            },
            CrState::SafeRetreat(last_packet) => {
                if packet.pkt_num >= last_packet {
                    self.change_state(CrState::Normal);
                    (None, Some(self.pipesize))
                } else {
                    self.pipesize = self.pipesize + packet.size;
                    (None, None)
                }
            },
            CrState::Normal => (None, None),
        }
    }

    /// Handles a packet about to be sent. Returns the congestion window.
    pub fn send_packet(
        &mut self,
        rtt_sample: Option<Duration>,
        cwnd: usize,
        largest_pkt_sent: u64,
        app_limited: bool,
        iw_acked: bool,
        now: Instant,
    ) -> (window: usize)
        ensures
            final(self)@ == old(self)@.sent(
                rtt_sample,
                cwnd as nat,
                largest_pkt_sent,
                app_limited,
                iw_acked,
                now,
            ),
            window == old(self)@.send_cwnd(rtt_sample, cwnd as nat, app_limited, iw_acked),
    {
        self.cwnd = cwnd;
        self.rtt = rtt_sample;
        // With too little data, a higher rate could not be validated.
        if app_limited {
            return cwnd;
        }
        if !iw_acked {
            return cwnd;
        }
        match self.cr_state {
            CrState::Reconnaissance => {
                let current_rtt = match rtt_sample {
                    Some(s) => s,
                    None => {
                        // No decision without a round-trip sample.
                        return cwnd;
                    },
                };
                if current_rtt.nanos <= self.saved_rtt.divided_by(2).nanos {
                    // The path is not the saved one.
                    self.change_state(CrState::Normal);
                    return cwnd;
                }
                self.change_state(CrState::Unvalidated(largest_pkt_sent));
                self.in_state_timer = now;
                self.pipesize = cwnd;
                self.jump_cwnd = self.saved_cwnd / 2;
                if self.jump_cwnd == 0 {
                    self.change_state(CrState::Normal);
                    return 0;
                }
                self.jump_cwnd
            },
            _ => 0,
        }
    }

    /// Handles a congestion event. Returns the window to retreat to, or zero.
    pub fn congestion_event(&mut self, largest_pkt_sent: u64) -> (window: usize)
        ensures
            final(self)@ == old(self)@.congested(largest_pkt_sent),
            window == old(self)@.congestion_cwnd(),
    {
        match self.cr_state {
            CrState::Unvalidated(_) => {
                self.change_state(CrState::SafeRetreat(largest_pkt_sent));
                self.pipesize / 2
            },
            CrState::Validating(_) => {
                self.change_state(CrState::Normal);
                0
            },
            CrState::Reconnaissance => {
                self.change_state(CrState::Normal);
                0
            },
            _ => 0,
        }
    }
}

} // verus!
