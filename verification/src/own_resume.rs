//! Careful resume with a capped jump: the window is jumped to only as far as a
//! configured limit, the unvalidated phase lasts one saved round-trip time at
//! most, and a round-trip time unlike the saved one ends careful resume.

use vstd::prelude::*;

pub use crate::cr_state::CrState;

use crate::cr_state;
use crate::dyadic::{self, Dyadic, DOUBLE};
use crate::packet::Acked;
use crate::saved_params::{self, CWND_FIELD, RTT_FIELD};
use crate::time::{self, Duration, Instant, MAX_NANOS, NANOS_PER_SEC};

verus! {

/// The largest window that is jumped to.
pub const MAX_JUMP: usize = 2000;

/// The state machine of a resuming connection.
pub struct OwnResume {
    trace_id: String,
    enabled: bool,
    cr_state: CrState,
    saved_rtt: Duration,
    saved_cwnd: usize,
    pipesize: usize,
    jump_cwnd: usize,
    /// The bytes acknowledged.
    pub total_acked: usize,
    /// When the unvalidated phase was entered, which lasts one saved
    /// round-trip time at most.
    time_in_state: Instant,
    cwnd: usize,
    rtt: Option<Duration>,
}

/// The state of the machine, with spans in nanoseconds.
pub struct OwnResumeState {
    pub trace_id: Seq<char>,
    pub enabled: bool,
    pub phase: CrState,
    pub saved_rtt: nat,
    pub saved_cwnd: nat,
    /// The bytes that the path is known to hold.
    pub pipesize: nat,
    /// The window to which the connection jumps.
    pub jump_cwnd: nat,
    pub total_acked: nat,
    /// When the unvalidated phase was entered.
    pub timer: Instant,
    pub cwnd: nat,
    pub rtt: Option<nat>,
}

/// What saved parameters hold, nothing where a field is no number.
pub open spec fn saved_rtt_of(text: Seq<u8>) -> nat {
    match saved_params::number(saved_params::fields(text)[RTT_FIELD as int], u64::MAX as nat) {
        Some(secs) => secs * NANOS_PER_SEC as nat,
        None => 0,
    }
}

pub open spec fn saved_cwnd_of(text: Seq<u8>) -> nat {
    match saved_params::number(saved_params::fields(text)[CWND_FIELD as int], usize::MAX as nat) {
        Some(cwnd) => cwnd,
        None => 0,
    }
}

/// Whether a packet about to be sent is looked at: there is data enough to
/// validate a higher rate, and the initial window is acknowledged.
pub open spec fn considered(app_limited: bool, iw_acked: bool) -> bool {
    !app_limited && iw_acked
}

impl OwnResumeState {
    pub open spec fn wf(self) -> bool {
        self.saved_rtt <= MAX_NANOS
    }

    /// The state before the first packet, given the saved parameters.
    pub open spec fn initial(
        trace_id: Seq<char>,
        contents: Option<Seq<u8>>,
        now: Instant,
    ) -> OwnResumeState {
        OwnResumeState {
            trace_id,
            enabled: contents matches Some(text) && saved_params::supplied(text),
            phase: CrState::Reconnaissance,
            saved_rtt: match contents {
                Some(text) => saved_rtt_of(text),
                None => 0,
            },
            saved_cwnd: match contents {
                Some(text) => saved_cwnd_of(text),
                None => 0,
            },
            pipesize: 0,
            jump_cwnd: 0,
            total_acked: 0,
            timer: now,
            cwnd: 0,
            rtt: Some(0),
        }
    }

    /// The state in another phase.
    pub open spec fn in_phase(self, phase: CrState) -> OwnResumeState {
        OwnResumeState { phase, ..self }
    }

    /// The window that the connection jumps to.
    pub open spec fn jump(self) -> nat {
        if self.saved_cwnd / 2 < MAX_JUMP {
            self.saved_cwnd / 2
        } else {
            MAX_JUMP as nat
        }
    }

    /// Whether the unvalidated phase has lasted longer than it may.
    pub open spec fn overdue(self, now: Instant) -> bool {
        time::elapsed(now, self.timer) > self.saved_rtt
    }

    /// The state after an acknowledgement.
    pub open spec fn acked(
        self,
        largest_pkt_sent: u64,
        packet: Acked,
        flightsize: nat,
        iw_acked: bool,
        now: Instant,
    ) -> OwnResumeState {
        let s = OwnResumeState { total_acked: self.total_acked + packet.size as nat, ..self };
        let fuller = OwnResumeState { pipesize: self.pipesize + packet.size as nat, ..s };
        match self.phase {
            CrState::Reconnaissance => if iw_acked {
                OwnResumeState {
                    timer: now,
                    phase: CrState::Unvalidated(largest_pkt_sent),
                    pipesize: flightsize,
                    jump_cwnd: self.jump(),
                    ..s
                }
            } else {
                s
            },
            CrState::Unvalidated(first_packet) => if packet.pkt_num < first_packet {
                if self.overdue(now) {
                    fuller.in_phase(CrState::Validating(largest_pkt_sent))
                } else {
                    fuller
                }
            } else if flightsize <= fuller.pipesize {
                fuller.in_phase(CrState::Normal)
            } else {
                fuller.in_phase(CrState::Validating(largest_pkt_sent))
            },
            CrState::Validating(last_packet) => if packet.pkt_num < last_packet {
                fuller
            } else {
                fuller.in_phase(CrState::Normal)
            },
            CrState::SafeRetreat(last_packet) => if packet.pkt_num < last_packet {
                fuller
            } else {
                s.in_phase(CrState::Normal)
            },
            CrState::Normal => s,
        }
    }

    /// The new congestion window that an acknowledgement calls for.
    pub open spec fn ack_cwnd(self, packet: Acked, flightsize: nat) -> Option<nat> {
        match self.phase {
            CrState::Unvalidated(first_packet) => if packet.pkt_num < first_packet {
                None
            } else if flightsize <= self.pipesize + packet.size {
                Some(self.pipesize + packet.size as nat)
            } else {
                Some(flightsize)
            },
            _ => None,
        }
    }

    /// The new slow-start threshold that an acknowledgement calls for: the
    /// bytes that the path holds, at the end of a retreat.
    pub open spec fn ack_ssthresh(self, packet: Acked) -> Option<nat> {
        match self.phase {
            CrState::SafeRetreat(last_packet) => if packet.pkt_num < last_packet {
                None
            } else {
                Some(self.pipesize)
            },
            _ => None,
        }
    }

    /// Whether the counts stay within a `usize` on an acknowledgement.
    pub open spec fn ack_fits(self, packet: Acked) -> bool {
        &&& self.total_acked + packet.size <= usize::MAX
        &&& match self.phase {
            CrState::Unvalidated(_) => self.pipesize + packet.size <= usize::MAX,
            CrState::Validating(_) => self.pipesize + packet.size <= usize::MAX,
            CrState::SafeRetreat(last) => packet.pkt_num < last ==> self.pipesize + packet.size
                <= usize::MAX,
            _ => true,
        }
    }

    /// Whether a round-trip time is unlike the saved one: no more than half of
    /// it, or no less than ten times it.
    pub open spec fn diverges(self, rtt: Duration) -> bool {
        rtt.nanos <= self.saved_rtt / 2 || rtt.nanos >= self.saved_rtt * 10
    }

    /// Whether ten times the saved round-trip time is a span, where it is
    /// compared with the sample.
    pub open spec fn send_fits(
        self,
        rtt_sample: Option<Duration>,
        app_limited: bool,
        iw_acked: bool,
    ) -> bool {
        considered(app_limited, iw_acked) && self.phase == CrState::Reconnaissance && (
        rtt_sample matches Some(rtt) && rtt.nanos > self.saved_rtt / 2) ==> self.saved_rtt * 10
            <= MAX_NANOS
    }

    /// The state after a packet is sent.
    pub open spec fn sent(
        self,
        rtt_sample: Option<Duration>,
        cwnd: nat,
        app_limited: bool,
        iw_acked: bool,
    ) -> OwnResumeState {
        let s = OwnResumeState {
            cwnd,
            rtt: match rtt_sample {
                Some(rtt) => Some(rtt.nanos as nat),
                None => None,
            },
            ..self
        };
        if considered(app_limited, iw_acked) && self.phase == CrState::Reconnaissance && (
        rtt_sample matches Some(rtt) && self.diverges(rtt)) {
            s.in_phase(CrState::Normal)
        } else {
            s
        }
    }

    /// The congestion window for a packet about to be sent.
    pub open spec fn send_cwnd(
        self,
        rtt_sample: Option<Duration>,
        cwnd: nat,
        app_limited: bool,
        iw_acked: bool,
    ) -> nat {
        if !considered(app_limited, iw_acked) {
            self.saved_cwnd
        } else {
            match self.phase {
                CrState::Reconnaissance => match rtt_sample {
                    Some(rtt) => if self.diverges(rtt) {
                        cwnd
                    } else {
                        0
                    },
                    None => cwnd,
                },
                CrState::Unvalidated(_) => self.jump_cwnd,
                CrState::SafeRetreat(_) => self.pipesize / 2,
                _ => cwnd,
            }
        }
    }

    /// The state after a congestion event: a retreat from the unvalidated
    /// phase, the end of careful resume in the phases around it.
    pub open spec fn congested(self, largest_pkt_sent: u64) -> OwnResumeState {
        match self.phase {
            CrState::Unvalidated(_) => self.in_phase(CrState::SafeRetreat(largest_pkt_sent)),
            CrState::Validating(_) => self.in_phase(CrState::Normal),
            CrState::Reconnaissance => self.in_phase(CrState::Normal),
            _ => self,
        }
    }

    /// The state after asking whether careful resume goes on.
    pub open spec fn asked(self) -> OwnResumeState {
        if self.enabled {
            self
        } else {
            self.in_phase(CrState::Normal)
        }
    }
}

impl View for OwnResume {
    type V = OwnResumeState;

    closed spec fn view(&self) -> OwnResumeState {
        OwnResumeState {
            trace_id: self.trace_id@,
            enabled: self.enabled,
            phase: self.cr_state,
            saved_rtt: self.saved_rtt.nanos as nat,
            saved_cwnd: self.saved_cwnd as nat,
            pipesize: self.pipesize as nat,
            jump_cwnd: self.jump_cwnd as nat,
            total_acked: self.total_acked as nat,
            timer: self.time_in_state,
            cwnd: self.cwnd as nat,
            rtt: match self.rtt {
                Some(rtt) => Some(rtt.nanos as nat),
                None => None,
            },
        }
    }
}

/// Decides whether saved parameters can be read: whether all their fields are
/// there.
pub fn is_readable(text: &[u8]) -> (b: bool)
    ensures
        b == (saved_params::fields(text@).len() > CWND_FIELD),
{
    saved_params::split_fields(text).len() > CWND_FIELD
}

impl OwnResume {
    /// Starts from the contents of the file with the saved parameters, where
    /// there is one, at a reading of the clock.
    pub fn new(trace_id: &str, contents: Option<&[u8]>, now: Instant) -> (r: OwnResume)
        requires
            contents matches Some(text) ==> saved_params::fields(text@).len() > CWND_FIELD,
        ensures
            r@ == OwnResumeState::initial(
                trace_id@,
                match contents {
                    Some(text) => Some(text@),
                    None => None,
                },
                now,
            ),
            r@.wf(),
    {
        let mut enabled = true;
        let mut saved_rtt = Duration::zero();
        let mut saved_cwnd: usize = 0;
        match contents {
            Some(text) => {
                let list = saved_params::split_fields(text);
                proof {
                    let all = saved_params::fields(text@);
                    assert(list@[RTT_FIELD as int]@ == all[RTT_FIELD as int]);
                    assert(list@[CWND_FIELD as int]@ == all[CWND_FIELD as int]);
                }
                if let Some(secs) = saved_params::parse_number(&list[RTT_FIELD], u64::MAX) {
                    saved_rtt = Duration::from_secs(secs);
                } else {
                    enabled = false;
                }
                if let Some(cwnd) = saved_params::parse_number(
                    &list[CWND_FIELD],
                    usize::MAX as u64,
                ) {
                    saved_cwnd = cwnd as usize;
                } else {
                    enabled = false;
                }
            },
            None => {
                enabled = false;
            },
        }
        OwnResume {
            time_in_state: now,
            trace_id: trace_id.to_owned(),
            enabled,
            cr_state: CrState::default(),
            saved_rtt,
            saved_cwnd,
            jump_cwnd: 0,
            pipesize: 0,
            total_acked: 0,
            rtt: Some(Duration::zero()),
            cwnd: 0,
        }
    }

    /// Switches careful resume on with given parameters.
    pub fn setup(&mut self, saved_rtt: Duration, saved_cwnd: usize)
        ensures
            final(self)@ == (OwnResumeState {
                enabled: true,
                saved_rtt: saved_rtt.nanos as nat,
                saved_cwnd: saved_cwnd as nat,
                ..old(self)@
            }),
    {
        self.enabled = true;
        self.saved_rtt = saved_rtt;
        self.saved_cwnd = saved_cwnd;
    }

    /// Whether careful resume goes on. Without usable parameters it ends here.
    pub fn enabled(&mut self) -> (b: bool)
        ensures
            final(self)@ == old(self)@.asked(),
            b == (old(self)@.enabled && old(self)@.phase != CrState::Normal),
    {
        if self.enabled {
            self.cr_state != CrState::Normal
        } else {
            if self.cr_state != CrState::Normal {
                self.change_state(CrState::Normal);
            }
            false
        }
    }

    pub fn get_state(&self) -> (state: CrState)
        ensures
            state == self@.phase,
    {
        self.cr_state
    }

    pub fn get_pipesize(&self) -> (bytes: usize)
        ensures
            bytes == self@.pipesize,
    {
        self.pipesize
    }

    /// The saved round-trip time, in whole seconds.
    pub fn get_saved_rtt(&self) -> (secs: u64)
        requires
            self@.wf(),
        ensures
            secs == self@.saved_rtt / NANOS_PER_SEC as nat,
    {
        self.saved_rtt.as_secs()
    }

    /// The saved window, in double precision.
    pub fn get_saved_cwnd(&self) -> (cwnd: Dyadic)
        ensures
            cwnd@ == dyadic::rounded(self@.saved_cwnd, 1, 0, DOUBLE as nat),
    {
        Dyadic::from_integer(self.saved_cwnd as u128, DOUBLE)
    }

    fn change_state(&mut self, state: CrState)
        ensures
            final(self)@ == old(self)@.in_phase(state),
    {
        self.cr_state = state;
    }

    pub fn get_jump_cwnd(&self) -> (cwnd: usize)
        ensures
            cwnd == self@.jump_cwnd,
    {
        self.jump_cwnd
    }

    fn update_state_timer(&mut self, now: Instant)
        ensures
            final(self)@ == (OwnResumeState { timer: now, ..old(self)@ }),
    {
        self.time_in_state = now;
    }

    /// What a log line of the machine shows: the phase, the saved round-trip
    /// time and window, and the bytes that the path is known to hold.
    pub fn log_values(&self) -> (values: (CrState, Duration, usize, usize))
        ensures
            values.0 == self@.phase,
            values.1.nanos == self@.saved_rtt,
            values.2 == self@.saved_cwnd,
            values.3 == self@.pipesize,
    {
        (self.cr_state, self.saved_rtt, self.saved_cwnd, self.pipesize)
    }

    /// Handles an acknowledgement. Returns the new congestion window and the
    /// new slow-start threshold, where there is one.
    pub fn process_ack(
        &mut self,
        largest_pkt_sent: u64,
        packet: &Acked,
        flightsize: usize,
        iw_acked: bool,
        now: Instant,
    ) -> (windows: (Option<usize>, Option<usize>))
        requires
            old(self)@.ack_fits(*packet),
        ensures
            final(self)@ == old(self)@.acked(
                largest_pkt_sent,
                *packet,
                flightsize as nat,
                iw_acked,
                now,
            ),
            cr_state::window(windows.0) == old(self)@.ack_cwnd(*packet, flightsize as nat),
            cr_state::window(windows.1) == old(self)@.ack_ssthresh(*packet),
    {
        self.total_acked = self.total_acked + packet.size;
        match self.cr_state {
            CrState::Reconnaissance => {
                if iw_acked {
                    self.update_state_timer(now);
                    self.change_state(CrState::Unvalidated(largest_pkt_sent));
                    self.pipesize = flightsize;
                    let half: usize = self.saved_cwnd / 2;
                    self.jump_cwnd = if half < MAX_JUMP {
                        half
                    } else {
                        MAX_JUMP
                    };
                }
                (None, None)
            },
            CrState::Unvalidated(first_packet) => {
                if now.since(self.time_in_state).nanos > self.saved_rtt.nanos {
                    self.change_state(CrState::Validating(largest_pkt_sent));
                }
                self.pipesize = self.pipesize + packet.size;
                if packet.pkt_num >= first_packet {
                    if flightsize <= self.pipesize {
                        self.change_state(CrState::Normal);
                        (Some(self.pipesize), None)
                    } else {
                        // The last packet sent in the unvalidated phase.
                        self.change_state(CrState::Validating(largest_pkt_sent));
                        (Some(flightsize), None)
                    }
                } else {
                    (None, None)
                }
            },
            CrState::Validating(last_packet) => {
                self.pipesize = self.pipesize + packet.size;
                if packet.pkt_num >= last_packet {
                    self.change_state(CrState::Normal);
                }
                (None, None)
            },
            CrState::SafeRetreat(last_packet) => {
                if packet.pkt_num >= last_packet {
                    self.change_state(CrState::Normal);
                    (None, Some(self.pipesize))
                } else {
                    self.pipesize = self.pipesize + packet.size;
                    (None, None)
                }
            },
            CrState::Normal => (None, None),
        }
    }

    /// Handles a packet about to be sent. Returns the congestion window.
    pub fn send_packet(
        &mut self,
        rtt_sample: Option<Duration>,
        cwnd: usize,
        _largest_pkt_sent: u64,
        app_limited: bool,
        iw_acked: bool,
    ) -> (window: usize)
        requires
            old(self)@.send_fits(rtt_sample, app_limited, iw_acked),
        ensures
            final(self)@ == old(self)@.sent(rtt_sample, cwnd as nat, app_limited, iw_acked),
            window == old(self)@.send_cwnd(rtt_sample, cwnd as nat, app_limited, iw_acked),
    {
        self.cwnd = cwnd;
        self.rtt = rtt_sample;
        // With too little data, a higher rate could not be validated.
        if app_limited {
            return self.saved_cwnd;
        }
        if !iw_acked {
            return self.saved_cwnd;
        }
        match self.cr_state {
            CrState::Reconnaissance => {
                let current_rtt = match rtt_sample {
                    Some(s) => s,
                    None => {
                        // No decision without a round-trip sample.
                        return cwnd;
                    },
                };
                if current_rtt.nanos <= self.saved_rtt.divided_by(2).nanos || current_rtt.nanos
                    >= self.saved_rtt.multiplied_by(10).nanos {
                    self.change_state(CrState::Normal);
                    return cwnd;
                }
                0
            },
            CrState::Unvalidated(_) => self.get_jump_cwnd(),
            CrState::SafeRetreat(_) => self.get_pipesize() / 2,
            _ => cwnd,
        }
    }

    /// Handles a congestion event. The window is left to the caller: the
    /// result is zero.
    pub fn congestion_event(&mut self, largest_pkt_sent: u64) -> (window: usize)
        ensures
            final(self)@ == old(self)@.congested(largest_pkt_sent),
            window == 0,
    {
        match self.cr_state {
            CrState::Unvalidated(_) => {
                self.change_state(CrState::SafeRetreat(largest_pkt_sent));
                0
            },
            CrState::Validating(_) => {
                self.change_state(CrState::Normal);
                0
            },
            CrState::Reconnaissance => {
                self.change_state(CrState::Normal);
                0
            },
            _ => 0,
        }
    }
}

} // verus!
