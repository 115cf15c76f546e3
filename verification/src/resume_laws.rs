//! What holds of careful resume over any series of calls.

use vstd::prelude::*;

use crate::cr_state::{self, CrState};
use crate::dyadic::{self, Dyadic};
use crate::packet::Acked;
use crate::resume::{self, Resume, ResumeState};
use crate::saved_params;
use crate::time::{Duration, Instant, NANOS_PER_SEC};

verus! {

/// An acknowledgement as the machine is told of it.
pub struct Ack {
    pub largest_pkt_sent: u64,
    pub packet: Acked,
    pub flightsize: nat,
    pub iw_acked: bool,
    pub now: Instant,
}

/// A call of the machine.
pub enum Input {
    Ack(Ack),
    Send {
        rtt_sample: Option<Duration>,
        cwnd: nat,
        largest_pkt_sent: u64,
        app_limited: bool,
        iw_acked: bool,
        now: Instant,
    },
    Congestion { largest_pkt_sent: u64 },
    Enabled,
    SetSavedRtt { secs: u64 },
}

/// A call of the machine, or one that sets its phase from outside.
pub enum Call {
    Input(Input),
    ChangeState(CrState),
    CheckFlightSize { flight_size: nat, initial_window: nat, first_packet: u64 },
}

/// The state after a call.
pub open spec fn step(s: ResumeState, input: Input) -> ResumeState {
    match input {
        Input::Ack(a) => s.acked(a.largest_pkt_sent, a.packet, a.flightsize, a.iw_acked, a.now),
        Input::Send { rtt_sample, cwnd, largest_pkt_sent, app_limited, iw_acked, now } => s.sent(
            rtt_sample,
            cwnd,
            largest_pkt_sent,
            app_limited,
            iw_acked,
            now,
        ),
        Input::Congestion { largest_pkt_sent } => s.congested(largest_pkt_sent),
        Input::Enabled => s.asked(),
        Input::SetSavedRtt { secs } => ResumeState {
            saved_rtt: secs as nat * NANOS_PER_SEC as nat,
            ..s
        },
    }
}

/// The state after a call of any method.
pub open spec fn call(s: ResumeState, c: Call) -> ResumeState {
    match c {
        Call::Input(input) => step(s, input),
        Call::ChangeState(phase) => s.in_phase(phase),
        Call::CheckFlightSize { flight_size, initial_window, first_packet } => s.flight_checked(
            flight_size,
            initial_window,
            first_packet,
        ),
    }
}

/// The state after a series of calls of any method.
pub open spec fn run_calls(s: ResumeState, calls: Seq<Call>) -> ResumeState
    decreases calls.len(),
{
    if calls.len() == 0 {
        s
    } else {
        call(run_calls(s, calls.drop_last()), calls.last())
    }
}

/// The state after a series of calls.
pub open spec fn run(s: ResumeState, inputs: Seq<Input>) -> ResumeState
    decreases inputs.len(),
{
    if inputs.len() == 0 {
        s
    } else {
        step(run(s, inputs.drop_last()), inputs.last())
    }
}

/// The acknowledgements in a series of calls.
pub open spec fn acks(calls: Seq<Call>) -> nat
    decreases calls.len(),
{
    if calls.len() == 0 {
        0
    } else {
        acks(calls.drop_last()) + match calls.last() {
            Call::Input(Input::Ack(_)) => 1nat,
            _ => 0nat,
        }
    }
}

/// The bytes acknowledged in a series of calls.
pub open spec fn bytes(inputs: Seq<Input>) -> nat
    decreases inputs.len(),
{
    if inputs.len() == 0 {
        0
    } else {
        bytes(inputs.drop_last()) + match inputs.last() {
            Input::Ack(a) => a.packet.size as nat,
            _ => 0,
        }
    }
}

/// Whether any call of a series replaces the saved round-trip time.
pub open spec fn any_replaces_rtt(calls: Seq<Call>) -> bool
    decreases calls.len(),
{
    calls.len() > 0 && (any_replaces_rtt(calls.drop_last()) || (calls.last() matches Call::Input(
        input,
    ) && input is SetSavedRtt))
}

/// Once careful resume has ended, it stays ended: no acknowledgement, packet or
/// congestion event starts it again, or changes a window on its account.
pub proof fn the_end_is_final(s: ResumeState, inputs: Seq<Input>)
    requires
        s.phase == CrState::Normal,
    ensures
        run(s, inputs).phase == CrState::Normal,
        run(s, inputs).pipesize == s.pipesize,
        run(s, inputs).jump_cwnd == s.jump_cwnd,
        forall|packet: Acked, flightsize: nat, iw_acked: bool| #[trigger]
            run(s, inputs).ack_cwnd(packet, flightsize, iw_acked) is None,
        forall|packet: Acked| #[trigger] run(s, inputs).ack_ssthresh(packet) is None,
        run(s, inputs).congestion_cwnd() == 0,
    decreases inputs.len(),
{
    if inputs.len() > 0 {
        the_end_is_final(s, inputs.drop_last());
    }
}

/// Careful resume only moves on: from reconnaissance to the unvalidated phase,
/// from there to validation or retreat, and from either to its end.
pub proof fn phases_only_move_on(s: ResumeState, inputs: Seq<Input>)
    ensures
        cr_state::progress(s.phase) <= cr_state::progress(run(s, inputs).phase),
    decreases inputs.len(),
{
    if inputs.len() > 0 {
        phases_only_move_on(s, inputs.drop_last());
    }
}

/// Neither the saved window nor whether the parameters are used ever changes,
/// and the saved round-trip time only where it is replaced.
pub proof fn parameters_are_kept(s: ResumeState, calls: Seq<Call>)
    ensures
        run_calls(s, calls).enabled == s.enabled,
        run_calls(s, calls).saved_cwnd == s.saved_cwnd,
        !any_replaces_rtt(calls) ==> run_calls(s, calls).saved_rtt == s.saved_rtt,
    decreases calls.len(),
{
    if calls.len() > 0 {
        parameters_are_kept(s, calls.drop_last());
    }
}

/// Without usable parameters careful resume has ended as soon as it is asked
/// after, and never goes on by itself.
pub proof fn disabled_resume_ends(s: ResumeState, before: Seq<Call>, after: Seq<Input>)
    requires
        !s.enabled,
    ensures
        run(run_calls(s, before).asked(), after).phase == CrState::Normal,
{
    parameters_are_kept(s, before);
    the_end_is_final(run_calls(s, before).asked(), after);
}

/// Parameters are used if and only if both of them are there and they are no
/// older than two hours.
pub proof fn only_fresh_parameters_are_used(
    contents: Option<Seq<u8>>,
    current_time: Duration,
    now: Instant,
)
    requires
        contents matches Some(text) ==> resume::readable(text, current_time),
    ensures
        ResumeState::initial(contents, current_time, now).enabled <==> (contents matches Some(text)
            && saved_params::fields(text).len() > 1 && saved_params::supplied(text)
            && current_time.nanos
            <= resume::saved_time_of(text) + 7_200_000_000_000),
{
}

/// Whether the last entry of a series into the unvalidated phase was set from
/// outside, and not by an acknowledgement or a packet sent.
pub open spec fn last_entry_is_forced(s: ResumeState, calls: Seq<Call>) -> bool
    decreases calls.len(),
{
    calls.len() > 0 && {
        let before = run_calls(s, calls.drop_last());
        if !(before.phase is Unvalidated) && call(before, calls.last()).phase is Unvalidated {
            calls.last() is ChangeState
        } else {
            last_entry_is_forced(s, calls.drop_last())
        }
    }
}

/// From its start on, whatever is called, a machine jumps to half the saved
/// window and no further. Where it came into the unvalidated phase by itself,
/// it has jumped there, and that is something.
pub proof fn jump_is_half_the_saved_window(
    contents: Option<Seq<u8>>,
    current_time: Duration,
    now: Instant,
    calls: Seq<Call>,
)
    ensures
        ({
            let start = ResumeState::initial(contents, current_time, now);
            let s = run_calls(start, calls);
            &&& s.saved_cwnd == start.saved_cwnd
            &&& s.jump_cwnd == 0 || s.jump_cwnd == s.saved_cwnd / 2
            &&& s.phase is Unvalidated && !last_entry_is_forced(start, calls) ==> s.jump_cwnd
                == s.saved_cwnd / 2 && s.jump_cwnd > 0
        }),
    decreases calls.len(),
{
    if calls.len() > 0 {
        jump_is_half_the_saved_window(contents, current_time, now, calls.drop_last());
    }
}

/// The machine counts the packets acknowledged.
pub proof fn packets_are_counted(s: ResumeState, calls: Seq<Call>)
    ensures
        run_calls(s, calls).total_acked == s.total_acked + acks(calls),
    decreases calls.len(),
{
    if calls.len() > 0 {
        packets_are_counted(s, calls.drop_last());
    }
}

/// After reconnaissance, what the path is known to hold grows by no more than
/// the bytes acknowledged, and never shrinks.
pub proof fn pipesize_grows_by_acknowledged_bytes(s: ResumeState, inputs: Seq<Input>)
    requires
        s.phase != CrState::Reconnaissance,
    ensures
        s.pipesize <= run(s, inputs).pipesize <= s.pipesize + bytes(inputs),
    decreases inputs.len(),
{
    if inputs.len() > 0 {
        pipesize_grows_by_acknowledged_bytes(s, inputs.drop_last());
        phases_only_move_on(s, inputs.drop_last());
    }
}

/// Whether a call leaves a retreat going on: it does not acknowledge the last
/// packet of the unvalidated phase, and does not ask a machine without
/// parameters.
pub open spec fn retreat_survives(s: ResumeState, last: u64, input: Input) -> bool {
    match input {
        Input::Ack(a) => a.packet.pkt_num < last,
        Input::Enabled => s.enabled,
        _ => true,
    }
}

/// A retreat goes on, and counts what is acknowledged, until the last packet of
/// the unvalidated phase is.
proof fn lemma_retreat_goes_on(s: ResumeState, last: u64, series: Seq<Input>)
    requires
        s.phase == CrState::SafeRetreat(last),
        forall|i: int|
            0 <= i < series.len() ==> retreat_survives(s, last, #[trigger] series[i]),
    ensures
        run(s, series).phase == CrState::SafeRetreat(last),
        run(s, series).pipesize == s.pipesize + bytes(series),
        run(s, series).enabled == s.enabled,
    decreases series.len(),
{
    if series.len() > 0 {
        assert(retreat_survives(s, last, series[series.len() - 1]));
        lemma_retreat_goes_on(s, last, series.drop_last());
    }
}

/// Congestion in the unvalidated phase halves the window to what the path held,
/// and the retreat ends with the last packet of the phase: the slow-start
/// threshold is then what the path held and all that was acknowledged since.
pub proof fn retreat_ends_at_the_path_capacity(
    s: ResumeState,
    last: u64,
    series: Seq<Input>,
    end: Ack,
)
    requires
        s.phase is Unvalidated,
        forall|i: int|
            0 <= i < series.len() ==> retreat_survives(s, last, #[trigger] series[i]),
        end.packet.pkt_num >= last,
    ensures
        s.congestion_cwnd() == s.pipesize / 2,
        run(s.congested(last), series).ack_ssthresh(end.packet) == Some(
            s.pipesize + bytes(series),
        ),
        step(run(s.congested(last), series), Input::Ack(end)).phase == CrState::Normal,
{
    let c = s.congested(last);
    assert forall|i: int| 0 <= i < series.len() implies retreat_survives(
        c,
        last,
        #[trigger] series[i],
    ) by {
        assert(retreat_survives(s, last, series[i]));
    }
    lemma_retreat_goes_on(c, last, series);
}

/// A round-trip time of at most half the saved one ends careful resume before
/// it has begun, with everything else as it was. With any other one, and a
/// saved window of which half is something, the connection jumps.
pub proof fn unlike_path_is_not_resumed(
    s: ResumeState,
    rtt: Duration,
    cwnd: nat,
    largest_pkt_sent: u64,
    now: Instant,
)
    requires
        s.phase == CrState::Reconnaissance,
    ensures
        2 * rtt.nanos <= s.saved_rtt ==> {
            let after = s.sent(Some(rtt), cwnd, largest_pkt_sent, false, true, now);
            &&& after.phase == CrState::Normal
            &&& after.pipesize == s.pipesize
            &&& after.jump_cwnd == s.jump_cwnd
            &&& after.timer == s.timer
            &&& s.send_cwnd(Some(rtt), cwnd, false, true) == cwnd
        },
        2 * rtt.nanos > s.saved_rtt && s.saved_cwnd >= 2 ==> {
            let after = s.sent(Some(rtt), cwnd, largest_pkt_sent, false, true, now);
            &&& after.phase == CrState::Unvalidated(largest_pkt_sent)
            &&& s.send_cwnd(Some(rtt), cwnd, false, true) == s.saved_cwnd / 2
        },
{
}

/// A packet sent without a round-trip sample leaves the phase and the window as
/// they are.
pub proof fn no_decision_without_a_sample(
    s: ResumeState,
    cwnd: nat,
    largest_pkt_sent: u64,
    app_limited: bool,
    iw_acked: bool,
    now: Instant,
)
    requires
        s.phase == CrState::Reconnaissance,
    ensures
        s.sent(None, cwnd, largest_pkt_sent, app_limited, iw_acked, now).phase == s.phase,
        s.send_cwnd(None, cwnd, app_limited, iw_acked) == cwnd,
{
}

/// Whether a window is half of another, in whole bytes.
pub open spec fn is_half(part: nat, all: nat) -> bool {
    2 * part <= all < 2 * part + 2
}

/// A machine starts in reconnaissance, with nothing counted and its clock read.
/// What is saved is what the fields say; where there are none, or one is no
/// number, the round-trip time is the longest and the window is nothing. It is
/// in use only with both, no more than two hours old.
pub proof fn machines_start_with_what_is_saved(
    contents: Option<&[u8]>,
    current_time: Duration,
    now: Instant,
    r: Resume,
)
    requires
        contents matches Some(text) ==> resume::readable(text@, current_time),
        call_ensures(Resume::new, (contents, current_time, now), r),
    ensures
        r@.phase == CrState::Reconnaissance,
        r@.pipesize == 0 && r@.jump_cwnd == 0 && r@.total_acked == 0 && r@.cwnd == 0,
        r@.rtt == Some(0nat),
        r@.timer == now,
        contents is None ==> !r@.enabled && r@.saved_cwnd == 0 && r@.saved_rtt
            == 18_446_744_073_709_551_615_000_000_000,
        contents matches Some(text) ==> {
            let all = saved_params::fields(text@);
            let rtt = saved_params::number(all[1], 0xffff_ffff_ffff_ffff);
            let cwnd = saved_params::number(all[3], usize::MAX as nat);
            let time = saved_params::number(all[5], 0xffff_ffff_ffff_ffff);
            let saved = if time is Some {
                time->0
            } else {
                0
            };
            &&& all.len() <= 1 ==> !r@.enabled && r@.saved_cwnd == 0 && r@.saved_rtt
                == 18_446_744_073_709_551_615_000_000_000
            &&& all.len() > 1 ==> {
                &&& r@.saved_rtt == if rtt is Some {
                    rtt->0 * 1_000_000_000
                } else {
                    18_446_744_073_709_551_615_000_000_000
                }
                &&& r@.saved_cwnd == if cwnd is Some {
                    cwnd->0
                } else {
                    0
                }
                &&& r@.enabled == (rtt is Some && cwnd is Some && current_time.nanos <= (saved
                    + 7200) * 1_000_000_000)
            }
        },
{
}

/// Parameters can be read where there is one field at most, or there are six and
/// they were not saved in the future.
pub proof fn whole_parameters_can_be_read(text: &[u8], current_time: Duration, b: bool)
    requires
        call_ensures(resume::is_readable, (text, current_time), b),
    ensures
        ({
            let all = saved_params::fields(text@);
            let time = saved_params::number(all[5], 0xffff_ffff_ffff_ffff);
            &&& all.len() <= 1 ==> b
            &&& 1 < all.len() < 6 ==> !b
            &&& all.len() >= 6 ==> b == (time is None || time->0 * 1_000_000_000
                <= current_time.nanos)
        }),
{
}

/// Every acknowledgement counts a packet and leaves the parameters, the last
/// window and the last sample as they are. After the end it does no more, and
/// neither does it in reconnaissance before the initial window is acknowledged.
pub proof fn acknowledgements_count(
    s: &mut Resume,
    largest: u64,
    packet: Acked,
    flightsize: usize,
    iw_acked: bool,
    now: Instant,
    windows: (Option<usize>, Option<usize>),
)
    requires
        call_ensures(
            Resume::process_ack,
            (s, largest, &packet, flightsize, iw_acked, now),
            windows,
        ),
    ensures
        final(s)@.total_acked == old(s)@.total_acked + 1,
        final(s)@ == (ResumeState {
            total_acked: final(s)@.total_acked,
            phase: final(s)@.phase,
            timer: final(s)@.timer,
            pipesize: final(s)@.pipesize,
            jump_cwnd: final(s)@.jump_cwnd,
            ..old(s)@
        }),
        old(s)@.phase != CrState::Reconnaissance ==> final(s)@.timer == old(s)@.timer
            && final(s)@.jump_cwnd == old(s)@.jump_cwnd,
        old(s)@.phase == CrState::Normal || (old(s)@.phase == CrState::Reconnaissance
            && !iw_acked) ==> {
            &&& windows == (None::<usize>, None::<usize>)
            &&& final(s)@ == ResumeState { total_acked: final(s)@.total_acked, ..old(s)@ }
        },
{
}

/// The acknowledgement of the initial window makes the connection jump to half
/// the saved window, from what is in flight, with its clock read. Where half is
/// nothing careful resume ends instead.
pub proof fn acknowledged_initial_window_jumps(
    s: &mut Resume,
    largest: u64,
    packet: Acked,
    flightsize: usize,
    now: Instant,
    windows: (Option<usize>, Option<usize>),
)
    requires
        call_ensures(Resume::process_ack, (s, largest, &packet, flightsize, true, now), windows),
        old(s)@.phase == CrState::Reconnaissance,
    ensures
        final(s)@.pipesize == flightsize,
        final(s)@.timer == now,
        is_half(final(s)@.jump_cwnd, old(s)@.saved_cwnd),
        windows.1 is None,
        old(s)@.saved_cwnd >= 2 ==> {
            &&& final(s)@.phase == CrState::Unvalidated(largest)
            &&& windows.0 is Some && is_half(windows.0->0 as nat, old(s)@.saved_cwnd)
        },
        old(s)@.saved_cwnd < 2 ==> final(s)@.phase == CrState::Normal && windows.0 is None,
{
}

/// In the unvalidated phase every acknowledgement adds to what the path is known
/// to hold. One of a packet sent in the phase sets the window to that or to what
/// is in flight, whichever is larger: in the first case careful resume is
/// complete, in the second the flight is still to be validated.
pub proof fn acknowledged_jump_sets_the_larger_window(
    s: &mut Resume,
    first: u64,
    largest: u64,
    packet: Acked,
    flightsize: usize,
    iw_acked: bool,
    now: Instant,
    windows: (Option<usize>, Option<usize>),
)
    requires
        call_ensures(
            Resume::process_ack,
            (s, largest, &packet, flightsize, iw_acked, now),
            windows,
        ),
        old(s)@.phase == CrState::Unvalidated(first),
    ensures
        final(s)@.pipesize == old(s)@.pipesize + packet.size,
        windows.1 is None,
        packet.pkt_num < first ==> windows.0 is None && final(s)@.phase == old(s)@.phase,
        packet.pkt_num >= first ==> {
            let window = windows.0->0;
            &&& windows.0 is Some
            &&& window >= flightsize && window >= final(s)@.pipesize
            &&& window == flightsize || window == final(s)@.pipesize
            &&& flightsize <= final(s)@.pipesize ==> final(s)@.phase == CrState::Normal && window
                == final(s)@.pipesize
            &&& flightsize > final(s)@.pipesize ==> final(s)@.phase == CrState::Validating(largest)
        },
{
}

/// In validation every acknowledgement adds to what the path is known to hold,
/// no window is set, and the packet that ends the phase ends careful resume.
pub proof fn validation_ends_with_its_packet(
    s: &mut Resume,
    last: u64,
    largest: u64,
    packet: Acked,
    flightsize: usize,
    iw_acked: bool,
    now: Instant,
    windows: (Option<usize>, Option<usize>),
)
    requires
        call_ensures(
            Resume::process_ack,
            (s, largest, &packet, flightsize, iw_acked, now),
            windows,
        ),
        old(s)@.phase == CrState::Validating(last),
    ensures
        final(s)@.pipesize == old(s)@.pipesize + packet.size,
        windows == (None::<usize>, None::<usize>),
        packet.pkt_num < last ==> final(s)@.phase == old(s)@.phase,
        packet.pkt_num >= last ==> final(s)@.phase == CrState::Normal,
{
}

/// In a retreat an acknowledgement adds to what the path is known to hold, up to
/// the last packet of the unvalidated phase, which ends careful resume and makes
/// that the slow-start threshold.
pub proof fn retreat_ends_with_its_packet(
    s: &mut Resume,
    last: u64,
    largest: u64,
    packet: Acked,
    flightsize: usize,
    iw_acked: bool,
    now: Instant,
    windows: (Option<usize>, Option<usize>),
)
    requires
        call_ensures(
            Resume::process_ack,
            (s, largest, &packet, flightsize, iw_acked, now),
            windows,
        ),
        old(s)@.phase == CrState::SafeRetreat(last),
    ensures
        windows.0 is None,
        packet.pkt_num < last ==> {
            &&& final(s)@.pipesize == old(s)@.pipesize + packet.size
            &&& final(s)@.phase == old(s)@.phase
            &&& windows.1 is None
        },
        packet.pkt_num >= last ==> {
            &&& final(s)@.pipesize == old(s)@.pipesize
            &&& final(s)@.phase == CrState::Normal
            &&& windows.1 is Some && windows.1->0 == old(s)@.pipesize
        },
{
}

/// A packet sent leaves its window and its sample behind, and the counts and
/// parameters as they are. Short of data, before the initial window is
/// acknowledged, and without a sample in reconnaissance, the window stays what
/// it is. After reconnaissance none is asked for.
pub proof fn sending_decides_in_reconnaissance_only(
    s: &mut Resume,
    rtt_sample: Option<Duration>,
    cwnd: usize,
    largest: u64,
    app_limited: bool,
    iw_acked: bool,
    now: Instant,
    window: usize,
)
    requires
        call_ensures(
            Resume::send_packet,
            (s, rtt_sample, cwnd, largest, app_limited, iw_acked, now),
            window,
        ),
    ensures
        final(s)@.cwnd == cwnd,
        rtt_sample matches Some(rtt) ==> final(s)@.rtt == Some(rtt.nanos as nat),
        rtt_sample is None ==> final(s)@.rtt is None,
        final(s)@ == (ResumeState {
            cwnd: final(s)@.cwnd,
            rtt: final(s)@.rtt,
            phase: final(s)@.phase,
            timer: final(s)@.timer,
            pipesize: final(s)@.pipesize,
            jump_cwnd: final(s)@.jump_cwnd,
            ..old(s)@
        }),
        app_limited || !iw_acked || old(s)@.phase != CrState::Reconnaissance || rtt_sample is None
            ==> final(s)@ == (ResumeState {
            cwnd: final(s)@.cwnd,
            rtt: final(s)@.rtt,
            ..old(s)@
        }),
        app_limited || !iw_acked ==> window == cwnd,
        !app_limited && iw_acked && old(s)@.phase != CrState::Reconnaissance ==> window == 0,
        old(s)@.phase == CrState::Reconnaissance && rtt_sample is None ==> window == cwnd,
{
}

/// A packet sent in reconnaissance with a sample ends it: careful resume is not
/// used where the round trip takes at most half the saved time; else the
/// connection jumps to half the saved window, from the window it has, with its
/// clock read, or ends careful resume where that is nothing.
pub proof fn sending_jumps_on_a_like_path(
    s: &mut Resume,
    rtt: Duration,
    cwnd: usize,
    largest: u64,
    now: Instant,
    window: usize,
)
    requires
        call_ensures(Resume::send_packet, (s, Some(rtt), cwnd, largest, false, true, now), window),
        old(s)@.phase == CrState::Reconnaissance,
    ensures
        2 * rtt.nanos <= old(s)@.saved_rtt ==> {
            &&& window == cwnd
            &&& final(s)@ == ResumeState {
                phase: CrState::Normal,
                cwnd: final(s)@.cwnd,
                rtt: final(s)@.rtt,
                ..old(s)@
            }
        },
        2 * rtt.nanos > old(s)@.saved_rtt ==> {
            &&& final(s)@.pipesize == cwnd && final(s)@.timer == now
            &&& is_half(final(s)@.jump_cwnd, old(s)@.saved_cwnd)
            &&& is_half(window as nat, old(s)@.saved_cwnd)
            &&& old(s)@.saved_cwnd >= 2 ==> final(s)@.phase == CrState::Unvalidated(largest)
            &&& old(s)@.saved_cwnd < 2 ==> final(s)@.phase == CrState::Normal
        },
{
}

/// Congestion in the unvalidated phase is retreated from, to half of what the
/// path is known to hold. In reconnaissance and validation it ends careful
/// resume, and elsewhere it does nothing. It changes nothing but the phase.
pub proof fn congestion_retreats_or_ends(s: &mut Resume, largest: u64, window: usize)
    requires
        call_ensures(Resume::congestion_event, (s, largest), window),
    ensures
        final(s)@ == (ResumeState { phase: final(s)@.phase, ..old(s)@ }),
        old(s)@.phase is Unvalidated ==> final(s)@.phase == CrState::SafeRetreat(largest)
            && is_half(window as nat, old(s)@.pipesize),
        old(s)@.phase is Reconnaissance || old(s)@.phase is Validating ==> final(s)@.phase
            == CrState::Normal && window == 0,
        old(s)@.phase is SafeRetreat || old(s)@.phase is Normal ==> final(s)@.phase == old(
            s,
        )@.phase && window == 0,
{
}

/// Careful resume goes on where its parameters are in use and it has not ended;
/// asking ends it where they are not, and changes nothing else.
pub proof fn asking_ends_unused_resume(s: &mut Resume, on: bool)
    requires
        call_ensures(Resume::enabled, (s,), on),
    ensures
        on == (old(s)@.enabled && old(s)@.phase != CrState::Normal),
        on ==> final(s)@ == old(s)@,
        !on ==> final(s)@.phase == CrState::Normal,
        final(s)@ == (ResumeState { phase: final(s)@.phase, ..old(s)@ }),
{
}

/// The check of the flight size goes back to what the path is known to hold, and
/// ends careful resume, where the flight is no more than that or less than an
/// initial window; else the flight is kept and validated.
pub proof fn flight_is_kept_where_it_is_larger(
    s: &mut Resume,
    flight: usize,
    initial: usize,
    first: u64,
    cwnd: usize,
)
    requires
        call_ensures(Resume::check_flight_size, (s, flight, initial, first), cwnd),
    ensures
        final(s)@ == (ResumeState { phase: final(s)@.phase, ..old(s)@ }),
        flight < initial || flight <= old(s)@.pipesize ==> final(s)@.phase == CrState::Normal
            && cwnd == old(s)@.pipesize,
        flight >= initial && flight > old(s)@.pipesize ==> final(s)@.phase == CrState::Validating(
            first,
        ) && cwnd == flight,
{
}

/// What is set is what is read, and reading and setting touch nothing else.
pub proof fn readings_are_of_the_state(
    s: Resume,
    state: CrState,
    secs: u64,
    cwnd: Dyadic,
    pipesize: usize,
    jump: usize,
    timer: Instant,
    logged: (CrState, Duration, usize, usize),
    r: &mut Resume,
    new_rtt: u64,
    p: &mut Resume,
    phase: CrState,
)
    requires
        s@.wf(),
        call_ensures(Resume::get_state, (&s,), state),
        call_ensures(Resume::get_saved_rtt, (&s,), secs),
        call_ensures(Resume::get_saved_cwnd, (&s,), cwnd),
        call_ensures(Resume::get_pipesize, (&s,), pipesize),
        call_ensures(Resume::get_jump_cwnd, (&s,), jump),
        call_ensures(Resume::get_state_timer, (&s,), timer),
        call_ensures(Resume::log_values, (&s,), logged),
        call_ensures(Resume::set_saved_rtt, (r, new_rtt), ()),
        call_ensures(Resume::change_state, (p, phase), ()),
    ensures
        state == s@.phase && pipesize == s@.pipesize && jump == s@.jump_cwnd && timer == s@.timer,
        secs * 1_000_000_000 <= s@.saved_rtt < (secs + 1) * 1_000_000_000,
        cwnd@ == dyadic::rounded(s@.saved_cwnd, 1, 0, 53),
        logged.0 == s@.phase && logged.1.nanos == s@.saved_rtt,
        logged.2 == s@.saved_cwnd && logged.3 == s@.pipesize,
        final(r)@.saved_rtt == new_rtt * 1_000_000_000,
        final(r)@ == (ResumeState { saved_rtt: final(r)@.saved_rtt, ..old(r)@ }),
        final(p)@ == (ResumeState { phase, ..old(p)@ }),
{
}

} // verus!
