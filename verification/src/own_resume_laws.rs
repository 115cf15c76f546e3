//! What holds of careful resume with a capped jump over any series of calls.

use vstd::prelude::*;

use crate::cr_state::{self, CrState};
use crate::dyadic::{self, Dyadic};
use crate::own_resume::{self, OwnResume, OwnResumeState, MAX_JUMP};
use crate::packet::Acked;
use crate::saved_params;
use crate::time::{Duration, Instant};

verus! {

/// An acknowledgement as the machine is told of it.
pub struct Ack {
    pub largest_pkt_sent: u64,
    pub packet: Acked,
    pub flightsize: nat,
    pub iw_acked: bool,
    pub now: Instant,
}

/// A call of the machine.
pub enum Input {
    Ack(Ack),
    Send { rtt_sample: Option<Duration>, cwnd: nat, app_limited: bool, iw_acked: bool },
    Congestion { largest_pkt_sent: u64 },
    Enabled,
    Setup { saved_rtt: Duration, saved_cwnd: nat },
}

/// The state after a call.
pub open spec fn step(s: OwnResumeState, input: Input) -> OwnResumeState {
    match input {
        Input::Ack(a) => s.acked(a.largest_pkt_sent, a.packet, a.flightsize, a.iw_acked, a.now),
        Input::Send { rtt_sample, cwnd, app_limited, iw_acked } => s.sent(
            rtt_sample,
            cwnd,
            app_limited,
            iw_acked,
        ),
        Input::Congestion { largest_pkt_sent } => s.congested(largest_pkt_sent),
        Input::Enabled => s.asked(),
        Input::Setup { saved_rtt, saved_cwnd } => OwnResumeState {
            enabled: true,
            saved_rtt: saved_rtt.nanos as nat,
            saved_cwnd,
            ..s
        },
    }
}

/// Whether any call of a series sets the machine up.
pub open spec fn any_sets_up(inputs: Seq<Input>) -> bool
    decreases inputs.len(),
{
    inputs.len() > 0 && (any_sets_up(inputs.drop_last()) || inputs.last() is Setup)
}

/// Whether a call is an acknowledgement in reconnaissance that finds the
/// initial window acknowledged.
pub open spec fn jumps(s: OwnResumeState, input: Input) -> bool {
    s.phase == CrState::Reconnaissance && (input matches Input::Ack(a) && a.iw_acked)
}

/// Whether any call of a series is.
pub open spec fn any_jumps(s: OwnResumeState, inputs: Seq<Input>) -> bool
    decreases inputs.len(),
{
    inputs.len() > 0 && (any_jumps(s, inputs.drop_last()) || jumps(
        run(s, inputs.drop_last()),
        inputs.last(),
    ))
}

/// The state after a series of calls.
pub open spec fn run(s: OwnResumeState, inputs: Seq<Input>) -> OwnResumeState
    decreases inputs.len(),
{
    if inputs.len() == 0 {
        s
    } else {
        step(run(s, inputs.drop_last()), inputs.last())
    }
}

/// The bytes acknowledged in a series of calls.
pub open spec fn bytes(inputs: Seq<Input>) -> nat
    decreases inputs.len(),
{
    if inputs.len() == 0 {
        0
    } else {
        bytes(inputs.drop_last()) + match inputs.last() {
            Input::Ack(a) => a.packet.size as nat,
            _ => 0,
        }
    }
}

/// Once careful resume has ended, it stays ended: no acknowledgement, packet or
/// congestion event starts it again, or changes a window on its account.
pub proof fn the_end_is_final(s: OwnResumeState, inputs: Seq<Input>)
    requires
        s.phase == CrState::Normal,
    ensures
        run(s, inputs).phase == CrState::Normal,
        run(s, inputs).pipesize == s.pipesize,
        run(s, inputs).jump_cwnd == s.jump_cwnd,
        forall|packet: Acked, flightsize: nat| #[trigger]
            run(s, inputs).ack_cwnd(packet, flightsize) is None,
        forall|packet: Acked| #[trigger] run(s, inputs).ack_ssthresh(packet) is None,
    decreases inputs.len(),
{
    if inputs.len() > 0 {
        the_end_is_final(s, inputs.drop_last());
    }
}

/// Careful resume only moves on: from reconnaissance to the unvalidated phase,
/// from there to validation or retreat, and from either to its end.
pub proof fn phases_only_move_on(s: OwnResumeState, inputs: Seq<Input>)
    ensures
        cr_state::progress(s.phase) <= cr_state::progress(run(s, inputs).phase),
    decreases inputs.len(),
{
    if inputs.len() > 0 {
        phases_only_move_on(s, inputs.drop_last());
    }
}

/// The parameters, and whether they are used, do not change unless they are
/// set up anew.
pub proof fn parameters_are_kept(s: OwnResumeState, inputs: Seq<Input>)
    requires
        !any_sets_up(inputs),
    ensures
        run(s, inputs).enabled == s.enabled,
        run(s, inputs).saved_rtt == s.saved_rtt,
        run(s, inputs).saved_cwnd == s.saved_cwnd,
    decreases inputs.len(),
{
    if inputs.len() > 0 {
        parameters_are_kept(s, inputs.drop_last());
    }
}

/// Without usable parameters careful resume has ended as soon as it is asked
/// after, and never goes on, not even where it is set up then.
pub proof fn disabled_resume_ends(s: OwnResumeState, before: Seq<Input>, after: Seq<Input>)
    requires
        !s.enabled,
        !any_sets_up(before),
    ensures
        run(run(s, before).asked(), after).phase == CrState::Normal,
{
    parameters_are_kept(s, before);
    the_end_is_final(run(s, before).asked(), after);
}

/// Parameters are used from the start if and only if both of them are there.
pub proof fn only_supplied_parameters_are_used(
    trace_id: Seq<char>,
    contents: Option<Seq<u8>>,
    now: Instant,
)
    ensures
        OwnResumeState::initial(trace_id, contents, now).enabled <==> (contents matches Some(text)
            && saved_params::supplied(text)),
{
}

/// The window to jump to is set by the acknowledgement that finds the initial
/// window acknowledged, to half the saved window or the cap, and by nothing
/// else.
pub proof fn only_the_jump_sets_its_window(s: OwnResumeState, input: Input)
    ensures
        jumps(s, input) ==> step(s, input).jump_cwnd == s.jump(),
        !jumps(s, input) ==> step(s, input).jump_cwnd == s.jump_cwnd,
        s.jump() <= MAX_JUMP,
        2 * s.jump() <= s.saved_cwnd,
{
}

/// From its start on, whatever is called, a machine never jumps further than it
/// is configured to, and nowhere before the initial window is acknowledged. Nor
/// does it jump further than half the saved window, as long as that is not
/// replaced.
pub proof fn jumps_are_capped(
    trace_id: Seq<char>,
    contents: Option<Seq<u8>>,
    now: Instant,
    inputs: Seq<Input>,
)
    ensures
        ({
            let start = OwnResumeState::initial(trace_id, contents, now);
            let s = run(start, inputs);
            &&& s.jump_cwnd <= MAX_JUMP
            &&& !any_jumps(start, inputs) ==> s.jump_cwnd == 0 && !(s.phase is Unvalidated)
            &&& !any_sets_up(inputs) ==> 2 * s.jump_cwnd <= s.saved_cwnd && (s.phase is Unvalidated
                ==> s.jump_cwnd == s.jump())
        }),
    decreases inputs.len(),
{
    if inputs.len() > 0 {
        jumps_are_capped(trace_id, contents, now, inputs.drop_last());
    }
}

/// The machine counts the bytes acknowledged.
pub proof fn bytes_are_counted(s: OwnResumeState, inputs: Seq<Input>)
    ensures
        run(s, inputs).total_acked == s.total_acked + bytes(inputs),
    decreases inputs.len(),
{
    if inputs.len() > 0 {
        bytes_are_counted(s, inputs.drop_last());
    }
}

/// After reconnaissance, what the path is known to hold grows by no more than
/// the bytes acknowledged, and never shrinks.
pub proof fn pipesize_grows_by_acknowledged_bytes(s: OwnResumeState, inputs: Seq<Input>)
    requires
        s.phase != CrState::Reconnaissance,
    ensures
        s.pipesize <= run(s, inputs).pipesize <= s.pipesize + bytes(inputs),
    decreases inputs.len(),
{
    if inputs.len() > 0 {
        pipesize_grows_by_acknowledged_bytes(s, inputs.drop_last());
        phases_only_move_on(s, inputs.drop_last());
    }
}

/// The unvalidated phase lasts one saved round-trip time at most: the first
/// acknowledgement after that ends it.
pub proof fn unvalidated_phase_lasts_one_round_trip(s: OwnResumeState, ack: Ack)
    requires
        s.phase is Unvalidated,
        s.overdue(ack.now),
    ensures
        !(step(s, Input::Ack(ack)).phase is Unvalidated),
{
}

/// Whether a call leaves a retreat going on: it does not acknowledge the last
/// packet of the unvalidated phase, and does not ask a machine without
/// parameters.
pub open spec fn retreat_survives(s: OwnResumeState, last: u64, input: Input) -> bool {
    match input {
        Input::Ack(a) => a.packet.pkt_num < last,
        Input::Enabled => s.enabled,
        _ => true,
    }
}

/// A retreat goes on, and counts what is acknowledged, until the last packet of
/// the unvalidated phase is.
proof fn lemma_retreat_goes_on(s: OwnResumeState, last: u64, series: Seq<Input>)
    requires
        s.phase == CrState::SafeRetreat(last),
        forall|i: int|
            0 <= i < series.len() ==> retreat_survives(s, last, #[trigger] series[i]),
    ensures
        run(s, series).phase == CrState::SafeRetreat(last),
        run(s, series).pipesize == s.pipesize + bytes(series),
        s.enabled ==> run(s, series).enabled,
    decreases series.len(),
{
    if series.len() > 0 {
        assert(retreat_survives(s, last, series[series.len() - 1]));
        lemma_retreat_goes_on(s, last, series.drop_last());
    }
}

/// In a retreat the window is half of what the path holds, which grows with
/// what is acknowledged, and the end of the retreat makes it the slow-start
/// threshold.
pub proof fn retreat_ends_at_the_path_capacity(
    s: OwnResumeState,
    last: u64,
    series: Seq<Input>,
    end: Ack,
    rtt_sample: Option<Duration>,
    cwnd: nat,
)
    requires
        s.phase is Unvalidated,
        forall|i: int|
            0 <= i < series.len() ==> retreat_survives(s, last, #[trigger] series[i]),
        end.packet.pkt_num >= last,
    ensures
        run(s.congested(last), series).send_cwnd(rtt_sample, cwnd, false, true) == (s.pipesize
            + bytes(series)) / 2,
        run(s.congested(last), series).ack_ssthresh(end.packet) == Some(
            s.pipesize + bytes(series),
        ),
        step(run(s.congested(last), series), Input::Ack(end)).phase == CrState::Normal,
{
    let c = s.congested(last);
    assert forall|i: int| 0 <= i < series.len() implies retreat_survives(
        c,
        last,
        #[trigger] series[i],
    ) by {
        assert(retreat_survives(s, last, series[i]));
    }
    lemma_retreat_goes_on(c, last, series);
}

/// A round-trip time unlike the saved one ends careful resume before it has
/// begun.
pub proof fn unlike_path_is_not_resumed(s: OwnResumeState, rtt: Duration, cwnd: nat)
    requires
        s.phase == CrState::Reconnaissance,
    ensures
        s.sent(Some(rtt), cwnd, false, true).phase == CrState::Normal <==> (2 * rtt.nanos
            <= s.saved_rtt || rtt.nanos >= 10 * s.saved_rtt),
{
}

/// A packet sent without a round-trip sample leaves the phase as it is.
pub proof fn no_decision_without_a_sample(
    s: OwnResumeState,
    cwnd: nat,
    app_limited: bool,
    iw_acked: bool,
)
    ensures
        s.sent(None, cwnd, app_limited, iw_acked).phase == s.phase,
{
}

/// Whether a window is half of another, in whole bytes.
pub open spec fn is_half(part: nat, all: nat) -> bool {
    2 * part <= all < 2 * part + 2
}

/// A machine starts in reconnaissance, with nothing counted and its clock read.
/// What is saved is what the fields say, and nothing where there are none or one
/// is no number. It is in use only with both.
pub proof fn machines_start_with_what_is_saved(
    trace_id: &str,
    contents: Option<&[u8]>,
    now: Instant,
    r: OwnResume,
)
    requires
        call_ensures(OwnResume::new, (trace_id, contents, now), r),
    ensures
        r@.trace_id == trace_id@,
        r@.phase == CrState::Reconnaissance,
        r@.pipesize == 0 && r@.jump_cwnd == 0 && r@.total_acked == 0 && r@.cwnd == 0,
        r@.rtt == Some(0nat),
        r@.timer == now,
        contents is None ==> !r@.enabled && r@.saved_cwnd == 0 && r@.saved_rtt == 0,
        contents matches Some(text) ==> {
            let all = saved_params::fields(text@);
            let rtt = saved_params::number(all[1], 0xffff_ffff_ffff_ffff);
            let cwnd = saved_params::number(all[3], usize::MAX as nat);
            &&& r@.enabled == (rtt is Some && cwnd is Some)
            &&& r@.saved_rtt == if rtt is Some {
                rtt->0 * 1_000_000_000
            } else {
                0
            }
            &&& r@.saved_cwnd == if cwnd is Some {
                cwnd->0
            } else {
                0
            }
        },
{
}

/// Parameters can be read where there are four fields.
pub proof fn whole_parameters_can_be_read(text: &[u8], b: bool)
    requires
        call_ensures(own_resume::is_readable, (text,), b),
    ensures
        b == (saved_params::fields(text@).len() >= 4),
{
}

/// Setting a machine up switches it on with the given parameters, and changes
/// nothing else.
pub proof fn setting_up_switches_on(s: &mut OwnResume, rtt: Duration, cwnd: usize)
    requires
        call_ensures(OwnResume::setup, (s, rtt, cwnd), ()),
    ensures
        final(s)@.enabled && final(s)@.saved_rtt == rtt.nanos && final(s)@.saved_cwnd == cwnd,
        final(s)@ == (OwnResumeState {
            enabled: final(s)@.enabled,
            saved_rtt: final(s)@.saved_rtt,
            saved_cwnd: final(s)@.saved_cwnd,
            ..old(s)@
        }),
{
}

/// Every acknowledgement counts its bytes and leaves the parameters, the last
/// window and the last sample as they are. After the end it does no more, and
/// neither does it in reconnaissance before the initial window is acknowledged.
pub proof fn acknowledgements_count(
    s: &mut OwnResume,
    largest: u64,
    packet: Acked,
    flightsize: usize,
    iw_acked: bool,
    now: Instant,
    windows: (Option<usize>, Option<usize>),
)
    requires
        call_ensures(
            OwnResume::process_ack,
            (s, largest, &packet, flightsize, iw_acked, now),
            windows,
        ),
    ensures
        final(s)@.total_acked == old(s)@.total_acked + packet.size,
        final(s)@ == (OwnResumeState {
            total_acked: final(s)@.total_acked,
            phase: final(s)@.phase,
            timer: final(s)@.timer,
            pipesize: final(s)@.pipesize,
            jump_cwnd: final(s)@.jump_cwnd,
            ..old(s)@
        }),
        old(s)@.phase != CrState::Reconnaissance ==> final(s)@.timer == old(s)@.timer
            && final(s)@.jump_cwnd == old(s)@.jump_cwnd,
        old(s)@.phase == CrState::Normal || (old(s)@.phase == CrState::Reconnaissance
            && !iw_acked) ==> {
            &&& windows == (None::<usize>, None::<usize>)
            &&& final(s)@ == OwnResumeState { total_acked: final(s)@.total_acked, ..old(s)@ }
        },
{
}

/// The acknowledgement of the initial window begins the unvalidated phase, from
/// what is in flight and with its clock read. The window to jump to is half the
/// saved one, or the cap where that is more. No window is set yet.
pub proof fn acknowledged_initial_window_jumps(
    s: &mut OwnResume,
    largest: u64,
    packet: Acked,
    flightsize: usize,
    now: Instant,
    windows: (Option<usize>, Option<usize>),
)
    requires
        call_ensures(
            OwnResume::process_ack,
            (s, largest, &packet, flightsize, true, now),
            windows,
        ),
        old(s)@.phase == CrState::Reconnaissance,
    ensures
        windows == (None::<usize>, None::<usize>),
        final(s)@.phase == CrState::Unvalidated(largest),
        final(s)@.pipesize == flightsize,
        final(s)@.timer == now,
        final(s)@.jump_cwnd <= 2000 && 2 * final(s)@.jump_cwnd <= old(s)@.saved_cwnd,
        final(s)@.jump_cwnd == 2000 || is_half(final(s)@.jump_cwnd, old(s)@.saved_cwnd),
{
}

/// In the unvalidated phase every acknowledgement adds to what the path is known
/// to hold. One of a packet sent in the phase sets the window to that or to what
/// is in flight, whichever is larger: in the first case careful resume is
/// complete, in the second the flight is still to be validated. One of an
/// earlier packet moves on to validation after a saved round-trip time.
pub proof fn acknowledged_jump_sets_the_larger_window(
    s: &mut OwnResume,
    first: u64,
    largest: u64,
    packet: Acked,
    flightsize: usize,
    iw_acked: bool,
    now: Instant,
    windows: (Option<usize>, Option<usize>),
)
    requires
        call_ensures(
            OwnResume::process_ack,
            (s, largest, &packet, flightsize, iw_acked, now),
            windows,
        ),
        old(s)@.phase == CrState::Unvalidated(first),
    ensures
        final(s)@.pipesize == old(s)@.pipesize + packet.size,
        windows.1 is None,
        packet.pkt_num < first ==> {
            &&& windows.0 is None
            &&& now.nanos > old(s)@.timer.nanos + old(s)@.saved_rtt ==> final(s)@.phase
                == CrState::Validating(largest)
            &&& now.nanos <= old(s)@.timer.nanos + old(s)@.saved_rtt ==> final(s)@.phase == old(
                s,
            )@.phase
        },
        packet.pkt_num >= first ==> {
            let window = windows.0->0;
            &&& windows.0 is Some
            &&& window >= flightsize && window >= final(s)@.pipesize
            &&& window == flightsize || window == final(s)@.pipesize
            &&& flightsize <= final(s)@.pipesize ==> final(s)@.phase == CrState::Normal && window
                == final(s)@.pipesize
            &&& flightsize > final(s)@.pipesize ==> final(s)@.phase == CrState::Validating(largest)
        },
{
}

/// In validation every acknowledgement adds to what the path is known to hold,
/// no window is set, and the packet that ends the phase ends careful resume.
pub proof fn validation_ends_with_its_packet(
    s: &mut OwnResume,
    last: u64,
    largest: u64,
    packet: Acked,
    flightsize: usize,
    iw_acked: bool,
    now: Instant,
    windows: (Option<usize>, Option<usize>),
)
    requires
        call_ensures(
            OwnResume::process_ack,
            (s, largest, &packet, flightsize, iw_acked, now),
            windows,
        ),
        old(s)@.phase == CrState::Validating(last),
    ensures
        final(s)@.pipesize == old(s)@.pipesize + packet.size,
        windows == (None::<usize>, None::<usize>),
        packet.pkt_num < last ==> final(s)@.phase == old(s)@.phase,
        packet.pkt_num >= last ==> final(s)@.phase == CrState::Normal,
{
}

/// In a retreat an acknowledgement adds to what the path is known to hold, up to
/// the last packet of the unvalidated phase, which ends careful resume and makes
/// that the slow-start threshold.
pub proof fn retreat_ends_with_its_packet(
    s: &mut OwnResume,
    last: u64,
    largest: u64,
    packet: Acked,
    flightsize: usize,
    iw_acked: bool,
    now: Instant,
    windows: (Option<usize>, Option<usize>),
)
    requires
        call_ensures(
            OwnResume::process_ack,
            (s, largest, &packet, flightsize, iw_acked, now),
            windows,
        ),
        old(s)@.phase == CrState::SafeRetreat(last),
    ensures
        windows.0 is None,
        packet.pkt_num < last ==> {
            &&& final(s)@.pipesize == old(s)@.pipesize + packet.size
            &&& final(s)@.phase == old(s)@.phase
            &&& windows.1 is None
        },
        packet.pkt_num >= last ==> {
            &&& final(s)@.pipesize == old(s)@.pipesize
            &&& final(s)@.phase == CrState::Normal
            &&& windows.1 is Some && windows.1->0 == old(s)@.pipesize
        },
{
}

/// A packet sent leaves its window and its sample behind. It changes nothing
/// else, save that a round-trip time unlike the saved one, at most half of it or
/// at least ten times it, ends careful resume in reconnaissance.
pub proof fn sending_only_ends_reconnaissance(
    s: &mut OwnResume,
    rtt_sample: Option<Duration>,
    cwnd: usize,
    largest: u64,
    app_limited: bool,
    iw_acked: bool,
    window: usize,
)
    requires
        call_ensures(
            OwnResume::send_packet,
            (s, rtt_sample, cwnd, largest, app_limited, iw_acked),
            window,
        ),
    ensures
        final(s)@.cwnd == cwnd,
        rtt_sample matches Some(rtt) ==> final(s)@.rtt == Some(rtt.nanos as nat),
        rtt_sample is None ==> final(s)@.rtt is None,
        final(s)@ == (OwnResumeState {
            cwnd: final(s)@.cwnd,
            rtt: final(s)@.rtt,
            phase: final(s)@.phase,
            ..old(s)@
        }),
        ({
            let unlike = rtt_sample matches Some(rtt) && (2 * rtt.nanos <= old(s)@.saved_rtt
                || rtt.nanos >= 10 * old(s)@.saved_rtt);
            let ends = !app_limited && iw_acked && old(s)@.phase == CrState::Reconnaissance
                && unlike;
            &&& ends ==> final(s)@.phase == CrState::Normal && window == cwnd
            &&& !ends ==> final(s)@.phase == old(s)@.phase
        }),
{
}

/// The window for a packet to be sent. Short of data, and before the initial
/// window is acknowledged, it is the saved one. Else it is the one to jump to in
/// the unvalidated phase, and half of what the path is known to hold in a
/// retreat; in validation and after the end it stays what it is. In
/// reconnaissance it stays so without a sample and on an unlike path, and is
/// nothing on a like one.
pub proof fn window_for_a_packet_follows_the_phase(
    s: &mut OwnResume,
    rtt_sample: Option<Duration>,
    cwnd: usize,
    largest: u64,
    app_limited: bool,
    iw_acked: bool,
    window: usize,
)
    requires
        call_ensures(
            OwnResume::send_packet,
            (s, rtt_sample, cwnd, largest, app_limited, iw_acked),
            window,
        ),
    ensures
        app_limited || !iw_acked ==> window == old(s)@.saved_cwnd,
        !app_limited && iw_acked ==> match old(s)@.phase {
            CrState::Reconnaissance => match rtt_sample {
                Some(rtt) => if 2 * rtt.nanos > old(s)@.saved_rtt && rtt.nanos < 10 * old(
                    s,
                )@.saved_rtt {
                    window == 0
                } else {
                    window == cwnd
                },
                None => window == cwnd,
            },
            CrState::Unvalidated(_) => window == old(s)@.jump_cwnd,
            CrState::SafeRetreat(_) => is_half(window as nat, old(s)@.pipesize),
            CrState::Validating(_) => window == cwnd,
            CrState::Normal => window == cwnd,
        },
{
}

/// Congestion in the unvalidated phase is retreated from. In reconnaissance and
/// validation it ends careful resume, and elsewhere it does nothing. It changes
/// nothing but the phase, and sets no window.
pub proof fn congestion_retreats_or_ends(s: &mut OwnResume, largest: u64, window: usize)
    requires
        call_ensures(OwnResume::congestion_event, (s, largest), window),
    ensures
        window == 0,
        final(s)@ == (OwnResumeState { phase: final(s)@.phase, ..old(s)@ }),
        old(s)@.phase is Unvalidated ==> final(s)@.phase == CrState::SafeRetreat(largest),
        old(s)@.phase is Reconnaissance || old(s)@.phase is Validating ==> final(s)@.phase
            == CrState::Normal,
        old(s)@.phase is SafeRetreat || old(s)@.phase is Normal ==> final(s)@.phase == old(
            s,
        )@.phase,
{
}

/// Careful resume goes on where its parameters are in use and it has not ended;
/// asking ends it where they are not, and changes nothing else.
pub proof fn asking_ends_unused_resume(s: &mut OwnResume, on: bool)
    requires
        call_ensures(OwnResume::enabled, (s,), on),
    ensures
        on == (old(s)@.enabled && old(s)@.phase != CrState::Normal),
        on ==> final(s)@ == old(s)@,
        !on ==> final(s)@.phase == CrState::Normal,
        final(s)@ == (OwnResumeState { phase: final(s)@.phase, ..old(s)@ }),
{
}

/// What is read is the state.
pub proof fn readings_are_of_the_state(
    s: OwnResume,
    state: CrState,
    secs: u64,
    cwnd: Dyadic,
    pipesize: usize,
    jump: usize,
    logged: (CrState, Duration, usize, usize),
)
    requires
        s@.wf(),
        call_ensures(OwnResume::log_values, (&s,), logged),
        call_ensures(OwnResume::get_state, (&s,), state),
        call_ensures(OwnResume::get_saved_rtt, (&s,), secs),
        call_ensures(OwnResume::get_saved_cwnd, (&s,), cwnd),
        call_ensures(OwnResume::get_pipesize, (&s,), pipesize),
        call_ensures(OwnResume::get_jump_cwnd, (&s,), jump),
    ensures
        state == s@.phase && pipesize == s@.pipesize && jump == s@.jump_cwnd,
        secs * 1_000_000_000 <= s@.saved_rtt < (secs + 1) * 1_000_000_000,
        cwnd@ == dyadic::rounded(s@.saved_cwnd, 1, 0, 53),
        logged.0 == s@.phase && logged.1.nanos == s@.saved_rtt,
        logged.2 == s@.saved_cwnd && logged.3 == s@.pipesize,
{
}

} // verus!
