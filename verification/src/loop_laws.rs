//! What holds of every run of the pull-and-present loop.

use vstd::prelude::*;
use vstd::arithmetic::div_mod::lemma_fundamental_div_mod_converse;
use crate::events::UiEvent;
use crate::poll::{is_interrupt_code, poll_report, PollReport};
use crate::source::ReadResult;
use crate::viewer::{
    exit_status, next_state, stage_of, start_state, valid_loop, with_pending, Action, Event,
    ExitReason, LoopView, Mode, Stage,
};

verus! {

/// Every step leads from a valid state to a valid state. In particular the
/// window is never visible before a frame has been presented, and every read
/// that is asked for lies inside the frame buffer.
pub proof fn lemma_step_keeps_valid(s: LoopView, e: Event)
    requires
        valid_loop(s),
    ensures
        valid_loop(next_state(s, e)),
        next_state(s, e).mode == s.mode,
        next_state(s, e).reader.need == s.reader.need,
{
}

/// Once the loop has ended, no report changes anything.
pub proof fn lemma_exit_is_final(s: LoopView, e: Event)
    requires
        s.pending is Exit,
    ensures
        next_state(s, e) == s,
{
}

/// A wait for input that a signal interrupted neither ends the loop nor
/// counts as a frame: the loop goes back to the window events with
/// everything else as it was.
pub proof fn lemma_interrupted_wait_is_transparent(s: LoopView)
    requires
        s.pending is WaitReadable,
    ensures
        next_state(s, Event::Polled(PollReport::Interrupted)) == with_pending(s, Action::PollUiEvent),
        next_state(s, Event::Polled(PollReport::Interrupted)).presented == s.presented,
        !(next_state(s, Event::Polled(PollReport::Interrupted)).pending is Exit),
{
}

/// The same holds of the raw result of the wait: an error number that stands
/// for an interrupted call neither ends the loop nor counts as a frame.
pub proof fn lemma_interrupt_code_is_transparent(s: LoopView, code: i32)
    requires
        s.pending is WaitReadable,
        is_interrupt_code(code),
    ensures
        next_state(s, Event::Polled(poll_report(Err(code)))) == with_pending(
            s,
            Action::PollUiEvent,
        ),
{
}

/// A wait for input that ran out of time neither ends the loop nor counts as
/// a frame: the loop goes back to the window events.
pub proof fn lemma_timeout_restarts_iteration(s: LoopView)
    requires
        s.pending is WaitReadable,
    ensures
        next_state(s, Event::Polled(PollReport::Events(0))) == with_pending(s, Action::PollUiEvent),
{
}

/// A read that a signal interrupted loses no byte: the bytes of the frame
/// that were already read stay counted, and the loop goes back to the window
/// events.
pub proof fn lemma_interrupted_read_keeps_bytes(s: LoopView)
    requires
        s.pending is Read,
    ensures
        next_state(s, Event::ReadDone(ReadResult::Interrupted)) == with_pending(s, Action::PollUiEvent),
{
}

/// A wait for input begins only when the queue of window events has been
/// found empty: the events are always drained first, so a close request that
/// arrived during a wait is seen before the next wait begins.
pub proof fn lemma_wait_follows_drain(s: LoopView, e: Event)
    requires
        next_state(s, e).pending is WaitReadable,
        !(s.pending is WaitReadable),
    ensures
        s.pending == Action::PollUiEvent,
        e == Event::UiQueueEmpty,
        s.mode == Mode::Stream,
{
}

/// A close request that is taken from the queue ends the loop with exit
/// status zero. The escape key never ends it.
pub proof fn lemma_close_request_quits(s: LoopView, ui: UiEvent)
    requires
        s.pending == Action::PollUiEvent,
    ensures
        ui == UiEvent::CloseRequested ==> next_state(s, Event::Ui(ui)).pending == Action::Exit(
            ExitReason::UserQuit,
        ),
        ui != UiEvent::CloseRequested ==> !(next_state(s, Event::Ui(ui)).pending is Exit),
        exit_status(ExitReason::UserQuit) == 0,
{
}

/// The window becomes visible in one way only: by the report that the
/// action [`Action::Show`] succeeded, which is asked for only after a frame
/// was presented.
pub proof fn lemma_hidden_until_presented(s: LoopView, e: Event)
    requires
        valid_loop(s),
        !s.shown,
        next_state(s, e).shown,
    ensures
        s.pending == Action::Show,
        e == Event::Done,
        s.presented >= 1,
{
}

/// The stages follow one another in one direction: a run that has ended stays
/// ended, a visible window never becomes hidden again, and a hidden window
/// becomes visible only after the first frame was presented.
pub proof fn lemma_stage_order(s: LoopView, e: Event)
    requires
        valid_loop(s),
    ensures
        stage_of(s) == Stage::Terminated ==> stage_of(next_state(s, e)) == Stage::Terminated,
        stage_of(next_state(s, e)) == Stage::Hidden ==> stage_of(s) == Stage::Hidden,
        stage_of(s) == Stage::Hidden && (stage_of(next_state(s, e)) == Stage::Visible || stage_of(
            next_state(s, e),
        ) == Stage::VisibleFullscreen) ==> s.pending == Action::Show && s.presented >= 1,
{
}

/// A frame is presented only when it has been read completely: the action
/// [`Action::Present`] follows a read only when the read completed the frame.
pub proof fn lemma_present_follows_complete_read(s: LoopView, e: Event)
    requires
        valid_loop(s),
        s.mode == Mode::Stream,
        next_state(s, e).pending == Action::Present,
        s.pending != Action::Present,
    ensures
        s.pending is Read,
        e matches Event::ReadDone(ReadResult::Bytes(n)) && s.reader.filled + n == s.reader.need,
{
}

/// The state after a sequence of reports.
pub open spec fn run(s: LoopView, events: Seq<Event>) -> LoopView
    decreases events.len(),
{
    if events.len() == 0 {
        s
    } else {
        run(next_state(s, events[0]), events.drop_first())
    }
}

/// The number of bytes that the report `e` adds to the frame buffer in state
/// `s`: what a read reports while a read is pending, if it is not more than
/// was asked for.
pub open spec fn bytes_taken(s: LoopView, e: Event) -> nat {
    match (s.pending, e) {
        (Action::Read { .. }, Event::ReadDone(ReadResult::Bytes(n))) => if s.reader.filled + n
            <= s.reader.need {
            n as nat
        } else {
            0
        },
        _ => 0,
    }
}

/// The number of bytes read from the stream in the run of `events` from `s`.
pub open spec fn bytes_read(s: LoopView, events: Seq<Event>) -> nat
    decreases events.len(),
{
    if events.len() == 0 {
        0
    } else {
        bytes_taken(s, events[0]) + bytes_read(next_state(s, events[0]), events.drop_first())
    }
}

/// A report that is neither a close request nor a failure.
pub open spec fn quiet(e: Event) -> bool {
    &&& e != Event::Ui(UiEvent::CloseRequested)
    &&& e != Event::Failed
    &&& e != Event::Polled(PollReport::Failed)
    &&& e != Event::ReadDone(ReadResult::Failed)
}

/// A report that is not a read claiming more bytes than were asked for.
pub open spec fn within_request(s: LoopView, e: Event) -> bool {
    match (s.pending, e) {
        (Action::Read { .. }, Event::ReadDone(ReadResult::Bytes(n))) => s.reader.filled + n
            <= s.reader.need,
        _ => true,
    }
}

/// A run in which the user never closes the window, nothing fails, and no
/// read claims more bytes than were asked for.
pub open spec fn undisturbed(s: LoopView, events: Seq<Event>) -> bool
    decreases events.len(),
{
    if events.len() == 0 {
        true
    } else {
        &&& quiet(events[0])
        &&& within_request(s, events[0])
        &&& undisturbed(next_state(s, events[0]), events.drop_first())
    }
}

/// The number of complete frames that have been read and not yet presented.
pub open spec fn in_flight(s: LoopView) -> nat {
    if s.pending == Action::Present {
        1
    } else {
        0
    }
}

/// The bytes read so far are exactly the frames presented, the frame waiting
/// to be presented, and the part of the next frame that has been read.
pub open spec fn accounts_for(s: LoopView, total: nat) -> bool {
    &&& total == (s.presented + in_flight(s)) * s.reader.need + s.reader.filled
    &&& s.pending is Exit ==> s.pending == Action::Exit(ExitReason::EndOfStream)
}

/// One undisturbed step keeps the account of bytes and frames.
proof fn lemma_step_accounting(s: LoopView, e: Event, total: nat)
    requires
        valid_loop(s),
        s.mode == Mode::Stream,
        accounts_for(s, total),
        quiet(e),
        within_request(s, e),
        total / s.reader.need <= u64::MAX,
    ensures
        accounts_for(next_state(s, e), total + bytes_taken(s, e)),
{
    let need = s.reader.need;
    let t = next_state(s, e);
    assert((s.presented + 1) * need == s.presented * need + need) by (nonlinear_arith);
    assert((s.presented + 0) * need == s.presented * need) by (nonlinear_arith);
    if s.pending == Action::Present && e == Event::Done {
        assert(s.presented < u64::MAX) by (nonlinear_arith)
            requires
                total == (s.presented + 1) * need + s.reader.filled,
                total / need <= u64::MAX,
                need > 0,
        ;
    }
}

/// In an undisturbed run over a stream, no byte is lost and no frame is
/// skipped or shown twice: at every moment the bytes read so far are exactly
/// the frames presented, the frame waiting to be presented, and the part of
/// the next frame that has been read.
pub proof fn lemma_run_accounting(s: LoopView, events: Seq<Event>, total: nat)
    requires
        valid_loop(s),
        s.mode == Mode::Stream,
        accounts_for(s, total),
        undisturbed(s, events),
        (total + bytes_read(s, events)) / s.reader.need <= u64::MAX,
    ensures
        valid_loop(run(s, events)),
        run(s, events).mode == Mode::Stream,
        run(s, events).reader.need == s.reader.need,
        accounts_for(run(s, events), total + bytes_read(s, events)),
    decreases events.len(),
{
    if events.len() > 0 {
        let e = events[0];
        let rest = events.drop_first();
        let t = next_state(s, e);
        let need = s.reader.need;
        let more = bytes_read(t, rest);
        assert(total / need <= (total + bytes_taken(s, e) + more) / need) by (nonlinear_arith)
            requires
                need > 0,
        ;
        assert((total + bytes_taken(s, e)) / need <= (total + bytes_taken(s, e) + more) / need)
            by (nonlinear_arith)
            requires
                need > 0,
        ;
        lemma_step_keeps_valid(s, e);
        lemma_step_accounting(s, e, total);
        lemma_run_accounting(t, rest, total + bytes_taken(s, e));
    }
}

/// When an undisturbed run over a stream has ended, it has ended because the
/// stream ended, with exit status zero, and it has presented every complete
/// frame of the stream, in order and once: as many frames as the bytes read
/// hold. The bytes of an incomplete last frame were read and not shown.
pub proof fn lemma_stream_accounting(need: nat, events: Seq<Event>)
    requires
        0 < need <= usize::MAX,
        undisturbed(start_state(Mode::Stream, need), events),
        bytes_read(start_state(Mode::Stream, need), events) / need <= u64::MAX,
        run(start_state(Mode::Stream, need), events).pending is Exit,
    ensures
        run(start_state(Mode::Stream, need), events).pending == Action::Exit(ExitReason::EndOfStream),
        exit_status(ExitReason::EndOfStream) == 0,
        run(start_state(Mode::Stream, need), events).presented == bytes_read(
            start_state(Mode::Stream, need),
            events,
        ) / need,
        run(start_state(Mode::Stream, need), events).reader.filled == bytes_read(
            start_state(Mode::Stream, need),
            events,
        ) % need,
{
    let s = start_state(Mode::Stream, need);
    let t = run(s, events);
    let total = bytes_read(s, events);
    assert((s.presented + in_flight(s)) * need == 0) by (nonlinear_arith)
        requires
            s.presented + in_flight(s) == 0,
    ;
    lemma_run_accounting(s, events, 0);
    assert(total == t.presented * need + t.reader.filled);
    lemma_fundamental_div_mod_converse(
        total as int,
        need as int,
        t.presented as int,
        t.reader.filled as int,
    );
}

/// Given an input of exactly `k` frames, an undisturbed loop that has ended
/// has presented exactly `k` frames and ended with exit status zero.
pub proof fn lemma_stream_completeness(need: nat, k: nat, events: Seq<Event>)
    requires
        0 < need <= usize::MAX,
        k <= u64::MAX,
        undisturbed(start_state(Mode::Stream, need), events),
        bytes_read(start_state(Mode::Stream, need), events) == k * need,
        run(start_state(Mode::Stream, need), events).pending is Exit,
    ensures
        run(start_state(Mode::Stream, need), events).presented == k,
        run(start_state(Mode::Stream, need), events).reader.filled == 0,
        run(start_state(Mode::Stream, need), events).pending == Action::Exit(ExitReason::EndOfStream),
        exit_status(ExitReason::EndOfStream) == 0,
{
    assert((k * need) / need == k && (k * need) % need == 0) by (nonlinear_arith)
        requires
            need > 0,
    ;
    lemma_stream_accounting(need, events);
}

/// A run in two parts is the run of the second part from where the first
/// part ended, and it is undisturbed and reads what the two parts do.
pub proof fn lemma_run_in_parts(s: LoopView, first: Seq<Event>, second: Seq<Event>)
    ensures
        run(s, first + second) == run(run(s, first), second),
        bytes_read(s, first + second) == bytes_read(s, first) + bytes_read(run(s, first), second),
        undisturbed(s, first + second) <==> undisturbed(s, first) && undisturbed(
            run(s, first),
            second,
        ),
    decreases first.len(),
{
    if first.len() == 0 {
        assert(first + second =~= second);
    } else {
        assert((first + second).drop_first() =~= first.drop_first() + second);
        lemma_run_in_parts(next_state(s, first[0]), first.drop_first(), second);
    }
}

/// The reports of an iteration that finds a whole frame: no window event is
/// queued, the input is readable, one read fills the frame, the frame is
/// presented, and the window is shown. After the first frame nothing waits
/// for the last report, and it changes nothing.
pub open spec fn frame_reports(need: nat) -> Seq<Event> {
    seq![
        Event::UiQueueEmpty,
        Event::Polled(PollReport::Events(1)),
        Event::ReadDone(ReadResult::Bytes(need as usize)),
        Event::Done,
        Event::Done,
    ]
}

/// The reports of an iteration that finds the end of the stream.
pub open spec fn end_reports() -> Seq<Event> {
    seq![
        Event::UiQueueEmpty,
        Event::Polled(PollReport::Events(1)),
        Event::ReadDone(ReadResult::Bytes(0)),
    ]
}

/// The reports of a run over a stream of exactly `k` frames, each read in
/// one piece.
pub open spec fn whole_frames_reports(need: nat, k: nat) -> Seq<Event>
    decreases k,
{
    if k == 0 {
        end_reports()
    } else {
        frame_reports(need) + whole_frames_reports(need, (k - 1) as nat)
    }
}

/// One iteration that finds a whole frame presents it, shows the window, and
/// stands at the start of the next iteration.
proof fn lemma_frame_iteration(s: LoopView)
    requires
        valid_loop(s),
        s.mode == Mode::Stream,
        s.pending == Action::PollUiEvent,
        s.reader.filled == 0,
        s.presented < u64::MAX,
    ensures
        run(s, frame_reports(s.reader.need)) == (LoopView {
            presented: s.presented + 1,
            shown: true,
            ..s
        }),
        undisturbed(s, frame_reports(s.reader.need)),
        bytes_read(s, frame_reports(s.reader.need)) == s.reader.need,
{
    let events = frame_reports(s.reader.need);
    let e1 = events.drop_first();
    let e2 = e1.drop_first();
    let e3 = e2.drop_first();
    let e4 = e3.drop_first();
    let e5 = e4.drop_first();
    assert(e5.len() == 0);
    reveal_with_fuel(run, 6);
    reveal_with_fuel(undisturbed, 6);
    reveal_with_fuel(bytes_read, 6);
    let s1 = next_state(s, events[0]);
    let s2 = next_state(s1, e1[0]);
    let s3 = next_state(s2, e2[0]);
    let s4 = next_state(s3, e3[0]);
    let s5 = next_state(s4, e4[0]);
    assert(s3.pending == Action::Present);
    assert(s5 == (LoopView { presented: s.presented + 1, shown: true, ..s }));
}

/// One iteration that finds the end of the stream on a frame boundary ends
/// the loop.
proof fn lemma_end_iteration(s: LoopView)
    requires
        valid_loop(s),
        s.mode == Mode::Stream,
        s.pending == Action::PollUiEvent,
        s.reader.filled == 0,
    ensures
        run(s, end_reports()) == with_pending(s, Action::Exit(ExitReason::EndOfStream)),
        undisturbed(s, end_reports()),
        bytes_read(s, end_reports()) == 0,
{
    let events = end_reports();
    let e1 = events.drop_first();
    let e2 = e1.drop_first();
    let e3 = e2.drop_first();
    assert(e3.len() == 0);
    reveal_with_fuel(run, 4);
    reveal_with_fuel(undisturbed, 4);
    reveal_with_fuel(bytes_read, 4);
    let s1 = next_state(s, events[0]);
    let s2 = next_state(s1, e1[0]);
    let s3 = next_state(s2, e2[0]);
    assert(s3 == with_pending(s, Action::Exit(ExitReason::EndOfStream)));
}

/// From the start of an iteration, a stream of exactly `k` more frames is
/// presented frame by frame, and then the loop ends.
proof fn lemma_whole_frames_from(s: LoopView, k: nat)
    requires
        valid_loop(s),
        s.mode == Mode::Stream,
        s.pending == Action::PollUiEvent,
        s.reader.filled == 0,
        s.presented + k <= u64::MAX,
    ensures
        run(s, whole_frames_reports(s.reader.need, k)) == (LoopView {
            pending: Action::Exit(ExitReason::EndOfStream),
            presented: s.presented + k,
            shown: s.shown || k > 0,
            ..s
        }),
        undisturbed(s, whole_frames_reports(s.reader.need, k)),
        bytes_read(s, whole_frames_reports(s.reader.need, k)) == k * s.reader.need,
    decreases k,
{
    let need = s.reader.need;
    if k == 0 {
        lemma_end_iteration(s);
        assert(0 * need == 0) by (nonlinear_arith);
    } else {
        let t = LoopView { presented: s.presented + 1, shown: true, ..s };
        let rest = whole_frames_reports(need, (k - 1) as nat);
        lemma_frame_iteration(s);
        lemma_whole_frames_from(t, (k - 1) as nat);
        lemma_run_in_parts(s, frame_reports(need), rest);
        assert(need + (k - 1) * need == k * need) by (nonlinear_arith);
    }
}

/// A stream of exactly `k` frames can be played to its end: when no window
/// event arrives, the input is readable and every read returns a whole
/// frame, the loop presents the `k` frames, shows the window with the first
/// of them, and ends with exit status zero because the stream ended.
pub proof fn lemma_whole_frames_play_to_the_end(need: nat, k: nat)
    requires
        0 < need <= usize::MAX,
        k <= u64::MAX,
    ensures
        undisturbed(start_state(Mode::Stream, need), whole_frames_reports(need, k)),
        bytes_read(start_state(Mode::Stream, need), whole_frames_reports(need, k)) == k * need,
        run(start_state(Mode::Stream, need), whole_frames_reports(need, k)).pending == Action::Exit(
            ExitReason::EndOfStream,
        ),
        run(start_state(Mode::Stream, need), whole_frames_reports(need, k)).presented == k,
        run(start_state(Mode::Stream, need), whole_frames_reports(need, k)).shown <==> k > 0,
        exit_status(ExitReason::EndOfStream) == 0,
{
    lemma_whole_frames_from(start_state(Mode::Stream, need), k);
}

} // verus!
