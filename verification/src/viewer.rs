//! The pull-and-present loop as a state machine.
//!
//! The loop interleaves three concerns without starving any of them: window
//! events, the readiness of a possibly slow input, and the presentation of
//! frames. The machine decides; the program around it acts. The machine
//! names the next [`Action`], the program performs it and reports what
//! happened as an [`Event`], and [`ViewerLoop::step`] answers with the action
//! after that.
//!
//! One iteration drains the queued window events, waits up to one second for
//! input, reads one whole frame, presents it, and reveals the window after
//! the first frame.

use vstd::prelude::*;
use crate::events::{intent_of, translate_event, Intent, UiEvent};
use crate::frame::{frame_len, FrameDims};
use crate::poll::PollReport;
use crate::source::{
    progress_of, reader_after, valid_reader, FrameReader, ReadOutcome, ReadProgress, ReadResult,
    ReaderView,
};

verus! {

/// How long one wait for input may last, in milliseconds.
pub const POLL_TIMEOUT_MS: i32 = 1000;

/// How long the synthetic mode rests after each frame, in milliseconds.
pub const SYNTHETIC_PAUSE_MS: u64 = 50;

/// Where the frames come from.
#[derive(Clone, Copy, Debug, PartialEq, Eq, Structural)]
pub enum Mode {
    /// Frames are read from a byte stream.
    Stream,
    /// Frames are generated: a test pattern that needs no input.
    Synthetic,
}

/// Why the loop ended.
#[derive(Clone, Copy, Debug, PartialEq, Eq, Structural)]
pub enum ExitReason {
    /// The user closed the window.
    UserQuit,
    /// The stream ended, on a frame boundary or inside a frame.
    EndOfStream,
    /// Waiting for input failed.
    PollFailed,
    /// Reading the input failed.
    ReadFailed,
    /// The window or the texture reported an error.
    SurfaceFailed,
}

/// What the program is to do next.
#[derive(Clone, Copy, Debug, PartialEq, Eq, Structural)]
pub enum Action {
    /// Take one window event from the queue without blocking, and report it
    /// as [`Event::Ui`], or [`Event::UiQueueEmpty`] if there is none.
    PollUiEvent,
    /// Switch fullscreen on or off.
    SetFullscreen(bool),
    /// Wait until the input is readable, at most `timeout_ms` milliseconds,
    /// and report the result as [`Event::Polled`].
    WaitReadable { timeout_ms: i32 },
    /// Read at most `len` bytes into the frame buffer at `offset`, once, and
    /// report the result as [`Event::ReadDone`].
    Read { offset: usize, len: usize },
    /// Fill the frame buffer with the test pattern number `count`.
    Generate { count: u64 },
    /// Upload the frame buffer, fit the picture into the current viewport,
    /// clear, blit and present.
    Present,
    /// Make the window visible.
    Show,
    /// Rest for `millis` milliseconds.
    Pause { millis: u64 },
    /// Leave the loop.
    Exit(ExitReason),
}

/// What the program reports after it performed an action.
#[derive(Clone, Copy, Debug, PartialEq, Eq, Structural)]
pub enum Event {
    /// A window event was taken from the queue.
    Ui(UiEvent),
    /// No window event is queued.
    UiQueueEmpty,
    /// The wait for input returned.
    Polled(PollReport),
    /// The read returned.
    ReadDone(ReadResult),
    /// The action succeeded.
    Done,
    /// The window, the renderer or the texture reported an error.
    Failed,
}

/// The state of the loop as a mathematical value.
pub struct LoopView {
    /// The action the program has been asked for and has not yet reported on.
    pub pending: Action,
    /// Where the frames come from.
    pub mode: Mode,
    /// Whether the window has been made visible.
    pub shown: bool,
    /// Whether the window is fullscreen.
    pub fullscreen: bool,
    /// The number of frames presented so far (it stops at `u64::MAX`).
    pub presented: nat,
    /// The state of the frame read.
    pub reader: ReaderView,
}

/// The read that continues the current frame.
pub open spec fn read_action(r: ReaderView) -> Action {
    Action::Read { offset: r.filled as usize, len: (r.need - r.filled) as usize }
}

/// The action that starts the frame of an iteration, once the window events
/// are drained.
pub open spec fn frame_action(s: LoopView) -> Action {
    match s.mode {
        Mode::Stream => Action::WaitReadable { timeout_ms: POLL_TIMEOUT_MS },
        Mode::Synthetic => Action::Generate { count: s.presented as u64 },
    }
}

/// The action that follows a presented frame.
pub open spec fn rest_action(mode: Mode) -> Action {
    match mode {
        Mode::Stream => Action::PollUiEvent,
        Mode::Synthetic => Action::Pause { millis: SYNTHETIC_PAUSE_MS },
    }
}

/// The state in which a loop starts: hidden, windowed, nothing presented,
/// at the start of a frame, about to drain the window events.
pub open spec fn start_state(mode: Mode, need: nat) -> LoopView {
    LoopView {
        pending: Action::PollUiEvent,
        mode,
        shown: false,
        fullscreen: false,
        presented: 0,
        reader: ReaderView { need, filled: 0 },
    }
}

/// What holds of every state the loop is ever in.
pub open spec fn valid_loop(s: LoopView) -> bool {
    &&& valid_reader(s.reader)
    &&& s.presented <= u64::MAX
    &&& s.shown ==> s.presented >= 1
    &&& match s.pending {
        Action::WaitReadable { timeout_ms } => s.mode == Mode::Stream && timeout_ms == POLL_TIMEOUT_MS,
        Action::Read { offset, len } => s.mode == Mode::Stream && s.pending == read_action(s.reader),
        Action::Generate { count } => s.mode == Mode::Synthetic && count == s.presented,
        Action::Present => s.mode == Mode::Stream ==> s.reader.filled == 0,
        Action::Show => !s.shown && s.presented >= 1,
        Action::Pause { millis } => s.mode == Mode::Synthetic && millis == SYNTHETIC_PAUSE_MS,
        _ => true,
    }
}

/// The state `s` with another pending action.
pub open spec fn with_pending(s: LoopView, pending: Action) -> LoopView {
    LoopView { pending, ..s }
}

/// The state after the program reported `e` in state `s`.
///
/// An event that does not answer the pending action changes nothing, and
/// after the loop has ended nothing changes any more.
pub open spec fn next_state(s: LoopView, e: Event) -> LoopView {
    match (s.pending, e) {
        (Action::PollUiEvent, Event::Ui(ui)) => match intent_of(ui) {
            Intent::Quit => with_pending(s, Action::Exit(ExitReason::UserQuit)),
            Intent::EnterFullscreen => with_pending(s, Action::SetFullscreen(true)),
            Intent::ExitFullscreen => with_pending(s, Action::SetFullscreen(false)),
            Intent::Ignore => s,
        },
        (Action::PollUiEvent, Event::UiQueueEmpty) => with_pending(s, frame_action(s)),
        (Action::SetFullscreen(on), Event::Done) => LoopView {
            pending: Action::PollUiEvent,
            fullscreen: on,
            ..s
        },
        (Action::WaitReadable { .. }, Event::Polled(report)) => match report {
            PollReport::Events(n) => if n == 0 {
                with_pending(s, Action::PollUiEvent)
            } else {
                with_pending(s, read_action(s.reader))
            },
            PollReport::Interrupted => with_pending(s, Action::PollUiEvent),
            PollReport::Failed => with_pending(s, Action::Exit(ExitReason::PollFailed)),
        },
        (Action::Read { .. }, Event::ReadDone(result)) => {
            let reader = reader_after(s.reader, result);
            match progress_of(s.reader, result) {
                ReadProgress::More => LoopView { pending: read_action(reader), reader, ..s },
                ReadProgress::Finished(ReadOutcome::Complete) => LoopView {
                    pending: Action::Present,
                    reader,
                    ..s
                },
                ReadProgress::Finished(ReadOutcome::EndOfStream) => with_pending(
                    s,
                    Action::Exit(ExitReason::EndOfStream),
                ),
                ReadProgress::Finished(ReadOutcome::Truncated) => with_pending(
                    s,
                    Action::Exit(ExitReason::EndOfStream),
                ),
                ReadProgress::Finished(ReadOutcome::Interrupted) => with_pending(
                    s,
                    Action::PollUiEvent,
                ),
                ReadProgress::Finished(ReadOutcome::Fatal) => with_pending(
                    s,
                    Action::Exit(ExitReason::ReadFailed),
                ),
            }
        },
        (Action::Generate { .. }, Event::Done) => with_pending(s, Action::Present),
        (Action::Present, Event::Done) => {
            let presented = if s.presented < u64::MAX {
                s.presented + 1
            } else {
                s.presented
            };
            LoopView {
                pending: if s.shown {
                    rest_action(s.mode)
                } else {
                    Action::Show
                },
                presented,
                ..s
            }
        },
        (Action::Show, Event::Done) => LoopView { pending: rest_action(s.mode), shown: true, ..s },
        (Action::Pause { .. }, Event::Done) => with_pending(s, Action::PollUiEvent),
        (Action::SetFullscreen(_), Event::Failed) => with_pending(
            s,
            Action::Exit(ExitReason::SurfaceFailed),
        ),
        (Action::Generate { .. }, Event::Failed) => with_pending(
            s,
            Action::Exit(ExitReason::SurfaceFailed),
        ),
        (Action::Present, Event::Failed) => with_pending(s, Action::Exit(ExitReason::SurfaceFailed)),
        (Action::Show, Event::Failed) => with_pending(s, Action::Exit(ExitReason::SurfaceFailed)),
        _ => s,
    }
}

/// The stage of a run, as the user sees it.
#[derive(Clone, Copy, Debug, PartialEq, Eq, Structural)]
pub enum Stage {
    /// The window exists and is not yet visible: no frame has been shown.
    Hidden,
    /// The window is visible and windowed.
    Visible,
    /// The window is visible and fullscreen.
    VisibleFullscreen,
    /// The loop has ended.
    Terminated,
}

/// The stage that a state belongs to.
pub open spec fn stage_of(s: LoopView) -> Stage {
    if s.pending is Exit {
        Stage::Terminated
    } else if !s.shown {
        Stage::Hidden
    } else if s.fullscreen {
        Stage::VisibleFullscreen
    } else {
        Stage::Visible
    }
}

/// The process exit status for the reason the loop ended with: zero when the
/// stream ended or the user quit, one after a failure.
pub open spec fn exit_status(reason: ExitReason) -> int {
    match reason {
        ExitReason::UserQuit => 0,
        ExitReason::EndOfStream => 0,
        _ => 1,
    }
}

/// The process exit status for the reason the loop ended with.
pub fn exit_code(reason: ExitReason) -> (code: i32)
    ensures
        code == exit_status(reason),
{
    match reason {
        ExitReason::UserQuit => 0,
        ExitReason::EndOfStream => 0,
        ExitReason::PollFailed => 1,
        ExitReason::ReadFailed => 1,
        ExitReason::SurfaceFailed => 1,
    }
}

/// The pull-and-present loop: what is pending, what the window looks like,
/// how many frames were presented and how far the current frame is read.
#[derive(Clone, Copy, Debug, PartialEq, Eq, Structural)]
pub struct ViewerLoop {
    pending: Action,
    mode: Mode,
    shown: bool,
    fullscreen: bool,
    presented: u64,
    reader: FrameReader,
}

impl View for ViewerLoop {
    type V = LoopView;

    closed spec fn view(&self) -> LoopView {
        LoopView {
            pending: self.pending,
            mode: self.mode,
            shown: self.shown,
            fullscreen: self.fullscreen,
            presented: self.presented as nat,
            reader: self.reader@,
        }
    }
}

impl ViewerLoop {
    #[verifier::type_invariant]
    spec fn inv(self) -> bool {
        valid_loop(self@)
    }

    /// A loop that shows a stream of frames of the given dimensions.
    pub fn for_stream(dims: &FrameDims) -> (lp: ViewerLoop)
        ensures
            lp@ == start_state(Mode::Stream, frame_len(dims@.width, dims@.height)),
            valid_loop(lp@),
    {
        ViewerLoop {
            pending: Action::PollUiEvent,
            mode: Mode::Stream,
            shown: false,
            fullscreen: false,
            presented: 0,
            reader: FrameReader::new(dims),
        }
    }

    /// A loop that shows the generated test pattern in frames of the given
    /// dimensions.
    pub fn synthetic(dims: &FrameDims) -> (lp: ViewerLoop)
        ensures
            lp@ == start_state(Mode::Synthetic, frame_len(dims@.width, dims@.height)),
            valid_loop(lp@),
    {
        ViewerLoop {
            pending: Action::PollUiEvent,
            mode: Mode::Synthetic,
            shown: false,
            fullscreen: false,
            presented: 0,
            reader: FrameReader::new(dims),
        }
    }

    /// The action the program is to perform now.
    pub fn pending(&self) -> (a: Action)
        ensures
            a == self@.pending,
            valid_loop(self@),
    {
        proof {
            use_type_invariant(self);
        }
        self.pending
    }

    /// Whether the window has been made visible.
    pub fn shown(&self) -> (b: bool)
        ensures
            b == self@.shown,
    {
        self.shown
    }

    /// Whether the window is fullscreen.
    pub fn fullscreen(&self) -> (b: bool)
        ensures
            b == self@.fullscreen,
    {
        self.fullscreen
    }

    /// The number of frames presented so far.
    pub fn presented(&self) -> (n: u64)
        ensures
            n == self@.presented,
    {
        self.presented
    }

    /// The stage of the run.
    pub fn stage(&self) -> (st: Stage)
        ensures
            st == stage_of(self@),
    {
        match self.pending {
            Action::Exit(_) => Stage::Terminated,
            _ => if !self.shown {
                Stage::Hidden
            } else if self.fullscreen {
                Stage::VisibleFullscreen
            } else {
                Stage::Visible
            },
        }
    }

    /// Why the loop ended, if it has.
    pub fn exit_reason(&self) -> (r: Option<ExitReason>)
        ensures
            r == match self@.pending {
                Action::Exit(reason) => Some(reason),
                _ => None,
            },
    {
        match self.pending {
            Action::Exit(reason) => Some(reason),
            _ => None,
        }
    }

    /// Takes the program's report on the pending action and returns the
    /// action to perform next.
    pub fn step(&mut self, event: Event) -> (action: Action)
        ensures
            final(self)@ == next_state(old(self)@, event),
            action == final(self)@.pending,
            valid_loop(final(self)@),
    {
        proof {
            use_type_invariant(&*self);
        }
        let mut pending = self.pending;
        let mut shown = self.shown;
        let mut fullscreen = self.fullscreen;
        let mut presented = self.presented;
        let mut reader = self.reader;
        match self.pending {
            Action::PollUiEvent => match event {
                Event::Ui(ui) => match translate_event(ui) {
                    Intent::Quit => {
                        pending = Action::Exit(ExitReason::UserQuit);
                    },
                    Intent::EnterFullscreen => {
                        pending = Action::SetFullscreen(true);
                    },
                    Intent::ExitFullscreen => {
                        pending = Action::SetFullscreen(false);
                    },
                    Intent::Ignore => {},
                },
                Event::UiQueueEmpty => {
                    pending = match self.mode {
                        Mode::Stream => Action::WaitReadable { timeout_ms: POLL_TIMEOUT_MS },
                        Mode::Synthetic => Action::Generate { count: self.presented },
                    };
                },
                _ => {},
            },
            Action::SetFullscreen(on) => match event {
                Event::Done => {
                    fullscreen = on;
                    pending = Action::PollUiEvent;
                },
                Event::Failed => {
                    pending = Action::Exit(ExitReason::SurfaceFailed);
                },
                _ => {},
            },
            Action::WaitReadable { .. } => match event {
                Event::Polled(report) => match report {
                    PollReport::Events(n) => {
                        if n == 0 {
                            pending = Action::PollUiEvent;
                        } else {
                            pending = next_read(&reader);
                        }
                    },
                    PollReport::Interrupted => {
                        pending = Action::PollUiEvent;
                    },
                    PollReport::Failed => {
                        pending = Action::Exit(ExitReason::PollFailed);
                    },
                },
                _ => {},
            },
            Action::Read { .. } => match event {
                Event::ReadDone(result) => {
                    let progress = reader.feed(result);
                    match progress {
                        ReadProgress::More => {
                            pending = next_read(&reader);
                        },
                        ReadProgress::Finished(outcome) => match outcome {
                            ReadOutcome::Complete => {
                                pending = Action::Present;
                            },
                            ReadOutcome::EndOfStream => {
                                pending = Action::Exit(ExitReason::EndOfStream);
                            },
                            ReadOutcome::Truncated => {
                                pending = Action::Exit(ExitReason::EndOfStream);
                            },
                            ReadOutcome::Interrupted => {
                                pending = Action::PollUiEvent;
                            },
                            ReadOutcome::Fatal => {
                                pending = Action::Exit(ExitReason::ReadFailed);
                            },
                        },
                    }
                },
                _ => {},
            },
            Action::Generate { .. } => match event {
                Event::Done => {
                    pending = Action::Present;
                },
                Event::Failed => {
                    pending = Action::Exit(ExitReason::SurfaceFailed);
                },
                _ => {},
            },
            Action::Present => match event {
                Event::Done => {
                    if presented < u64::MAX {
                        presented = presented + 1;
                    }
                    if shown {
                        pending = rest(self.mode);
                    } else {
                        pending = Action::Show;
                    }
                },
                Event::Failed => {
                    pending = Action::Exit(ExitReason::SurfaceFailed);
                },
                _ => {},
            },
            Action::Show => match event {
                Event::Done => {
                    shown = true;
                    pending = rest(self.mode);
                },
                Event::Failed => {
                    pending = Action::Exit(ExitReason::SurfaceFailed);
                },
                _ => {},
            },
            Action::Pause { .. } => match event {
                Event::Done => {
                    pending = Action::PollUiEvent;
                },
                _ => {},
            },
            Action::Exit(_) => {},
        }
        *self = ViewerLoop { pending, mode: self.mode, shown, fullscreen, presented, reader };
        pending
    }
}


/// The read that continues the current frame.
fn next_read(reader: &FrameReader) -> (a: Action)
    ensures
        a == read_action(reader@),
        valid_reader(reader@),
{
    Action::Read { offset: reader.offset(), len: reader.remaining() }
}

/// The action that follows a presented frame.
fn rest(mode: Mode) -> (a: Action)
    ensures
        a == rest_action(mode),
{
    match mode {
        Mode::Stream => Action::PollUiEvent,
        Mode::Synthetic => Action::Pause { millis: SYNTHETIC_PAUSE_MS },
    }
}

} // verus!
