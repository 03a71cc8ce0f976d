use i420_viewer::events::{Key, UiEvent};
use i420_viewer::frame::{new_frame_buffer, FrameDims};
use i420_viewer::source::ReadResult;
use i420_viewer::poll::PollReport;
use i420_viewer::viewer::{
    exit_code, Action, Event, ExitReason, Stage, ViewerLoop, POLL_TIMEOUT_MS, SYNTHETIC_PAUSE_MS,
};

/// What a simulated run did.
struct Report {
    presented: Vec<Vec<u8>>,
    shows: usize,
    polls: usize,
    reason: ExitReason,
    counter: u64,
}

/// Drives a loop over an in-memory stream: the input is always readable, no
/// window event arrives, and every read returns at most `chunk` bytes.
fn play(width: u32, height: u32, input: &[u8], chunk: usize) -> Report {
    let dims = FrameDims::new(width, height).unwrap();
    let mut buffer = new_frame_buffer(&dims);
    let mut lp = ViewerLoop::for_stream(&dims);
    let mut pos = 0;
    let mut report =
        Report { presented: Vec::new(), shows: 0, polls: 0, reason: ExitReason::UserQuit, counter: 0 };
    let mut action = lp.pending();
    for _ in 0..100_000 {
        let event = match action {
            Action::PollUiEvent => Event::UiQueueEmpty,
            Action::WaitReadable { timeout_ms } => {
                assert_eq!(timeout_ms, 1000);
                report.polls += 1;
                Event::Polled(PollReport::Events(1))
            }
            Action::Read { offset, len } => {
                assert!(len >= 1);
                assert!(offset + len == buffer.len());
                let n = len.min(chunk).min(input.len() - pos);
                buffer[offset..offset + n].copy_from_slice(&input[pos..pos + n]);
                pos += n;
                Event::ReadDone(ReadResult::Bytes(n))
            }
            Action::Present => {
                report.presented.push(buffer.clone());
                Event::Done
            }
            Action::Show => {
                assert!(!report.presented.is_empty());
                report.shows += 1;
                Event::Done
            }
            Action::Exit(reason) => {
                report.reason = reason;
                report.counter = lp.presented();
                return report;
            }
            other => panic!("unexpected action {:?}", other),
        };
        action = lp.step(event);
    }
    panic!("the loop did not end");
}

#[test]
fn eos_on_frame_boundary() {
    let input: Vec<u8> = (1..=12).collect();
    let r = play(2, 2, &input, usize::MAX);
    assert_eq!(r.presented.len(), 2);
    assert_eq!(r.presented[0], vec![1, 2, 3, 4, 5, 6]);
    assert_eq!(r.presented[1], vec![7, 8, 9, 10, 11, 12]);
    assert_eq!(r.counter, 2);
    assert_eq!(r.reason, ExitReason::EndOfStream);
    assert_eq!(exit_code(r.reason), 0);
    assert_eq!(r.shows, 1);
}

#[test]
fn eos_mid_frame() {
    let input: Vec<u8> = (1..=9).collect();
    let r = play(2, 2, &input, usize::MAX);
    assert_eq!(r.presented.len(), 1);
    assert_eq!(r.presented[0], vec![1, 2, 3, 4, 5, 6]);
    assert_eq!(r.counter, 1);
    assert_eq!(r.reason, ExitReason::EndOfStream);
    assert_eq!(exit_code(r.reason), 0);
}

#[test]
fn empty_stream_presents_nothing_and_never_shows_the_window() {
    let r = play(2, 2, &[], usize::MAX);
    assert_eq!(r.presented.len(), 0);
    assert_eq!(r.shows, 0);
    assert_eq!(r.polls, 1);
    assert_eq!(r.reason, ExitReason::EndOfStream);
}

#[test]
fn stream_shorter_than_a_frame_presents_nothing() {
    let r = play(2, 2, &[1, 2, 3, 4, 5], 2);
    assert_eq!(r.presented.len(), 0);
    assert_eq!(r.shows, 0);
    assert_eq!(r.reason, ExitReason::EndOfStream);
    assert_eq!(exit_code(r.reason), 0);
}

#[test]
fn stream_of_k_frames_presents_k_frames() {
    for k in 0..6usize {
        for chunk in [1usize, 2, 5, 6, 7, 24, 100] {
            let frame_len = 24;
            let input: Vec<u8> = (0..k * frame_len).map(|i| (i % 251) as u8).collect();
            let r = play(4, 4, &input, chunk);
            assert_eq!(r.presented.len(), k);
            assert_eq!(r.counter, k as u64);
            for (i, frame) in r.presented.iter().enumerate() {
                assert_eq!(&frame[..], &input[i * frame_len..(i + 1) * frame_len]);
            }
            assert_eq!(r.reason, ExitReason::EndOfStream);
            assert_eq!(exit_code(r.reason), 0);
            assert_eq!(r.shows, if k > 0 { 1 } else { 0 });
            // one wait per frame and one more that finds the end
            assert_eq!(r.polls, k + 1);
        }
    }
}

#[test]
fn truncated_tail_is_dropped_whatever_the_chunking() {
    for extra in 1..24usize {
        for chunk in [1usize, 5, 24, 100] {
            let input: Vec<u8> = (0..3 * 24 + extra).map(|i| i as u8).collect();
            let r = play(4, 4, &input, chunk);
            assert_eq!(r.presented.len(), 3);
            assert_eq!(r.reason, ExitReason::EndOfStream);
        }
    }
}

fn stream_loop() -> ViewerLoop {
    ViewerLoop::for_stream(&FrameDims::new(2, 2).unwrap())
}

/// A loop that has been taken to the wait for input.
fn waiting_loop() -> ViewerLoop {
    let mut lp = stream_loop();
    assert_eq!(lp.step(Event::UiQueueEmpty), Action::WaitReadable { timeout_ms: 1000 });
    lp
}

/// A loop that has been taken to the first read.
fn reading_loop() -> ViewerLoop {
    let mut lp = waiting_loop();
    assert_eq!(lp.step(Event::Polled(PollReport::Events(1))), Action::Read { offset: 0, len: 6 });
    lp
}

/// A loop that has presented one frame and shown the window.
fn visible_loop() -> ViewerLoop {
    let mut lp = reading_loop();
    assert_eq!(lp.step(Event::ReadDone(ReadResult::Bytes(6))), Action::Present);
    assert_eq!(lp.step(Event::Done), Action::Show);
    assert_eq!(lp.step(Event::Done), Action::PollUiEvent);
    lp
}

#[test]
fn loop_starts_hidden_and_drains_events_first() {
    let lp = stream_loop();
    assert_eq!(lp.pending(), Action::PollUiEvent);
    assert!(!lp.shown());
    assert!(!lp.fullscreen());
    assert_eq!(lp.presented(), 0);
    assert_eq!(lp.exit_reason(), None);
    assert_eq!(lp.stage(), Stage::Hidden);
    assert_eq!(POLL_TIMEOUT_MS, 1000);
}

#[test]
fn interrupted_poll_is_transparent() {
    let mut lp = visible_loop();
    assert_eq!(lp.step(Event::UiQueueEmpty), Action::WaitReadable { timeout_ms: 1000 });
    let before = lp.presented();
    assert_eq!(lp.step(Event::Polled(PollReport::Interrupted)), Action::PollUiEvent);
    assert_eq!(lp.presented(), before);
    assert_eq!(lp.exit_reason(), None);
    assert_eq!(lp.stage(), Stage::Visible);
    // the next iteration goes on as if nothing had happened
    assert_eq!(lp.step(Event::UiQueueEmpty), Action::WaitReadable { timeout_ms: 1000 });
    assert_eq!(lp.step(Event::Polled(PollReport::Events(1))), Action::Read { offset: 0, len: 6 });
}

#[test]
fn poll_timeout_starts_the_next_iteration() {
    let mut lp = waiting_loop();
    assert_eq!(lp.step(Event::Polled(PollReport::Events(0))), Action::PollUiEvent);
    assert_eq!(lp.presented(), 0);
    assert_eq!(lp.exit_reason(), None);
}

#[test]
fn poll_with_any_nonzero_count_is_ready() {
    for n in [1, 2, -1, i32::MAX, i32::MIN] {
        let mut lp = waiting_loop();
        assert_eq!(lp.step(Event::Polled(PollReport::Events(n))), Action::Read { offset: 0, len: 6 });
    }
}

#[test]
fn poll_failure_is_fatal() {
    let mut lp = waiting_loop();
    assert_eq!(lp.step(Event::Polled(PollReport::Failed)), Action::Exit(ExitReason::PollFailed));
    assert_eq!(lp.exit_reason(), Some(ExitReason::PollFailed));
    assert_eq!(exit_code(ExitReason::PollFailed), 1);
    assert_eq!(lp.stage(), Stage::Terminated);
}

#[test]
fn read_failure_is_fatal() {
    let mut lp = reading_loop();
    assert_eq!(lp.step(Event::ReadDone(ReadResult::Failed)), Action::Exit(ExitReason::ReadFailed));
    assert_eq!(exit_code(ExitReason::ReadFailed), 1);
}

#[test]
fn read_of_more_than_was_asked_for_is_fatal() {
    let mut lp = reading_loop();
    assert_eq!(lp.step(Event::ReadDone(ReadResult::Bytes(7))), Action::Exit(ExitReason::ReadFailed));
}

#[test]
fn short_read_is_continued_without_another_wait() {
    let mut lp = reading_loop();
    assert_eq!(lp.step(Event::ReadDone(ReadResult::Bytes(4))), Action::Read { offset: 4, len: 2 });
    assert_eq!(lp.step(Event::ReadDone(ReadResult::Bytes(1))), Action::Read { offset: 5, len: 1 });
    assert_eq!(lp.step(Event::ReadDone(ReadResult::Bytes(1))), Action::Present);
    assert_eq!(lp.presented(), 0);
    assert_eq!(lp.step(Event::Done), Action::Show);
    assert_eq!(lp.presented(), 1);
}

#[test]
fn interrupted_read_resumes_behind_the_bytes_already_read() {
    let mut lp = reading_loop();
    assert_eq!(lp.step(Event::ReadDone(ReadResult::Bytes(4))), Action::Read { offset: 4, len: 2 });
    assert_eq!(lp.step(Event::ReadDone(ReadResult::Interrupted)), Action::PollUiEvent);
    assert_eq!(lp.exit_reason(), None);
    assert_eq!(lp.step(Event::UiQueueEmpty), Action::WaitReadable { timeout_ms: 1000 });
    assert_eq!(lp.step(Event::Polled(PollReport::Events(1))), Action::Read { offset: 4, len: 2 });
    assert_eq!(lp.step(Event::ReadDone(ReadResult::Bytes(2))), Action::Present);
}

#[test]
fn window_is_revealed_after_the_first_present_only() {
    let mut lp = reading_loop();
    assert_eq!(lp.stage(), Stage::Hidden);
    assert_eq!(lp.step(Event::ReadDone(ReadResult::Bytes(6))), Action::Present);
    assert!(!lp.shown());
    assert_eq!(lp.step(Event::Done), Action::Show);
    assert!(!lp.shown());
    assert_eq!(lp.step(Event::Done), Action::PollUiEvent);
    assert!(lp.shown());
    assert_eq!(lp.stage(), Stage::Visible);
    // second frame: no second reveal
    assert_eq!(lp.step(Event::UiQueueEmpty), Action::WaitReadable { timeout_ms: 1000 });
    assert_eq!(lp.step(Event::Polled(PollReport::Events(1))), Action::Read { offset: 0, len: 6 });
    assert_eq!(lp.step(Event::ReadDone(ReadResult::Bytes(6))), Action::Present);
    assert_eq!(lp.step(Event::Done), Action::PollUiEvent);
    assert_eq!(lp.presented(), 2);
    assert!(lp.shown());
}

#[test]
fn close_request_quits_with_status_zero() {
    let mut lp = visible_loop();
    assert_eq!(lp.step(Event::Ui(UiEvent::CloseRequested)), Action::Exit(ExitReason::UserQuit));
    assert_eq!(lp.exit_reason(), Some(ExitReason::UserQuit));
    assert_eq!(exit_code(ExitReason::UserQuit), 0);
    assert_eq!(lp.stage(), Stage::Terminated);
}

#[test]
fn close_request_is_seen_before_the_next_wait() {
    let mut lp = waiting_loop();
    // the wait times out; the close request queued meanwhile comes first
    assert_eq!(lp.step(Event::Polled(PollReport::Events(0))), Action::PollUiEvent);
    assert_eq!(lp.step(Event::Ui(UiEvent::CloseRequested)), Action::Exit(ExitReason::UserQuit));
}

#[test]
fn f_and_escape_toggle_fullscreen() {
    let mut lp = visible_loop();
    assert_eq!(lp.step(Event::Ui(UiEvent::KeyDown(Key::F))), Action::SetFullscreen(true));
    assert!(!lp.fullscreen());
    assert_eq!(lp.step(Event::Done), Action::PollUiEvent);
    assert!(lp.fullscreen());
    assert_eq!(lp.stage(), Stage::VisibleFullscreen);
    assert_eq!(lp.step(Event::Ui(UiEvent::KeyDown(Key::Escape))), Action::SetFullscreen(false));
    assert_eq!(lp.step(Event::Done), Action::PollUiEvent);
    assert!(!lp.fullscreen());
    assert_eq!(lp.stage(), Stage::Visible);
    assert_eq!(lp.exit_reason(), None);
}

#[test]
fn escape_does_not_quit() {
    let mut lp = stream_loop();
    assert_eq!(lp.step(Event::Ui(UiEvent::KeyDown(Key::Escape))), Action::SetFullscreen(false));
    assert_eq!(lp.step(Event::Done), Action::PollUiEvent);
    assert_eq!(lp.exit_reason(), None);
}

#[test]
fn other_events_are_ignored_and_the_drain_goes_on() {
    let mut lp = stream_loop();
    assert_eq!(lp.step(Event::Ui(UiEvent::Other)), Action::PollUiEvent);
    assert_eq!(lp.step(Event::Ui(UiEvent::KeyDown(Key::Other))), Action::PollUiEvent);
    assert_eq!(lp, stream_loop());
    assert_eq!(lp.step(Event::UiQueueEmpty), Action::WaitReadable { timeout_ms: 1000 });
}

#[test]
fn surface_failures_are_fatal() {
    let mut lp = stream_loop();
    assert_eq!(lp.step(Event::Ui(UiEvent::KeyDown(Key::F))), Action::SetFullscreen(true));
    assert_eq!(lp.step(Event::Failed), Action::Exit(ExitReason::SurfaceFailed));
    assert!(!lp.fullscreen());

    let mut lp = reading_loop();
    assert_eq!(lp.step(Event::ReadDone(ReadResult::Bytes(6))), Action::Present);
    assert_eq!(lp.step(Event::Failed), Action::Exit(ExitReason::SurfaceFailed));
    assert_eq!(lp.presented(), 0);

    let mut lp = reading_loop();
    assert_eq!(lp.step(Event::ReadDone(ReadResult::Bytes(6))), Action::Present);
    assert_eq!(lp.step(Event::Done), Action::Show);
    assert_eq!(lp.step(Event::Failed), Action::Exit(ExitReason::SurfaceFailed));
    assert!(!lp.shown());
    assert_eq!(exit_code(ExitReason::SurfaceFailed), 1);
}

#[test]
fn reports_that_do_not_answer_the_pending_action_change_nothing() {
    let all = [
        Event::Ui(UiEvent::CloseRequested),
        Event::UiQueueEmpty,
        Event::Polled(PollReport::Events(1)),
        Event::Polled(PollReport::Failed),
        Event::ReadDone(ReadResult::Bytes(6)),
        Event::ReadDone(ReadResult::Failed),
        Event::Done,
        Event::Failed,
    ];
    let answers = |pending: Action, e: Event| match (pending, e) {
        (Action::PollUiEvent, Event::Ui(_)) | (Action::PollUiEvent, Event::UiQueueEmpty) => true,
        (Action::WaitReadable { .. }, Event::Polled(_)) => true,
        (Action::Read { .. }, Event::ReadDone(_)) => true,
        (Action::Present, Event::Done) | (Action::Present, Event::Failed) => true,
        (Action::Show, Event::Done) | (Action::Show, Event::Failed) => true,
        _ => false,
    };
    let mut states = vec![stream_loop(), waiting_loop(), reading_loop(), visible_loop()];
    let mut presenting = reading_loop();
    presenting.step(Event::ReadDone(ReadResult::Bytes(6)));
    states.push(presenting);
    let mut showing = presenting;
    showing.step(Event::Done);
    states.push(showing);
    for s in states {
        for e in all {
            if !answers(s.pending(), e) {
                let mut t = s;
                assert_eq!(t.step(e), s.pending());
                assert_eq!(t, s);
            }
        }
    }
}

#[test]
fn nothing_changes_after_the_loop_has_ended() {
    let mut lp = waiting_loop();
    lp.step(Event::Polled(PollReport::Failed));
    let ended = lp;
    for e in [
        Event::Ui(UiEvent::CloseRequested),
        Event::UiQueueEmpty,
        Event::Polled(PollReport::Events(1)),
        Event::ReadDone(ReadResult::Bytes(6)),
        Event::Done,
        Event::Failed,
    ] {
        assert_eq!(lp.step(e), Action::Exit(ExitReason::PollFailed));
        assert_eq!(lp, ended);
    }
}

#[test]
fn exit_codes() {
    assert_eq!(exit_code(ExitReason::UserQuit), 0);
    assert_eq!(exit_code(ExitReason::EndOfStream), 0);
    assert_eq!(exit_code(ExitReason::PollFailed), 1);
    assert_eq!(exit_code(ExitReason::ReadFailed), 1);
    assert_eq!(exit_code(ExitReason::SurfaceFailed), 1);
}

#[test]
fn synthetic_loop_generates_presents_and_rests() {
    let dims = FrameDims::new(2, 2).unwrap();
    let mut lp = ViewerLoop::synthetic(&dims);
    assert_eq!(lp.pending(), Action::PollUiEvent);
    assert_eq!(lp.step(Event::UiQueueEmpty), Action::Generate { count: 0 });
    assert_eq!(lp.step(Event::Done), Action::Present);
    assert_eq!(lp.step(Event::Done), Action::Show);
    assert_eq!(lp.step(Event::Done), Action::Pause { millis: 50 });
    assert_eq!(SYNTHETIC_PAUSE_MS, 50);
    assert_eq!(lp.step(Event::Done), Action::PollUiEvent);
    assert_eq!(lp.presented(), 1);
    assert_eq!(lp.step(Event::UiQueueEmpty), Action::Generate { count: 1 });
    assert_eq!(lp.step(Event::Done), Action::Present);
    assert_eq!(lp.step(Event::Done), Action::Pause { millis: 50 });
    assert_eq!(lp.step(Event::Done), Action::PollUiEvent);
    assert_eq!(lp.step(Event::UiQueueEmpty), Action::Generate { count: 2 });
    assert_eq!(lp.step(Event::Failed), Action::Exit(ExitReason::SurfaceFailed));
}

#[test]
fn synthetic_loop_obeys_window_events() {
    let dims = FrameDims::new(2, 2).unwrap();
    let mut lp = ViewerLoop::synthetic(&dims);
    assert_eq!(lp.step(Event::Ui(UiEvent::KeyDown(Key::F))), Action::SetFullscreen(true));
    assert_eq!(lp.step(Event::Done), Action::PollUiEvent);
    assert_eq!(lp.step(Event::Ui(UiEvent::CloseRequested)), Action::Exit(ExitReason::UserQuit));
}
