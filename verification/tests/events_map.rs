use i420_viewer::events::{translate_event, Intent, Key, UiEvent};

#[test]
fn close_request_quits() {
    assert_eq!(translate_event(UiEvent::CloseRequested), Intent::Quit);
}

#[test]
fn f_enters_fullscreen() {
    assert_eq!(translate_event(UiEvent::KeyDown(Key::F)), Intent::EnterFullscreen);
}

#[test]
fn escape_exits_fullscreen_and_does_not_quit() {
    assert_eq!(translate_event(UiEvent::KeyDown(Key::Escape)), Intent::ExitFullscreen);
    assert_ne!(translate_event(UiEvent::KeyDown(Key::Escape)), Intent::Quit);
}

#[test]
fn everything_else_is_ignored() {
    assert_eq!(translate_event(UiEvent::KeyDown(Key::Other)), Intent::Ignore);
    assert_eq!(translate_event(UiEvent::Other), Intent::Ignore);
}
