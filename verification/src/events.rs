//! Translation of window events into what the viewer loop should do.

use vstd::prelude::*;

verus! {

/// The keys the viewer distinguishes.
#[derive(Clone, Copy, Debug, PartialEq, Eq, Structural)]
pub enum Key {
    /// The `F` key.
    F,
    /// The escape key.
    Escape,
    /// Any other key, or a key press that carries no key code.
    Other,
}

/// A window event, reduced to what the viewer distinguishes.
#[derive(Clone, Copy, Debug, PartialEq, Eq, Structural)]
pub enum UiEvent {
    /// The user asked to close the window.
    CloseRequested,
    /// A key went down.
    KeyDown(Key),
    /// Anything else.
    Other,
}

/// What the loop does in answer to a window event.
#[derive(Clone, Copy, Debug, PartialEq, Eq, Structural)]
pub enum Intent {
    /// Leave the loop.
    Quit,
    /// Switch the window to fullscreen.
    EnterFullscreen,
    /// Switch the window back from fullscreen.
    ExitFullscreen,
    /// Nothing.
    Ignore,
}

/// The intent of a window event. Closing the window quits, `F` enters
/// fullscreen, escape leaves fullscreen (it does not quit), and everything
/// else is ignored.
pub open spec fn intent_of(event: UiEvent) -> Intent {
    match event {
        UiEvent::CloseRequested => Intent::Quit,
        UiEvent::KeyDown(Key::F) => Intent::EnterFullscreen,
        UiEvent::KeyDown(Key::Escape) => Intent::ExitFullscreen,
        UiEvent::KeyDown(Key::Other) => Intent::Ignore,
        UiEvent::Other => Intent::Ignore,
    }
}

/// Maps a window event to its intent.
pub fn translate_event(event: UiEvent) -> (intent: Intent)
    ensures
        intent == intent_of(event),
{
    match event {
        UiEvent::CloseRequested => Intent::Quit,
        UiEvent::KeyDown(key) => match key {
            Key::F => Intent::EnterFullscreen,
            Key::Escape => Intent::ExitFullscreen,
            Key::Other => Intent::Ignore,
        },
        UiEvent::Other => Intent::Ignore,
    }
}

/// Only a close request quits; in particular the escape key does not.
pub proof fn lemma_only_close_quits(event: UiEvent)
    ensures
        intent_of(event) == Intent::Quit <==> event == UiEvent::CloseRequested,
{
}

} // verus!
