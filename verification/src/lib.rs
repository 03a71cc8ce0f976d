//! Decision core of a streaming viewer for raw planar YUV 4:2:0 (I420) video.
//!
//! The viewer reads fixed-size frames from a byte stream, uploads each frame
//! to a texture and presents it in a resizable window, keeping the frame's
//! aspect ratio. This crate holds everything that is decided or computed on
//! the way, and nothing that touches a window, a file or a clock:
//!
//! - [`frame`]: frame dimensions and the byte layout of a frame;
//! - [`rect`]: rectangles and the aspect-preserving fit into a viewport;
//! - [`upload`]: the copy of a packed frame into a texture with padded rows;
//! - [`events`]: what a window event asks the loop to do;
//! - [`poll`]: what a wait for input returned;
//! - [`source`]: the bookkeeping of reading one whole frame;
//! - [`viewer`]: the pull-and-present loop as a state machine;
//! - [`loop_laws`]: what holds of every run of that state machine;
//! - [`synthetic`]: a generated test pattern.
//!
//! The program around this crate creates the window, and then performs the
//! actions that [`viewer::ViewerLoop`] asks for, one at a time, reporting
//! after each what happened.

pub mod events;
pub mod frame;
pub mod loop_laws;
pub mod poll;
pub mod rect;
pub mod source;
pub mod synthetic;
pub mod upload;
pub mod viewer;
