//! Bookkeeping for reading whole frames from a forward-only byte stream.
//!
//! The stream itself is read elsewhere. After every read the caller reports
//! what the read returned, and the [`FrameReader`] says whether the frame is
//! complete, whether to read on and where, or how the stream ended.

use vstd::prelude::*;
use crate::frame::{frame_len, FrameDims};

verus! {

/// What one read on the stream returned.
#[derive(Clone, Copy, Debug, PartialEq, Eq, Structural)]
pub enum ReadResult {
    /// The read stored this many bytes; zero means that the stream has ended.
    Bytes(usize),
    /// The read was interrupted by a signal before it stored anything.
    Interrupted,
    /// The read failed with any other error.
    Failed,
}

/// How an attempt to read one whole frame ended.
#[derive(Clone, Copy, Debug, PartialEq, Eq, Structural)]
pub enum ReadOutcome {
    /// All bytes of the frame have been read.
    Complete,
    /// The stream ended before any byte of the frame was read.
    EndOfStream,
    /// The stream ended inside the frame; the partial frame is not to be shown.
    Truncated,
    /// A signal interrupted the read. The bytes read so far are kept, and the
    /// next read continues behind them.
    Interrupted,
    /// The read failed, or reported more bytes than it was asked for.
    Fatal,
}

/// Where a frame read stands after a read was reported.
#[derive(Clone, Copy, Debug, PartialEq, Eq, Structural)]
pub enum ReadProgress {
    /// The frame is not complete yet: read on.
    More,
    /// The attempt is over.
    Finished(ReadOutcome),
}

/// The state of a frame read as a mathematical value.
pub struct ReaderView {
    /// The number of bytes in a frame.
    pub need: nat,
    /// The number of bytes of the current frame that have been read.
    pub filled: nat,
}

/// A reader is valid when the current frame is not yet complete (so a frame
/// has at least one byte) and the length of a frame fits in a `usize`.
pub open spec fn valid_reader(r: ReaderView) -> bool {
    r.filled < r.need <= usize::MAX
}

/// The progress that a reported read makes.
pub open spec fn progress_of(r: ReaderView, result: ReadResult) -> ReadProgress {
    match result {
        ReadResult::Bytes(n) => {
            if n == 0 {
                if r.filled == 0 {
                    ReadProgress::Finished(ReadOutcome::EndOfStream)
                } else {
                    ReadProgress::Finished(ReadOutcome::Truncated)
                }
            } else if r.filled + n < r.need {
                ReadProgress::More
            } else if r.filled + n == r.need {
                ReadProgress::Finished(ReadOutcome::Complete)
            } else {
                ReadProgress::Finished(ReadOutcome::Fatal)
            }
        },
        ReadResult::Interrupted => ReadProgress::Finished(ReadOutcome::Interrupted),
        ReadResult::Failed => ReadProgress::Finished(ReadOutcome::Fatal),
    }
}

/// The reader after a reported read. Bytes that fit are counted; a completed
/// frame starts the count again at zero; everything else leaves the count as
/// it is.
pub open spec fn reader_after(r: ReaderView, result: ReadResult) -> ReaderView {
    match result {
        ReadResult::Bytes(n) => {
            if r.filled + n < r.need {
                ReaderView { need: r.need, filled: (r.filled + n) as nat }
            } else if r.filled + n == r.need {
                ReaderView { need: r.need, filled: 0 }
            } else {
                r
            }
        },
        _ => r,
    }
}

/// A frame is reported complete exactly when the bytes read for it add up to
/// its length, so a frame that is handed on has been read in full.
pub proof fn lemma_complete_means_full(r: ReaderView, result: ReadResult)
    requires
        valid_reader(r),
    ensures
        progress_of(r, result) == ReadProgress::Finished(ReadOutcome::Complete) <==> (result
            matches ReadResult::Bytes(n) && r.filled + n == r.need),
        progress_of(r, result) == ReadProgress::Finished(ReadOutcome::Complete) ==> reader_after(
            r,
            result,
        ).filled == 0,
{
}

/// The end of the stream is reported exactly when a read returns no byte:
/// as the plain end of the stream on a frame boundary, and as a truncated
/// frame inside a frame.
pub proof fn lemma_end_of_stream(r: ReaderView, result: ReadResult)
    requires
        valid_reader(r),
    ensures
        progress_of(r, result) == ReadProgress::Finished(ReadOutcome::EndOfStream) <==> (result
            == ReadResult::Bytes(0) && r.filled == 0),
        progress_of(r, result) == ReadProgress::Finished(ReadOutcome::Truncated) <==> (result
            == ReadResult::Bytes(0) && r.filled > 0),
{
}

/// A reported read never loses or invents a byte: either the bytes are
/// counted, or they complete the frame, or the count stays as it was.
pub proof fn lemma_reader_stays_valid(r: ReaderView, result: ReadResult)
    requires
        valid_reader(r),
    ensures
        valid_reader(reader_after(r, result)),
        reader_after(r, result).need == r.need,
        progress_of(r, result) == ReadProgress::More ==> (result matches ReadResult::Bytes(n)
            && reader_after(r, result).filled == r.filled + n),
        !(progress_of(r, result) == ReadProgress::More) && !(progress_of(r, result)
            == ReadProgress::Finished(ReadOutcome::Complete)) ==> reader_after(r, result) == r,
{
}

/// Counts the bytes of the frame that is being read.
#[derive(Clone, Copy, Debug, PartialEq, Eq, Structural)]
pub struct FrameReader {
    need: usize,
    filled: usize,
}

impl View for FrameReader {
    type V = ReaderView;

    closed spec fn view(&self) -> ReaderView {
        ReaderView { need: self.need as nat, filled: self.filled as nat }
    }
}

impl FrameReader {
    #[verifier::type_invariant]
    spec fn inv(self) -> bool {
        valid_reader(self@)
    }

    /// A reader for frames of the given dimensions, at the start of a frame.
    pub fn new(dims: &FrameDims) -> (r: FrameReader)
        ensures
            r@ == (ReaderView { need: frame_len(dims@.width, dims@.height), filled: 0 }),
            valid_reader(r@),
    {
        FrameReader { need: dims.frame_len(), filled: 0 }
    }

    /// The number of bytes in a frame.
    pub fn frame_len(&self) -> (n: usize)
        ensures
            n == self@.need,
            valid_reader(self@),
    {
        proof {
            use_type_invariant(self);
        }
        self.need
    }

    /// The offset in the frame buffer at which the next read stores its bytes.
    pub fn offset(&self) -> (n: usize)
        ensures
            n == self@.filled,
            valid_reader(self@),
    {
        proof {
            use_type_invariant(self);
        }
        self.filled
    }

    /// The number of bytes that the next read should ask for, at least one.
    pub fn remaining(&self) -> (n: usize)
        ensures
            n == self@.need - self@.filled,
            n >= 1,
            valid_reader(self@),
    {
        proof {
            use_type_invariant(self);
        }
        self.need - self.filled
    }

    /// Takes note of what a read for the rest of the frame returned.
    pub fn feed(&mut self, result: ReadResult) -> (progress: ReadProgress)
        ensures
            progress == progress_of(old(self)@, result),
            final(self)@ == reader_after(old(self)@, result),
            valid_reader(final(self)@),
    {
        proof {
            use_type_invariant(&*self);
        }
        match result {
            ReadResult::Bytes(n) => {
                let remaining = self.need - self.filled;
                if n == 0 {
                    if self.filled == 0 {
                        ReadProgress::Finished(ReadOutcome::EndOfStream)
                    } else {
                        ReadProgress::Finished(ReadOutcome::Truncated)
                    }
                } else if n < remaining {
                    self.filled = self.filled + n;
                    ReadProgress::More
                } else if n == remaining {
                    self.filled = 0;
                    ReadProgress::Finished(ReadOutcome::Complete)
                } else {
                    ReadProgress::Finished(ReadOutcome::Fatal)
                }
            },
            ReadResult::Interrupted => ReadProgress::Finished(ReadOutcome::Interrupted),
            ReadResult::Failed => ReadProgress::Finished(ReadOutcome::Fatal),
        }
    }
}

} // verus!
