//! Filling one frame from the decoder's byte stream, read by read.
use vstd::prelude::*;

verus! {

/// What a read did to the frame being filled.
#[derive(Clone, Copy, Debug, PartialEq, Eq, Structural)]
pub enum FillStep {
    /// The frame is not full yet: read again.
    NeedMore,
    /// The frame is full and may be rendered.
    Complete,
    /// The stream ended (or failed) before the frame was full.
    EndOfStream,
}

/// The progress of filling a frame of `size` bytes: `filled` bytes are in.
pub struct FrameFill {
    size: usize,
    filled: usize,
}

impl FrameFill {
    pub closed spec fn spec_size(&self) -> nat {
        self.size as nat
    }

    pub closed spec fn spec_filled(&self) -> nat {
        self.filled as nat
    }

    /// A frame has at least one byte, and the bytes in fit in it.
    pub open spec fn wf(&self) -> bool {
        self.spec_size() > 0 && self.spec_filled() < self.spec_size()
    }

    /// Starts filling an empty frame of `size` bytes.
    pub fn new(size: usize) -> (r: FrameFill)
        requires
            size > 0,
        ensures
            r.wf(),
            r.spec_size() == size,
            r.spec_filled() == 0,
    {
        FrameFill { size, filled: 0 }
    }

    /// The frame's size in bytes.
    pub fn size(&self) -> (r: usize)
        ensures
            r == self.spec_size(),
    {
        self.size
    }

    /// The number of bytes already in; the next read goes to the rest.
    pub fn filled(&self) -> (r: usize)
        ensures
            r == self.spec_filled(),
    {
        self.filled
    }

    /// Takes the outcome of one read into the unfilled rest of the frame:
    /// `Some(n)` for `n` bytes read, `None` for a failed read. The frame is
    /// complete only when every byte of it is in; an empty or failed read ends
    /// the stream. A complete frame starts the next one empty.
    pub fn on_read(&mut self, outcome: Option<usize>) -> (r: FillStep)
        requires
            old(self).wf(),
            outcome matches Some(n) ==> n <= old(self).spec_size() - old(self).spec_filled(),
        ensures
            final(self).wf(),
            final(self).spec_size() == old(self).spec_size(),
            r == (match outcome {
                None => FillStep::EndOfStream,
                Some(n) => if n == 0 {
                    FillStep::EndOfStream
                } else if old(self).spec_filled() + n == old(self).spec_size() {
                    FillStep::Complete
                } else {
                    FillStep::NeedMore
                },
            }),
            r == FillStep::Complete ==> final(self).spec_filled() == 0,
            r == FillStep::NeedMore ==> final(self).spec_filled() == old(self).spec_filled() + outcome->0,
            r == FillStep::EndOfStream ==> final(self).spec_filled() == old(self).spec_filled(),
    {
        match outcome {
            None => FillStep::EndOfStream,
            Some(n) => {
                if n == 0 {
                    FillStep::EndOfStream
                } else if n == self.size - self.filled {
                    self.filled = 0;
                    FillStep::Complete
                } else {
                    self.filled = self.filled + n;
                    FillStep::NeedMore
                }
            },
        }
    }
}

} // verus!
