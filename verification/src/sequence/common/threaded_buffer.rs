use vstd::prelude::*;

verus! {

/// The number of buffers that travel between a stream's producer and its
/// consumer.
pub const BUFFER_COUNT: usize = 3;

/// Where the filling of buffers from one stream stands. It decides whether
/// another item goes into the buffer at hand; the items themselves are
/// pulled and sent elsewhere.
#[derive(Debug, Clone, Copy, PartialEq, Eq)]
pub struct BufferFill {
    /// The most items that a buffer takes.
    pub buffer_size: usize,
    /// The number of items in the buffer at hand.
    pub filled: usize,
    /// Whether the stream has ended or given its failure.
    pub ended: bool,
}

impl BufferFill {
    pub open spec fn wf(&self) -> bool {
        self.filled <= self.buffer_size
    }

    pub fn new(buffer_size: usize) -> (r: Self)
        ensures
            r == (BufferFill { buffer_size, filled: 0, ended: false }),
            r.wf(),
    {
        BufferFill { buffer_size, filled: 0, ended: false }
    }

    /// Takes an empty buffer in hand.
    pub fn start_buffer(&mut self)
        ensures
            *final(self) == (BufferFill { filled: 0, ..*old(self) }),
            final(self).wf(),
    {
        self.filled = 0;
    }

    /// Whether another item is to be pulled into the buffer at hand: the
    /// stream has not ended and the buffer is not full.
    pub fn wants_item(&self) -> (b: bool)
        ensures
            b == (!self.ended && self.filled < self.buffer_size),
    {
        !self.ended && self.filled < self.buffer_size
    }

    /// Counts an item that went into the buffer at hand. A failure goes
    /// into the buffer as an item and ends the stream.
    pub fn took_item(&mut self, failed: bool)
        requires
            old(self).wf(),
            !old(self).ended,
            old(self).filled < old(self).buffer_size,
        ensures
            final(self).wf(),
            *final(self) == (BufferFill {
                filled: (old(self).filled + 1) as usize,
                ended: failed,
                ..*old(self)
            }),
    {
        self.filled = self.filled + 1;
        self.ended = failed;
    }

    /// Notes that the stream had no further item.
    pub fn source_ended(&mut self)
        ensures
            *final(self) == (BufferFill { ended: true, ..*old(self) }),
    {
        self.ended = true;
    }
}

/// Whether a buffer of `len` items says that its stream is over: an empty
/// one does.
pub fn buffer_is_end(len: usize) -> (b: bool)
    ensures
        b == (len == 0),
{
    len == 0
}

} // verus!
