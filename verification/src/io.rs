//! The three suspension points of a socket: read until a short read, write
//! all, and flush. Each is a decision on what one non-blocking call
//! reported; the caller makes the call and follows the step that comes back.

use vstd::prelude::*;

verus! {

/// The size of the chunk that one read fills at most.
pub const CHUNK: usize = 512;

/// What one non-blocking write or flush reported.
#[derive(Clone, Copy, Debug, PartialEq, Eq, Structural)]
pub enum Io {
    /// The call succeeded; a write took this many bytes.
    Done(usize),
    /// The call could not complete without blocking.
    WouldBlock,
    /// Any other error of the transport.
    Failed,
}

/// What one non-blocking read reported.
pub enum Incoming<'a> {
    /// The bytes that the read put into its chunk; none when the peer closed.
    Data(&'a [u8]),
    /// Nothing can be read without blocking.
    WouldBlock,
    /// Any other error of the transport.
    Failed,
}

/// How an operation goes on after one call.
#[derive(Clone, Copy, Debug, PartialEq, Eq, Structural)]
pub enum Step {
    /// Make the call again at once.
    Again,
    /// The operation is complete.
    Ready,
    /// Register the task's waker on the reactor binding and suspend.
    Pending,
    /// The transport failed: the connection cannot go on.
    Failed,
}

/// Appends `bytes` to `buffer`.
pub fn append(buffer: &mut Vec<u8>, bytes: &[u8])
    ensures
        final(buffer)@ == old(buffer)@ + bytes@,
{
    let mut i: usize = 0;
    while i < bytes.len()
        invariant
            i <= bytes.len(),
            buffer@ == old(buffer)@ + bytes@.subrange(0, i as int),
        decreases bytes.len() - i,
    {
        buffer.push(bytes[i]);
        assert(bytes@.subrange(0, i + 1) == bytes@.subrange(0, i as int).push(bytes@[i as int]));
        i += 1;
    }
    assert(bytes@.subrange(0, bytes.len() as int) == bytes@);
}

/// Accumulates what a connection sends until a read comes back short.
pub struct StreamRead {
    buffer: Vec<u8>,
}

impl View for StreamRead {
    type V = Seq<u8>;

    /// The bytes read so far.
    closed spec fn view(&self) -> Seq<u8> {
        self.buffer@
    }
}

impl StreamRead {
    /// Starts with nothing read.
    pub fn new() -> (read: Self)
        ensures
            read@ == Seq::<u8>::empty(),
    {
        StreamRead { buffer: Vec::new() }
    }

    /// Takes in what one read reported.
    ///
    /// Data is appended as it came. A read that filled the whole chunk asks
    /// for another; a shorter one, the empty read of a closed peer included,
    /// ends the operation.
    pub fn poll(&mut self, incoming: Incoming<'_>) -> (step: Step)
        ensures
            match incoming {
                Incoming::Data(bytes) => {
                    &&& final(self)@ == old(self)@ + bytes@
                    &&& step == if bytes@.len() < CHUNK {
                        Step::Ready
                    } else {
                        Step::Again
                    }
                },
                Incoming::WouldBlock => final(self)@ == old(self)@ && step == Step::Pending,
                Incoming::Failed => final(self)@ == old(self)@ && step == Step::Failed,
            },
    {
        match incoming {
            Incoming::Data(bytes) => {
                append(&mut self.buffer, bytes);
                if bytes.len() < CHUNK {
                    Step::Ready
                } else {
                    Step::Again
                }
            },
            Incoming::WouldBlock => Step::Pending,
            Incoming::Failed => Step::Failed,
        }
    }

    /// Hands out everything that was read.
    pub fn into_buffer(self) -> (buffer: Vec<u8>)
        ensures
            buffer@ == self@,
    {
        self.buffer
    }
}

/// The offset and step that follow a write, `written` bytes of `pending`
/// having been taken before it.
pub open spec fn spec_write(written: nat, pending: nat, outcome: Io) -> (nat, Step) {
    match outcome {
        Io::Done(count) => if written + count >= pending {
            (pending, Step::Ready)
        } else {
            ((written + count) as nat, Step::Again)
        },
        Io::WouldBlock => (written, Step::Pending),
        Io::Failed => (written, Step::Failed),
    }
}

/// Writes a pending output in full, however many calls the transport needs.
#[derive(Clone, Copy, Debug, PartialEq, Eq, Structural)]
pub struct StreamWrite {
    /// How many bytes of the output the transport has taken: the offset from
    /// which the next call writes.
    pub written: usize,
}

impl StreamWrite {
    /// Starts at the head of the output.
    pub fn new() -> (write: Self)
        ensures
            write.written == 0,
    {
        StreamWrite { written: 0 }
    }

    /// Takes in what one write of the output from `written` on reported,
    /// `pending` being the length of the whole output.
    ///
    /// A write that took less than the rest asks for another from the new
    /// offset; one that took the rest completes.
    pub fn poll(&mut self, pending: usize, outcome: Io) -> (step: Step)
        ensures
            (final(self).written as nat, step) == spec_write(
                old(self).written as nat,
                pending as nat,
                outcome,
            ),
    {
        match outcome {
            Io::Done(count) => {
                if self.written >= pending || count >= pending - self.written {
                    self.written = pending;
                    Step::Ready
                } else {
                    self.written = self.written + count;
                    Step::Again
                }
            },
            Io::WouldBlock => Step::Pending,
            Io::Failed => Step::Failed,
        }
    }
}

/// The step that follows a flush.
pub open spec fn spec_flush(outcome: Io) -> Step {
    match outcome {
        Io::Done(_) => Step::Ready,
        Io::WouldBlock => Step::Pending,
        Io::Failed => Step::Failed,
    }
}

/// Flushes the transport.
#[derive(Clone, Copy, Debug)]
pub struct StreamFlush;

impl StreamFlush {
    /// Takes in what one flush reported.
    pub fn poll(&self, outcome: Io) -> (step: Step)
        ensures
            step == spec_flush(outcome),
    {
        match outcome {
            Io::Done(_) => Step::Ready,
            Io::WouldBlock => Step::Pending,
            Io::Failed => Step::Failed,
        }
    }
}

} // verus!
