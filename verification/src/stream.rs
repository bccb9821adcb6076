//! The output side of a connection: bytes are pushed into a pending output
//! and sent in one piece.

use crate::io::{append, spec_flush, spec_write, Io, Step, StreamFlush, StreamWrite};
use vstd::prelude::*;
use vstd::string::*;
use vstd::utf8::*;

verus! {

/// Where a send stands.
#[derive(Clone, Copy, Debug, PartialEq, Eq, Structural)]
pub enum Sending {
    /// The output is being written; the next call is a write from the
    /// offset held here.
    Write(StreamWrite),
    /// The output was written in full; the next call is a flush.
    Flush,
    /// The output was written and flushed.
    Done,
}

/// The state and step that follow one call of a send over `pending` bytes.
///
/// The write comes first and goes on until the whole output was taken; the
/// flush follows it and ends the send.
pub open spec fn spec_send(pending: nat, sending: Sending, outcome: Io) -> (Sending, Step) {
    match sending {
        Sending::Write(write) => {
            let (written, step) = spec_write(write.written as nat, pending, outcome);
            if step == Step::Ready {
                (Sending::Flush, Step::Again)
            } else {
                (Sending::Write(StreamWrite { written: written as usize }), step)
            }
        },
        Sending::Flush => {
            let step = spec_flush(outcome);
            if step == Step::Ready {
                (Sending::Done, Step::Ready)
            } else {
                (Sending::Flush, step)
            }
        },
        Sending::Done => (Sending::Done, Step::Ready),
    }
}

impl Sending {
    /// A send that has written nothing yet.
    pub fn new() -> (sending: Self)
        ensures
            sending == Sending::Write(StreamWrite { written: 0 }),
    {
        Sending::Write(StreamWrite::new())
    }
}

/// The pending output of one connection.
pub struct InternalStream {
    output: Vec<u8>,
}

impl View for InternalStream {
    type V = Seq<u8>;

    /// The pending output, in push order.
    closed spec fn view(&self) -> Seq<u8> {
        self.output@
    }
}

impl InternalStream {
    /// A connection with nothing to send yet.
    pub fn new() -> (stream: Self)
        ensures
            stream@ == Seq::<u8>::empty(),
    {
        InternalStream { output: Vec::new() }
    }

    /// The pending output: what a send puts on the wire.
    pub fn output(&self) -> (bytes: &[u8])
        ensures
            bytes@ == self@,
    {
        self.output.as_slice()
    }

    /// Takes a send of the whole pending output one call further: `outcome`
    /// is what the call that `sending` asked for reported.
    ///
    /// `Step::Ready` says that all of it went out; `Step::Failed` signals a
    /// failure of the transport.
    pub fn send(&self, sending: &mut Sending, outcome: Io) -> (step: Step)
        ensures
            (*final(sending), step) == spec_send(self@.len(), *old(sending), outcome),
    {
        match *sending {
            Sending::Write(write) => {
                let mut write = write;
                let step = write.poll(self.output.len(), outcome);
                match step {
                    Step::Ready => {
                        *sending = Sending::Flush;
                        Step::Again
                    },
                    _ => {
                        *sending = Sending::Write(write);
                        step
                    },
                }
            },
            Sending::Flush => {
                let step = StreamFlush.poll(outcome);
                match step {
                    Step::Ready => {
                        *sending = Sending::Done;
                        Step::Ready
                    },
                    _ => step,
                }
            },
            Sending::Done => Step::Ready,
        }
    }

    /// Pushes UTF-8 text onto the pending output.
    pub fn push_str(&mut self, text: &str)
        ensures
            final(self)@ == old(self)@ + text.spec_bytes(),
    {
        append(&mut self.output, text.as_bytes());
    }

    /// Pushes bytes onto the pending output.
    pub fn push_data(&mut self, bytes: &[u8])
        ensures
            final(self)@ == old(self)@ + bytes@,
    {
        append(&mut self.output, bytes);
    }
}

/// The handle on a connection that a route's handler works with.
///
/// The connection behind it has one owner at a time: each operation takes
/// it out of the handle, works on it and puts it back before it returns.
pub struct Stream {
    internal: Option<InternalStream>,
}

impl View for Stream {
    type V = Seq<u8>;

    /// The pending output, in push order.
    closed spec fn view(&self) -> Seq<u8> {
        self.internal->0@
    }
}

impl Stream {
    /// The connection is in the handle.
    pub closed spec fn wf(&self) -> bool {
        self.internal is Some
    }

    /// Puts a connection behind a handle.
    pub fn new(internal: InternalStream) -> (stream: Self)
        ensures
            stream.wf(),
            stream@ == internal@,
    {
        Stream { internal: Some(internal) }
    }

    /// The pending output: what a send puts on the wire.
    pub fn output(&self) -> (bytes: &[u8])
        requires
            self.wf(),
        ensures
            bytes@ == self@,
    {
        self.internal.as_ref().unwrap().output()
    }

    /// Takes the connection back out of the handle.
    pub fn into_internal(self) -> (internal: InternalStream)
        requires
            self.wf(),
        ensures
            internal@ == self@,
    {
        self.internal.unwrap()
    }

    /// Takes a send of the whole pending output one call further: `outcome`
    /// is what the call that `sending` asked for reported.
    pub fn send(&mut self, sending: &mut Sending, outcome: Io) -> (step: Step)
        requires
            old(self).wf(),
        ensures
            final(self).wf(),
            final(self)@ == old(self)@,
            (*final(sending), step) == spec_send(old(self)@.len(), *old(sending), outcome),
    {
        let this = self.internal.take().unwrap();
        let step = this.send(sending, outcome);
        self.internal = Some(this);
        step
    }

    /// Pushes UTF-8 text onto the pending output.
    pub fn push_str(&mut self, text: &str)
        requires
            old(self).wf(),
        ensures
            final(self).wf(),
            final(self)@ == old(self)@ + text.spec_bytes(),
    {
        let mut this = self.internal.take().unwrap();
        this.push_str(text);
        self.internal = Some(this);
    }

    /// Pushes bytes onto the pending output.
    pub fn push_data(&mut self, bytes: &[u8])
        requires
            old(self).wf(),
        ensures
            final(self).wf(),
            final(self)@ == old(self)@ + bytes@,
    {
        let mut this = self.internal.take().unwrap();
        this.push_data(bytes);
        self.internal = Some(this);
    }
}

/// How many bytes of a pending output of `pending` bytes a send has put on
/// the wire.
pub open spec fn sent(pending: nat, sending: Sending) -> nat {
    match sending {
        Sending::Write(write) => if write.written <= pending {
            write.written as nat
        } else {
            pending
        },
        Sending::Flush => pending,
        Sending::Done => pending,
    }
}

/// What a send of `output` has put on the wire: the head of the output, up
/// to where the writes have come.
pub open spec fn wire(output: Seq<u8>, sending: Sending) -> Seq<u8> {
    output.subrange(0, sent(output.len(), sending) as int)
}

/// Pushing text, then bytes, then sending puts on the wire one piece: the
/// text's encoding followed by the bytes, in push order.
///
/// The pending output after the two pushes is that piece. A send starts
/// with nothing on the wire; a write that took `count` bytes adds the next
/// `count` bytes of the output behind what is there, and nothing else
/// changes what is there; and once the send is ready the wire holds the
/// whole output.
pub proof fn lemma_round_trip(text: Seq<char>, bytes: Seq<u8>, sending: Sending, outcome: Io)
    requires
        encode_utf8(text).len() + bytes.len() <= usize::MAX,
    ensures
        ({
            let output = Seq::<u8>::empty() + encode_utf8(text) + bytes;
            let (next, step) = spec_send(output.len(), sending, outcome);
            let before = sent(output.len(), sending);
            &&& output == encode_utf8(text) + bytes
            &&& wire(output, Sending::Write(StreamWrite { written: 0 })) == Seq::<u8>::empty()
            &&& wire(output, next) == wire(output, sending) + output.subrange(
                before as int,
                sent(output.len(), next) as int,
            )
            &&& forall|count: usize|
                sending is Write && outcome == Io::Done(count) && before + count <= output.len()
                    ==> sent(output.len(), next) == before + count
            &&& !(sending is Write && outcome is Done) ==> sent(output.len(), next) == before
            &&& step == Step::Ready ==> wire(output, next) == output
        }),
{
    let output = Seq::<u8>::empty() + encode_utf8(text) + bytes;
    let (next, step) = spec_send(output.len(), sending, outcome);
    assert(output =~= encode_utf8(text) + bytes);
    assert(wire(output, Sending::Write(StreamWrite { written: 0 })) =~= Seq::<u8>::empty());
    assert(wire(output, next) =~= wire(output, sending) + output.subrange(
        sent(output.len(), sending) as int,
        sent(output.len(), next) as int,
    ));
    if step == Step::Ready {
        assert(wire(output, next) =~= output);
    }
}

} // verus!
