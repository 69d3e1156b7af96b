//! The half-close state of a bidirectional stream.
//!
//! Each half of a stream is either open or finished, and a finished half is
//! never reopened. The functions here decide what an operation on a stream
//! does; the transport performs it and reports what happened.

use vstd::prelude::*;

use crate::error::PeerError;

verus! {

/// The read size used when the caller gives none: 64 KiB.
pub const DEFAULT_READ_BYTES: u32 = 65536;

/// Which halves of a stream are still open.
#[derive(Clone, Copy, Debug, PartialEq, Eq, Structural)]
pub struct StreamState {
    pub send_open: bool,
    pub recv_open: bool,
}

/// The observable state of a whole stream.
#[derive(Clone, Copy, Debug, PartialEq, Eq, Structural)]
pub enum StreamPhase {
    BothOpen,
    SendFinished,
    RecvFinished,
    BothFinished,
}

/// What the transport reported for one read on the receive half.
#[derive(Clone, Debug)]
pub enum ReadOutcome {
    /// A chunk of data arrived.
    Data(Vec<u8>),
    /// The peer signalled the end of its data.
    End,
    /// The read failed at the transport level.
    Failed,
}

/// What a read returns to its caller.
#[derive(Clone, Debug)]
pub enum ReadResult {
    Chunk(Vec<u8>),
    Closed,
}

pub open spec fn phase_of(s: StreamState) -> StreamPhase {
    if s.send_open && s.recv_open {
        StreamPhase::BothOpen
    } else if s.recv_open {
        StreamPhase::SendFinished
    } else if s.send_open {
        StreamPhase::RecvFinished
    } else {
        StreamPhase::BothFinished
    }
}

/// Whether a write may go to the transport, in state `s`.
pub open spec fn write_allowed(s: StreamState) -> Result<(), PeerError> {
    if s.send_open {
        Ok(())
    } else {
        Err(PeerError::StreamClosed)
    }
}

/// The state after `finish`.
pub open spec fn after_finish(s: StreamState) -> StreamState {
    StreamState { send_open: false, ..s }
}

/// The state after a read that the transport answered with `o`; a read on a
/// finished receive half reaches no transport and leaves the state alone.
pub open spec fn after_read(s: StreamState, o: ReadOutcome) -> StreamState {
    if s.recv_open && o is End {
        StreamState { recv_open: false, ..s }
    } else {
        s
    }
}

/// What a read answered by `o` returns, in state `s`.
pub open spec fn read_returns(s: StreamState, o: ReadOutcome) -> Result<
    Option<Seq<u8>>,
    PeerError,
> {
    if !s.recv_open {
        Ok(None)
    } else {
        match o {
            ReadOutcome::Data(v) => Ok(Some(v@)),
            ReadOutcome::End => Ok(None),
            ReadOutcome::Failed => Err(PeerError::StreamError),
        }
    }
}

pub open spec fn read_result_view(r: Result<ReadResult, PeerError>) -> Result<
    Option<Seq<u8>>,
    PeerError,
> {
    match r {
        Ok(ReadResult::Chunk(v)) => Ok(Some(v@)),
        Ok(ReadResult::Closed) => Ok(None),
        Err(e) => Err(e),
    }
}

impl StreamState {
    /// A fresh stream, both halves open.
    pub fn new() -> (r: StreamState)
        ensures
            r.send_open && r.recv_open,
    {
        StreamState { send_open: true, recv_open: true }
    }

    pub fn phase(&self) -> (r: StreamPhase)
        ensures
            r == phase_of(*self),
    {
        if self.send_open && self.recv_open {
            StreamPhase::BothOpen
        } else if self.recv_open {
            StreamPhase::SendFinished
        } else if self.send_open {
            StreamPhase::RecvFinished
        } else {
            StreamPhase::BothFinished
        }
    }

    /// Decides whether a write of data may be handed to the transport.
    pub fn check_write(&self) -> (r: Result<(), PeerError>)
        ensures
            r == write_allowed(*self),
    {
        if self.send_open {
            Ok(())
        } else {
            Err(PeerError::StreamClosed)
        }
    }

    /// Records that a write failed at the transport: the send half is gone.
    pub fn write_failed(&mut self)
        ensures
            *final(self) == after_finish(*old(self)),
    {
        self.send_open = false;
    }

    /// Finishes the send half. Returns whether the transport must be told;
    /// a second call is a no-op.
    pub fn finish(&mut self) -> (r: bool)
        ensures
            *final(self) == after_finish(*old(self)),
            r == old(self).send_open,
    {
        let was_open = self.send_open;
        self.send_open = false;
        was_open
    }

    /// Whether a read must be handed to the transport.
    pub fn needs_read(&self) -> (r: bool)
        ensures
            r == self.recv_open,
    {
        self.recv_open
    }

    /// Takes what the transport answered for a read and gives what the read
    /// returns to its caller.
    pub fn complete_read(&mut self, o: ReadOutcome) -> (r: Result<ReadResult, PeerError>)
        ensures
            *final(self) == after_read(*old(self), o),
            read_result_view(r) == read_returns(*old(self), o),
    {
        if !self.recv_open {
            return Ok(ReadResult::Closed);
        }
        match o {
            ReadOutcome::Data(v) => Ok(ReadResult::Chunk(v)),
            ReadOutcome::End => {
                self.recv_open = false;
                Ok(ReadResult::Closed)
            },
            ReadOutcome::Failed => Err(PeerError::StreamError),
        }
    }
}

/// The number of bytes a read asks for: the caller's bound, or 64 KiB.
pub fn read_limit(max_bytes: Option<u32>) -> (r: usize)
    ensures
        r == match max_bytes {
            Some(m) => m as int,
            None => 65536,
        },
{
    match max_bytes {
        Some(m) => m as usize,
        None => DEFAULT_READ_BYTES as usize,
    }
}

/// Once the send half is finished, every write is refused, and finishing
/// again changes nothing.
pub proof fn lemma_write_after_finish(s: StreamState)
    ensures
        write_allowed(after_finish(s)) == Err::<(), PeerError>(PeerError::StreamClosed),
        after_finish(after_finish(s)) == after_finish(s),
        after_finish(s).recv_open == s.recv_open,
{
}

/// Once the peer has signalled the end of its data, every later read
/// returns the closed result, whatever the transport would say, and leaves
/// the state as it is.
pub proof fn lemma_read_after_end(s: StreamState, o: ReadOutcome)
    requires
        s.recv_open,
    ensures
        read_returns(s, ReadOutcome::End) == Ok::<Option<Seq<u8>>, PeerError>(None),
        ({
            let t = after_read(s, ReadOutcome::End);
            &&& !t.recv_open
            &&& t.send_open == s.send_open
            &&& read_returns(t, o) == Ok::<Option<Seq<u8>>, PeerError>(None)
            &&& after_read(t, o) == t
        }),
{
}

/// A finished half stays finished through any operation.
pub proof fn lemma_halves_monotone(s: StreamState, o: ReadOutcome)
    ensures
        !s.send_open ==> !after_read(s, o).send_open,
        !s.recv_open ==> !after_read(s, o).recv_open && !after_finish(s).recv_open,
{
}

} // verus!
