//! What the async pumps have in common: the I/O-free protocol coroutines yield
//! "write these bytes" or "read some bytes", the pump performs that I/O on the
//! socket it owns and resumes the coroutine with what it read. The decisions a
//! pump takes are functions here, from the coroutine's request or the I/O
//! result to the next action; the daemon runs the loop and does the I/O.

use vstd::prelude::*;

verus! {

/// Why a pump stopped a session before the coroutine finished.
#[derive(Clone, Copy, Debug, PartialEq, Eq)]
pub enum PumpError {
    /// Writing the coroutine's bytes to the socket failed.
    WriteFailed,
    /// Reading from the socket failed.
    ReadFailed,
    /// The peer closed the connection while the coroutine still wanted input.
    ClosedByPeer,
    /// The event channel to the delivery side is closed.
    ChannelClosed,
}

impl PumpError {
    /// The error's text, as the daemon reports it.
    pub fn message(&self) -> (m: &'static str)
        ensures
            m@ == self.message_text(),
    {
        proof {
            reveal_strlit("write failed");
            reveal_strlit("read failed");
            reveal_strlit("connection closed by peer");
            reveal_strlit("delivery channel closed");
        }
        match self {
            PumpError::WriteFailed => "write failed",
            PumpError::ReadFailed => "read failed",
            PumpError::ClosedByPeer => "connection closed by peer",
            PumpError::ChannelClosed => "delivery channel closed",
        }
    }

    /// The error's text.
    pub open spec fn message_text(&self) -> Seq<char> {
        match self {
            PumpError::WriteFailed => "write failed"@,
            PumpError::ReadFailed => "read failed"@,
            PumpError::ClosedByPeer => "connection closed by peer"@,
            PumpError::ChannelClosed => "delivery channel closed"@,
        }
    }
}

/// What a protocol coroutine asks of its driver when resumed: bytes to write,
/// bytes to read, or its final value.
#[derive(Debug)]
pub enum Request<T> {
    WantsWrite(Vec<u8>),
    WantsRead,
    Complete(T),
}

/// How the I/O a pump performed for the coroutine turned out.
#[derive(Clone, Copy, Debug, PartialEq, Eq)]
pub enum IoResult {
    /// All the requested bytes were written.
    Written,
    /// The write failed.
    WriteFailed,
    /// A read returned this many bytes (0 at end of stream).
    Read(usize),
    /// The read failed.
    ReadFailed,
}

/// What the pump does next.
#[derive(Debug)]
pub enum Action<T> {
    /// Write these bytes to the socket.
    Write(Vec<u8>),
    /// Read from the socket into the scratch buffer.
    Read,
    /// Resume the coroutine, with the first `n` bytes of the scratch buffer as
    /// input (`Some(0)` is the empty slice) or with no input.
    Resume(Option<usize>),
    /// End the session with this result.
    Return(Result<T, PumpError>),
}

} // verus!
