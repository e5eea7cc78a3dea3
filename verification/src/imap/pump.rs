//! The decisions of the async IMAP coroutine pumps.
//!
//! The one-shot pump drives a request/response coroutine (greeting, login,
//! LIST, ...) to completion. The standing watch pump drives carillon-core's
//! I/O-free IMAP watch: core greets, authenticates, EXAMINEs and holds IDLE
//! itself; the pump only performs the reads and writes it asks for, folds each
//! content-free change into a `ChangeEvent` tagged with the account and target,
//! and drops the connection after a long silence so the caller reconnects.

use crate::event::{is_event_id, ChangeEvent};
use crate::pump::{Action, IoResult, PumpError, Request};
use vstd::prelude::*;

verus! {

/// Seconds of server silence after which the watch pump drops an idle connection
/// to refresh it: bounds the silent-dead-socket window and stays well under the
/// RFC 2177 §3 cap on IDLE.
pub const IDLE_REFRESH_SECS: u64 = 15 * 60;

/// Per-read scratch buffer size in bytes. IDLE never fetches bodies, so a small
/// buffer is plenty; the fragmentizer reassembles across reads.
pub const READ_BUF: usize = 8 * 1024;

/// The one-shot pump's answer to what the coroutine asks: write, read, or return
/// its final value.
pub fn run_on_request<T>(request: Request<T>) -> (a: Action<T>)
    ensures
        match request {
            Request::WantsWrite(bytes) => a == Action::<T>::Write(bytes),
            Request::WantsRead => a == Action::<T>::Read,
            Request::Complete(value) => a == Action::<T>::Return(Ok(value)),
        },
{
    match request {
        Request::WantsWrite(bytes) => Action::Write(bytes),
        Request::WantsRead => Action::Read,
        Request::Complete(value) => Action::Return(Ok(value)),
    }
}

/// The one-shot pump's answer to the I/O it performed: resume the coroutine with
/// no input after a write and with the bytes read after a read; a failed write or
/// read ends the session, and so does an empty read (the peer closed the
/// connection while the coroutine still wanted input).
pub fn run_on_io<T>(io: IoResult) -> (a: Action<T>)
    ensures
        match io {
            IoResult::Written => a == Action::<T>::Resume(None),
            IoResult::WriteFailed => a == Action::<T>::Return(Err(PumpError::WriteFailed)),
            IoResult::Read(n) => if n == 0 {
                a == Action::<T>::Return(Err(PumpError::ClosedByPeer))
            } else {
                a == Action::<T>::Resume(Some(n))
            },
            IoResult::ReadFailed => a == Action::<T>::Return(Err(PumpError::ReadFailed)),
        },
{
    match io {
        IoResult::Written => Action::Resume(None),
        IoResult::WriteFailed => Action::Return(Err(PumpError::WriteFailed)),
        IoResult::Read(n) => if n == 0 {
            Action::Return(Err(PumpError::ClosedByPeer))
        } else {
            Action::Resume(Some(n))
        },
        IoResult::ReadFailed => Action::Return(Err(PumpError::ReadFailed)),
    }
}

/// What carillon-core's IMAP watch asks of its pump when resumed.
#[derive(Debug)]
pub enum WatchRequest<T> {
    /// Read from the socket.
    WantsRead,
    /// Write these bytes to the socket.
    WantsWrite(Vec<u8>),
    /// The mailbox changed; the resync token (`UIDVALIDITY:HIGHESTMODSEQ` or
    /// `UIDVALIDITY:UIDNEXT`).
    Changed(String),
    /// The watch ended with this result.
    Done(T),
}

/// How the watch pump's I/O turned out.
#[derive(Clone, Copy, Debug, PartialEq, Eq)]
pub enum WatchIo {
    /// All the requested bytes were written.
    Written,
    /// The write failed.
    WriteFailed,
    /// A read returned this many bytes (0 at end of stream).
    Read(usize),
    /// The read failed.
    ReadFailed,
    /// No traffic arrived within `IDLE_REFRESH_SECS`.
    ReadTimedOut,
    /// The change event went into the delivery channel.
    Delivered,
    /// The delivery channel is closed.
    DeliveryFailed,
}

/// How a watch session ends.
#[derive(Debug)]
pub enum WatchEnd<T> {
    /// The watch itself finished (clean wind-down, or its own error).
    Finished(T),
    /// The connection was silent for too long and is dropped so the caller
    /// reconnects; a clean end.
    Refresh,
    /// The pump stopped the session.
    Failed(PumpError),
}

/// What the watch pump does next.
#[derive(Debug)]
pub enum WatchAction<T> {
    /// Write these bytes to the socket.
    Write(Vec<u8>),
    /// Read from the socket, giving up after `IDLE_REFRESH_SECS` of silence.
    Read,
    /// Put this event into the delivery channel.
    Deliver(ChangeEvent),
    /// Resume the watch, with the first `n` bytes of the scratch buffer or none.
    Resume(Option<usize>),
    /// End the session.
    Return(WatchEnd<T>),
}

/// The standing watch pump of one IMAP account: what it tags its events with.
pub struct WatchPump {
    account: String,
    target: String,
}

impl WatchPump {
    /// The watch id every event of this pump belongs to.
    pub closed spec fn account_view(&self) -> Seq<char> {
        self.account@
    }

    /// The watched mailbox every event of this pump names.
    pub closed spec fn target_view(&self) -> Seq<char> {
        self.target@
    }

    /// A pump for the watch `account` of the mailbox `target`.
    pub fn new(account: &str, target: &str) -> (p: WatchPump)
        ensures
            p.account_view() == account@,
            p.target_view() == target@,
    {
        WatchPump { account: account.to_owned(), target: target.to_owned() }
    }

    /// The pump's answer to what the watch asks. A change is folded into exactly
    /// one content-free event: this watch, source `imap`, this mailbox, and the
    /// watch's resync token as its state.
    pub fn on_request<T>(&self, request: WatchRequest<T>) -> (a: WatchAction<T>)
        ensures
            match request {
                WatchRequest::WantsRead => a == WatchAction::<T>::Read,
                WatchRequest::WantsWrite(bytes) => a == WatchAction::<T>::Write(bytes),
                WatchRequest::Changed(state) => a matches WatchAction::Deliver(ev) && {
                    &&& is_event_id(ev.id@)
                    &&& ev.ts >= 0
                    &&& ev.account@ == self.account_view()
                    &&& ev.source@ == "imap"@
                    &&& ev.target@ == self.target_view()
                    &&& ev.state == Some(state)
                },
                WatchRequest::Done(result) => a == WatchAction::<T>::Return(WatchEnd::Finished(result)),
            },
    {
        match request {
            WatchRequest::WantsRead => WatchAction::Read,
            WatchRequest::WantsWrite(bytes) => WatchAction::Write(bytes),
            WatchRequest::Changed(state) => {
                let ev = ChangeEvent::new(self.account.as_str(), "imap", self.target.as_str(), Some(state));
                WatchAction::Deliver(ev)
            },
            WatchRequest::Done(result) => WatchAction::Return(WatchEnd::Finished(result)),
        }
    }

    /// The pump's answer to the I/O it performed. After a write or a delivery the
    /// watch resumes with no input, after a read with the bytes read. A silent
    /// connection ends the session cleanly for a reconnect; an empty read, a failed
    /// read or write, or a closed delivery channel ends it with an error.
    pub fn on_io<T>(&self, io: WatchIo) -> (a: WatchAction<T>)
        ensures
            match io {
                WatchIo::Written => a == WatchAction::<T>::Resume(None),
                WatchIo::WriteFailed => a == WatchAction::<T>::Return(WatchEnd::Failed(PumpError::WriteFailed)),
                WatchIo::Read(n) => if n == 0 {
                    a == WatchAction::<T>::Return(WatchEnd::Failed(PumpError::ClosedByPeer))
                } else {
                    a == WatchAction::<T>::Resume(Some(n))
                },
                WatchIo::ReadFailed => a == WatchAction::<T>::Return(WatchEnd::Failed(PumpError::ReadFailed)),
                WatchIo::ReadTimedOut => a == WatchAction::<T>::Return(WatchEnd::Refresh),
                WatchIo::Delivered => a == WatchAction::<T>::Resume(None),
                WatchIo::DeliveryFailed => a == WatchAction::<T>::Return(WatchEnd::Failed(PumpError::ChannelClosed)),
            },
    {
        match io {
            WatchIo::Written => WatchAction::Resume(None),
            WatchIo::WriteFailed => WatchAction::Return(WatchEnd::Failed(PumpError::WriteFailed)),
            WatchIo::Read(n) => if n == 0 {
                WatchAction::Return(WatchEnd::Failed(PumpError::ClosedByPeer))
            } else {
                WatchAction::Resume(Some(n))
            },
            WatchIo::ReadFailed => WatchAction::Return(WatchEnd::Failed(PumpError::ReadFailed)),
            WatchIo::ReadTimedOut => WatchAction::Return(WatchEnd::Refresh),
            WatchIo::Delivered => WatchAction::Resume(None),
            WatchIo::DeliveryFailed => WatchAction::Return(WatchEnd::Failed(PumpError::ChannelClosed)),
        }
    }
}

} // verus!
