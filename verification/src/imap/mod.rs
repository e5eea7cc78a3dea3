//! The IMAP side of the daemon.

pub mod pump;
