//! The CardDAV side of the daemon.

pub mod pump;
