//! The verified core of the Carillon server: the content-free change event,
//! password encryption at rest, and the decision logic of the IMAP and CardDAV
//! pumps that drive the I/O-free protocol coroutines.

pub mod age_keys;
pub mod base64_text;
pub mod carddav;
pub mod crypto;
pub mod event;
pub mod imap;
pub mod pump;
