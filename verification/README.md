# carillon_server

The verified core of the Carillon server, checked with Verus.

- `src/event.rs` — the content-free change event and its 32-digit hex id.
- `src/age_keys.rs` — age identities, recipients and zeroize-on-drop secrets,
  each paired with its plain view, and the calls into age and secrecy.
- `src/base64_text.rs` — padded Base64 as spec functions, with the proofs that
  encoding is injective and that the canonical decoder inverts it.
- `src/crypto.rs` — age encryption of stored passwords (Base64 at rest),
  key-text parsing, and just-in-time decryption into a zeroizing secret.
- `src/pump.rs`, `src/imap/pump.rs`, `src/carddav/pump.rs` — the decisions of
  the async pumps that drive the I/O-free IMAP and CardDAV coroutines, as
  state machines from request or I/O result to the next action; the CardDAV
  poll is proved against a model of a whole poll (`poll_rounds`).
- `app/` — the daemon side: the key file on disk, the tokio loops that
  perform the I/O each machine asks for, and the serde form of the event.
- `tests/` — runtime tests against the real age, base64 and rand crates.
