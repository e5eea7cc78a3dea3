//! The canonical, content-free change event: the "doorbell".
//!
//! Every watcher folds its native change into this one generic shape. It
//! carries that *something changed* at an addressable place, and the opaque
//! resync token to catch up from; never the sender, subject, body, a UID or a
//! change kind. `id` lets receivers dedupe retries, `ts` is folded into the
//! signed preimage for replay protection; both are stamped once, at fold time.

use rand::RngExt;
use vstd::prelude::*;
use vstd::string::StrSliceExecFns;
use vstd::string::StringExecFns;

verus! {

/// The sixteen lowercase hexadecimal digits, in order of value: `0`-`9` (codes
/// 48-57), then `a`-`f` (codes 97-102).
pub open spec fn hex_digits() -> Seq<char> {
    Seq::new(16, |d: int| if d < 10 { (48 + d) as char } else { (87 + d) as char })
}

/// The signed, content-free payload POSTed to a watch's notify URL.
#[derive(Clone, Debug)]
pub struct ChangeEvent {
    /// Unique event id (128-bit random, hex), stable across retries so receivers
    /// can dedupe.
    pub id: String,
    /// Unix timestamp (seconds) the event was folded, stable across retries and
    /// signed for replay protection.
    pub ts: i64,
    /// The watch (billing account's PIM account) this change belongs to.
    pub account: String,
    /// The account kind that rang: `imap` or `carddav`.
    pub source: &'static str,
    /// The watched thing that changed: a mailbox name for IMAP, a collection
    /// reference for CardDAV. Opaque to the consumer.
    pub target: String,
    /// The opaque per-source resync token, absent when the source exposes none.
    pub state: Option<String>,
}

impl ChangeEvent {
    /// Folds a change into the canonical shape with the given id bits and
    /// timestamp: the id is the 32-digit hex form of `id_bits`.
    pub fn stamped(
        id_bits: u128,
        ts: i64,
        account: &str,
        source: &'static str,
        target: &str,
        state: Option<String>,
    ) -> (ev: ChangeEvent)
        ensures
            ev.id@ == event_id_text(id_bits),
            ev.ts == ts,
            ev.account@ == account@,
            ev.source == source,
            ev.target@ == target@,
            ev.state == state,
    {
        ChangeEvent {
            id: event_id(id_bits),
            ts,
            account: account.to_owned(),
            source,
            target: target.to_owned(),
            state,
        }
    }

    /// Folds a change into the canonical shape, stamping a fresh id and
    /// timestamp. `source` is a static kind (`"imap"`, `"carddav"`), `target`
    /// the watched thing, `state` the resync token if any.
    pub fn new(account: &str, source: &'static str, target: &str, state: Option<String>) -> (ev:
        ChangeEvent)
        ensures
            is_event_id(ev.id@),
            ev.ts >= 0,
            ev.account@ == account@,
            ev.source == source,
            ev.target@ == target@,
            ev.state == state,
    {
        let bits = random_u128();
        let ev = ChangeEvent::stamped(bits, now_secs(), account, source, target, state);
        assert(event_id_text(bits) == ev.id@);
        ev
    }
}

/// `rand::rng().random::<u128>()`: a value drawn from the thread-local generator.
/// The value depends on chance, so nothing is stated of it.
#[verifier::external_body]
fn random_u128() -> u128 {
    rand::rng().random::<u128>()
}

/// `SystemTime::elapsed` of `UNIX_EPOCH`: the whole seconds from the Unix epoch to
/// the system clock's present reading, or `None` when the clock reads earlier than
/// the epoch. The reading depends on the clock, so nothing is stated of it.
#[verifier::external_body]
fn clock_seconds_since_epoch() -> Option<u64> {
    std::time::UNIX_EPOCH.elapsed().ok().map(|d| d.as_secs())
}

/// The timestamp for a clock reading: the seconds since the epoch, saturated at
/// `i64::MAX`, and 0 for a clock that reads before the epoch.
pub fn secs_from_clock(reading: Option<u64>) -> (ts: i64)
    ensures
        ts == match reading {
            None => 0,
            Some(s) => if s <= i64::MAX { s as int } else { i64::MAX as int },
        },
{
    match reading {
        None => 0,
        Some(s) => if s <= i64::MAX as u64 { s as i64 } else { i64::MAX },
    }
}

/// The present Unix time in seconds (0 when the clock reads before the epoch).
pub fn now_secs() -> (ts: i64)
    ensures
        ts >= 0,
{
    secs_from_clock(clock_seconds_since_epoch())
}


/// The value (0..16) of the `k`-th four-bit group of `bits`, counted from the least
/// significant end.
pub open spec fn nibble(bits: u128, k: int) -> int {
    ((bits >> ((4 * k) as u128)) & 15u128) as int
}

/// An event id: `bits` as exactly 32 lowercase hexadecimal digits, most significant
/// first, zero-padded (`format!("{:032x}", bits)`).
pub open spec fn event_id_text(bits: u128) -> Seq<char> {
    Seq::new(32, |i: int| hex_digits()[nibble(bits, 31 - i)])
}

/// `text` is the id of some 128-bit value.
pub open spec fn is_event_id(text: Seq<char>) -> bool {
    exists|bits: u128| event_id_text(bits) == text
}

/// Formats `bits` as an event id: 32 lowercase hexadecimal digits.
pub fn event_id(bits: u128) -> (id: String)
    ensures
        id@ == event_id_text(bits),
{
    let digits = "0123456789abcdef";
    proof {
        reveal_strlit("0123456789abcdef");
        assert(digits@ =~= hex_digits());
    }
    let mut id = String::new();
    let mut i: usize = 0;
    while i < 32
        invariant
            i <= 32,
            digits@ == hex_digits(),
            id@ =~= event_id_text(bits).subrange(0, i as int),
        decreases 32 - i,
    {
        let shift: u128 = (4 * (31 - i)) as u128;
        let d: u128 = (bits >> shift) & 15u128;
        assert(d < 16) by (bit_vector)
            requires
                d == (bits >> shift) & 15u128,
        ;
        let du: usize = d as usize;
        let piece = digits.substring_ascii(du, du + 1);
        id.append(piece);
        assert(nibble(bits, 31 - i as int) == d as int);
        assert(id@ =~= event_id_text(bits).subrange(0, i + 1));
        i = i + 1;
    }
    id
}

/// The bits of `bits` from the `k`-th four-bit group up.
spec fn high_groups(bits: u128, k: int) -> u128 {
    bits >> ((4 * k) as u128)
}

/// The groups from `k` up are the groups from `k + 1` up, shifted, and group `k`.
proof fn lemma_high_groups_step(bits: u128, k: int)
    requires
        0 <= k < 31,
    ensures
        high_groups(bits, k) == (high_groups(bits, k + 1) << 4u128) | (nibble(bits, k) as u128),
{
    let s = (4 * k) as u128;
    assert(((4 * (k + 1)) as u128) == s + 4);
    assert(bits >> s == ((bits >> (s + 4u128)) << 4u128) | ((bits >> s) & 15u128)) by (bit_vector)
        requires
            s <= 120u128,
    ;
}

/// Two values whose four-bit groups agree from group `k` up agree on those bits.
proof fn lemma_high_groups_agree(a: u128, b: u128, k: int)
    requires
        0 <= k < 32,
        forall|j: int| k <= j < 32 ==> #[trigger] nibble(a, j) == nibble(b, j),
    ensures
        high_groups(a, k) == high_groups(b, k),
    decreases 32 - k,
{
    if k == 31 {
        assert(nibble(a, 31) == nibble(b, 31));
        assert(a >> 124u128 == (a >> 124u128) & 15u128) by (bit_vector);
        assert(b >> 124u128 == (b >> 124u128) & 15u128) by (bit_vector);
    } else {
        lemma_high_groups_agree(a, b, k + 1);
        lemma_high_groups_step(a, k);
        lemma_high_groups_step(b, k);
        assert(nibble(a, k) == nibble(b, k));
    }
}

/// Distinct 128-bit values get distinct event ids: an id names exactly one value,
/// so ids drawn from distinct random values never collide.
pub proof fn lemma_event_id_injective(a: u128, b: u128)
    requires
        event_id_text(a) == event_id_text(b),
    ensures
        a == b,
{
    assert forall|k: int| 0 <= k < 32 implies #[trigger] nibble(a, k) == nibble(b, k) by {
        let i = 31 - k;
        assert(event_id_text(a)[i] == event_id_text(b)[i]);
        assert(event_id_text(a)[i] == hex_digits()[nibble(a, k)]);
        assert(event_id_text(b)[i] == hex_digits()[nibble(b, k)]);
        lemma_nibble_bound(a, k);
        lemma_nibble_bound(b, k);
    }
    lemma_high_groups_agree(a, b, 0);
    assert(a >> 0u128 == a && b >> 0u128 == b) by (bit_vector);
}

/// A four-bit group lies in 0..16.
proof fn lemma_nibble_bound(bits: u128, k: int)
    requires
        0 <= k < 32,
    ensures
        0 <= nibble(bits, k) < 16,
{
    let s = (4 * k) as u128;
    assert((bits >> s) & 15u128 < 16u128) by (bit_vector);
}

/// An event id is 32 characters long, each a lowercase hexadecimal digit.
pub proof fn lemma_event_id_shape(bits: u128)
    ensures
        event_id_text(bits).len() == 32,
        forall|i: int| 0 <= i < 32 ==> hex_digits().contains(#[trigger] event_id_text(bits)[i]),
{
    assert forall|i: int| 0 <= i < 32 implies hex_digits().contains(#[trigger] event_id_text(bits)[i]) by {
        lemma_nibble_bound(bits, 31 - i);
        assert(event_id_text(bits)[i] == hex_digits()[nibble(bits, 31 - i)]);
    }
}

} // verus!
