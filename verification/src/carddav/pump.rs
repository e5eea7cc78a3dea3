//! The decisions of the CardDAV poll pump.
//!
//! One poll is one `sync-collection` round (or several, while the server
//! truncates the result set) driven over a fresh connection. The pump owns only
//! the connection and folds a change into a `ChangeEvent`; the sync-collection
//! logic itself lives in carillon-core's I/O-free poll coroutine.
//!
//! A `None` token performs a baseline enumeration whose change is not emitted,
//! so activating a service does not fire on every existing contact, and only
//! checkpoints the returned token. Every later poll emits one content-free ring
//! per round that saw a change. The poll returns the next token to persist:
//! the newest sync-token the server reported, the starting token if it reported
//! none, or `None` if the server rejected the token and a fresh baseline is
//! needed.

use crate::event::{is_event_id, ChangeEvent};
use crate::pump::{Action, IoResult, PumpError, Request};
use vstd::prelude::*;

verus! {

/// Per-read scratch buffer size in bytes. A `sync-collection` REPORT that only
/// fetches etags stays small; the HTTP layer reassembles across reads.
pub const READ_BUF: usize = 16 * 1024;

/// The driver of one poll coroutine over one connection. At end of stream it
/// hands the coroutine an empty slice once, so a close-delimited body finalizes;
/// a further read request after that fails.
pub struct PollDriver {
    eof: bool,
}

impl PollDriver {
    /// The connection has reached end of stream.
    pub closed spec fn at_eof(&self) -> bool {
        self.eof
    }

    /// A driver for a fresh connection.
    pub fn new() -> (d: PollDriver)
        ensures
            !d.at_eof(),
    {
        PollDriver { eof: false }
    }

    /// The driver's answer to what the coroutine asks: write, read (unless the
    /// stream already ended, which fails the poll), or return its result.
    pub fn on_request<T>(&self, request: Request<T>) -> (a: Action<T>)
        ensures
            match request {
                Request::WantsWrite(bytes) => a == Action::<T>::Write(bytes),
                Request::WantsRead => if self.at_eof() {
                    a == Action::<T>::Return(Err(PumpError::ClosedByPeer))
                } else {
                    a == Action::<T>::Read
                },
                Request::Complete(value) => a == Action::<T>::Return(Ok(value)),
            },
    {
        match request {
            Request::WantsWrite(bytes) => Action::Write(bytes),
            Request::WantsRead => if self.eof {
                Action::Return(Err(PumpError::ClosedByPeer))
            } else {
                Action::Read
            },
            Request::Complete(value) => Action::Return(Ok(value)),
        }
    }

    /// The driver's answer to the I/O it performed: resume with no input after a
    /// write and with the bytes read after a read, an empty read included (which
    /// marks the end of stream); a failed write or read fails the poll.
    pub fn on_io<T>(&mut self, io: IoResult) -> (a: Action<T>)
        ensures
            match io {
                IoResult::Written => a == Action::<T>::Resume(None) && final(self).at_eof()
                    == old(self).at_eof(),
                IoResult::WriteFailed => a == Action::<T>::Return(Err(PumpError::WriteFailed)),
                IoResult::Read(n) => a == Action::<T>::Resume(Some(n)) && final(self).at_eof() == (
                old(self).at_eof() || n == 0),
                IoResult::ReadFailed => a == Action::<T>::Return(Err(PumpError::ReadFailed)),
            },
    {
        match io {
            IoResult::Written => Action::Resume(None),
            IoResult::WriteFailed => Action::Return(Err(PumpError::WriteFailed)),
            IoResult::Read(n) => {
                if n == 0 {
                    self.eof = true;
                }
                Action::Resume(Some(n))
            },
            IoResult::ReadFailed => Action::Return(Err(PumpError::ReadFailed)),
        }
    }
}

/// What one sync-collection round reported, as far as the pump decides on it.
#[derive(Clone, Debug)]
pub struct PollChange {
    /// The server rejected the sync-token.
    pub invalid_token: bool,
    /// The collection changed since the token.
    pub changed: bool,
    /// The server truncated the result set (RFC 6578 §3.6).
    pub truncated: bool,
    /// The new sync-token, if the server sent one.
    pub state: Option<String>,
}

/// A round's report over plain values.
pub struct ChangeReport {
    pub invalid_token: bool,
    pub changed: bool,
    pub truncated: bool,
    pub state: Option<Seq<char>>,
}

impl PollChange {
    /// This round's report.
    pub open spec fn report(&self) -> ChangeReport {
        ChangeReport {
            invalid_token: self.invalid_token,
            changed: self.changed,
            truncated: self.truncated,
            state: self.state.deep_view(),
        }
    }
}

/// Where a poll stands after some rounds.
pub enum PollStage {
    /// Still draining; the next round starts from this token.
    Running(Option<Seq<char>>),
    /// Done; this is the token to persist.
    Finished(Option<Seq<char>>),
}

/// The token after a round: the server's new sync-token if it sent one, else the
/// token the round started from.
pub open spec fn next_token(cursor: Option<Seq<char>>, reported: Option<Seq<char>>) -> Option<
    Seq<char>,
> {
    match reported {
        Some(token) => Some(token),
        None => cursor,
    }
}

/// Whether the poll runs another round: the result set was truncated and the
/// server moved the token forward.
pub open spec fn drains_again(
    truncated: bool,
    next: Option<Seq<char>>,
    cursor: Option<Seq<char>>,
) -> bool {
    truncated && next is Some && next != cursor
}

/// The rings a round emits: one, carrying the round's token, when the poll is not
/// a baseline and the collection changed; none otherwise.
pub open spec fn round_rings(baseline: bool, report: ChangeReport, next: Option<Seq<char>>) -> Seq<
    Option<Seq<char>>,
> {
    if !baseline && report.changed {
        seq![next]
    } else {
        Seq::empty()
    }
}

/// A poll over the rounds `reports`, starting from `cursor`: the tokens of the
/// rings it emits, and where it stands. A rejected token ends it with `None`;
/// otherwise each round moves to `next_token`, and the poll ends unless it
/// `drains_again`. Rounds after the end are not looked at.
pub open spec fn poll_rounds(
    baseline: bool,
    cursor: Option<Seq<char>>,
    reports: Seq<ChangeReport>,
) -> (Seq<Option<Seq<char>>>, PollStage)
    decreases reports.len(),
{
    if reports.len() == 0 {
        (Seq::empty(), PollStage::Running(cursor))
    } else {
        let report = reports[0];
        if report.invalid_token {
            (Seq::empty(), PollStage::Finished(None))
        } else {
            let next = next_token(cursor, report.state);
            let rings = round_rings(baseline, report, next);
            if drains_again(report.truncated, next, cursor) {
                let rest = poll_rounds(baseline, next, reports.drop_first());
                (rings + rest.0, rest.1)
            } else {
                (rings, PollStage::Finished(next))
            }
        }
    }
}

/// One round more after a poll that is still running from `cursor`.
pub proof fn lemma_poll_rounds_push(
    baseline: bool,
    start: Option<Seq<char>>,
    reports: Seq<ChangeReport>,
    cursor: Option<Seq<char>>,
    report: ChangeReport,
)
    requires
        poll_rounds(baseline, start, reports).1 == PollStage::Running(cursor),
    ensures
        ({
            let before = poll_rounds(baseline, start, reports);
            let after = poll_rounds(baseline, start, reports.push(report));
            let next = next_token(cursor, report.state);
            if report.invalid_token {
                after == (before.0, PollStage::Finished(None))
            } else if drains_again(report.truncated, next, cursor) {
                after == (before.0 + round_rings(baseline, report, next), PollStage::Running(next))
            } else {
                after == (before.0 + round_rings(baseline, report, next), PollStage::Finished(next))
            }
        }),
    decreases reports.len(),
{
    let all = reports.push(report);
    if reports.len() == 0 {
        assert(all.drop_first() =~= Seq::<ChangeReport>::empty());
        assert(poll_rounds(baseline, start, reports).0 =~= Seq::empty());
        let next = next_token(cursor, report.state);
        if !report.invalid_token && drains_again(report.truncated, next, cursor) {
            let rest = poll_rounds(baseline, next, all.drop_first());
            assert(rest.0 =~= Seq::empty());
            assert(round_rings(baseline, report, next) + rest.0 =~= round_rings(baseline, report, next));
        }
        assert(Seq::<Option<Seq<char>>>::empty() + round_rings(baseline, report, next)
            =~= round_rings(baseline, report, next));
    } else {
        let first = reports[0];
        let next0 = next_token(start, first.state);
        assert(all[0] == first);
        assert(all.drop_first() =~= reports.drop_first().push(report));
        lemma_poll_rounds_push(baseline, next0, reports.drop_first(), cursor, report);
        let rings0 = round_rings(baseline, first, next0);
        let rest_before = poll_rounds(baseline, next0, reports.drop_first());
        let next = next_token(cursor, report.state);
        if !report.invalid_token {
            assert(rings0 + (rest_before.0 + round_rings(baseline, report, next)) =~= (rings0
                + rest_before.0) + round_rings(baseline, report, next));
        }
    }
}

/// A baseline poll (one that starts without a token) never rings, whatever the
/// server reports in any number of rounds.
pub proof fn lemma_baseline_poll_never_rings(cursor: Option<Seq<char>>, reports: Seq<ChangeReport>)
    ensures
        poll_rounds(true, cursor, reports).0 == Seq::<Option<Seq<char>>>::empty(),
    decreases reports.len(),
{
    if reports.len() > 0 {
        let report = reports[0];
        let next = next_token(cursor, report.state);
        lemma_baseline_poll_never_rings(next, reports.drop_first());
        assert(round_rings(true, report, next) + poll_rounds(true, next, reports.drop_first()).0
            =~= Seq::<Option<Seq<char>>>::empty());
    }
}

/// A poll rings at most once per round.
pub proof fn lemma_at_most_one_ring_per_round(
    baseline: bool,
    cursor: Option<Seq<char>>,
    reports: Seq<ChangeReport>,
)
    ensures
        poll_rounds(baseline, cursor, reports).0.len() <= reports.len(),
    decreases reports.len(),
{
    if reports.len() > 0 {
        let report = reports[0];
        let next = next_token(cursor, report.state);
        lemma_at_most_one_ring_per_round(baseline, next, reports.drop_first());
    }
}

/// When the first round accepts the token but reports no new one, the poll ends
/// there and persists the token it started from: nothing changed, nothing moves.
pub proof fn lemma_no_new_token_keeps_checkpoint(
    baseline: bool,
    cursor: Option<Seq<char>>,
    reports: Seq<ChangeReport>,
)
    requires
        reports.len() > 0,
        !reports[0].invalid_token,
        reports[0].state is None,
    ensures
        poll_rounds(baseline, cursor, reports).1 == PollStage::Finished(cursor),
{
}

/// When the server rejects the token, the poll ends asking for a fresh baseline
/// (`None`), whatever came before.
pub proof fn lemma_rejected_token_resets(
    baseline: bool,
    start: Option<Seq<char>>,
    reports: Seq<ChangeReport>,
    cursor: Option<Seq<char>>,
    report: ChangeReport,
)
    requires
        poll_rounds(baseline, start, reports).1 == PollStage::Running(cursor),
        report.invalid_token,
    ensures
        poll_rounds(baseline, start, reports.push(report)).1 == PollStage::Finished(None),
{
    lemma_poll_rounds_push(baseline, start, reports, cursor, report);
}

/// The server's reported sync-token always becomes the poll's token: after a round
/// that accepts the token and reports `t`, the poll stands at `t` (another round
/// runs from it, or the poll ends with `t` to persist), and the round rang with `t`
/// or not at all, whatever token it ran from.
pub proof fn lemma_reported_token_is_checkpointed(
    baseline: bool,
    start: Option<Seq<char>>,
    reports: Seq<ChangeReport>,
    cursor: Option<Seq<char>>,
    report: ChangeReport,
    t: Seq<char>,
)
    requires
        poll_rounds(baseline, start, reports).1 == PollStage::Running(cursor),
        !report.invalid_token,
        report.state == Some(t),
    ensures
        ({
            let before = poll_rounds(baseline, start, reports);
            let after = poll_rounds(baseline, start, reports.push(report));
            &&& after.1 == PollStage::Running(Some(t)) || after.1 == PollStage::Finished(Some(t))
            &&& after.0 == before.0 || after.0 == before.0.push(Some(t))
        }),
{
    lemma_poll_rounds_push(baseline, start, reports, cursor, report);
    let before = poll_rounds(baseline, start, reports);
    assert(before.0 + Seq::<Option<Seq<char>>>::empty() =~= before.0);
    assert(before.0 + seq![Some(t)] =~= before.0.push(Some(t)));
}

/// What the poll pump does next.
#[derive(Debug)]
pub enum PollAction {
    /// Open a fresh connection and run one poll coroutine from this token
    /// (`None`: a baseline enumeration).
    Exchange(Option<String>),
    /// Put this event into the delivery channel.
    Deliver(ChangeEvent),
    /// End the poll: the token to persist, or why it stopped.
    Finish(Result<Option<String>, PumpError>),
}

/// Where the pump is in its loop.
enum PollPhase {
    /// Waiting for a round's result.
    Exchanging,
    /// Waiting for the delivery of a ring; then another round from the token
    /// (`true`) or the end with it (`false`).
    Delivering(bool, Option<String>),
    /// The poll is over.
    Done,
}

/// One poll of a CardDAV collection: the pump's loop state.
pub struct PollOnce {
    watch_id: String,
    url: String,
    baseline: bool,
    cursor: Option<String>,
    phase: PollPhase,
    start: Ghost<Option<Seq<char>>>,
    reports: Ghost<Seq<ChangeReport>>,
    rings: Ghost<Seq<Option<Seq<char>>>>,
}

/// A copy of a token.
fn copy_token(token: &Option<String>) -> (r: Option<String>)
    ensures
        r == *token,
{
    match token {
        Some(t) => Some(t.clone()),
        None => None,
    }
}

/// Whether two tokens are the same.
fn same_token(a: &Option<String>, b: &Option<String>) -> (r: bool)
    ensures
        r == (a.deep_view() == b.deep_view()),
{
    match (a, b) {
        (Some(x), Some(y)) => *x == *y,
        (None, None) => true,
        _ => false,
    }
}

impl PollOnce {
    /// The poll started without a token.
    pub closed spec fn is_baseline(&self) -> bool {
        self.baseline
    }

    /// The token the poll started from.
    pub closed spec fn start(&self) -> Option<Seq<char>> {
        self.start@
    }

    /// The rounds reported so far, in order.
    pub closed spec fn reports(&self) -> Seq<ChangeReport> {
        self.reports@
    }

    /// The tokens of the rings emitted so far, in order.
    pub closed spec fn rings(&self) -> Seq<Option<Seq<char>>> {
        self.rings@
    }

    /// The watch every ring belongs to.
    pub closed spec fn watch_id_view(&self) -> Seq<char> {
        self.watch_id@
    }

    /// The collection every ring names.
    pub closed spec fn url_view(&self) -> Seq<char> {
        self.url@
    }

    /// The token the pending round runs from: the one the last `Exchange` named.
    pub closed spec fn round_token(&self) -> Option<Seq<char>> {
        self.cursor.deep_view()
    }

    /// The pump waits for a round's result.
    pub closed spec fn awaits_round(&self) -> bool {
        self.phase is Exchanging
    }

    /// The pump waits for a delivery.
    pub closed spec fn awaits_delivery(&self) -> bool {
        self.phase is Delivering
    }

    /// The pump's state agrees with the poll over the rounds reported so far.
    pub closed spec fn wf(&self) -> bool {
        &&& self.baseline == (self.start@ is None)
        &&& match self.phase {
            PollPhase::Exchanging => poll_rounds(self.baseline, self.start@, self.reports@) == (
            self.rings@, PollStage::Running(self.cursor.deep_view())),
            PollPhase::Delivering(again, next) => {
                &&& self.rings@.len() > 0
                &&& self.rings@.last() == next.deep_view()
                &&& poll_rounds(self.baseline, self.start@, self.reports@) == (self.rings@, if again {
                    PollStage::Running(next.deep_view())
                } else {
                    PollStage::Finished(next.deep_view())
                })
            },
            PollPhase::Done => true,
        }
    }

    /// A poll of the collection `url` for the watch `watch_id`, from the last
    /// checkpoint `token`; its first round runs from `token`.
    pub fn new(watch_id: &str, url: &str, token: Option<String>) -> (r: (PollOnce, PollAction))
        ensures
            r.0.wf(),
            r.0.awaits_round(),
            r.0.is_baseline() == (token is None),
            r.0.start() == token.deep_view(),
            r.0.reports() == Seq::<ChangeReport>::empty(),
            r.0.rings() == Seq::<Option<Seq<char>>>::empty(),
            r.0.watch_id_view() == watch_id@,
            r.0.url_view() == url@,
            r.0.round_token() == token.deep_view(),
            r.1 == PollAction::Exchange(token),
    {
        let baseline = token.is_none();
        let first = copy_token(&token);
        let poll = PollOnce {
            watch_id: watch_id.to_owned(),
            url: url.to_owned(),
            baseline,
            cursor: token,
            phase: PollPhase::Exchanging,
            start: Ghost(first.deep_view()),
            reports: Ghost(Seq::empty()),
            rings: Ghost(Seq::empty()),
        };
        (poll, PollAction::Exchange(first))
    }

    /// After a delivery, or a round without a ring: another round from `next`, or
    /// the end with `next`.
    fn proceed(&mut self, again: bool, next: Option<String>) -> (a: PollAction)
        requires
            old(self).baseline == (old(self).start@ is None),
            poll_rounds(old(self).baseline, old(self).start@, old(self).reports@) == (
            old(self).rings@, if again {
                PollStage::Running(next.deep_view())
            } else {
                PollStage::Finished(next.deep_view())
            }),
        ensures
            final(self).wf(),
            final(self).baseline == old(self).baseline,
            final(self).start == old(self).start,
            final(self).reports == old(self).reports,
            final(self).rings == old(self).rings,
            final(self).watch_id == old(self).watch_id,
            final(self).url == old(self).url,
            again ==> a == PollAction::Exchange(next) && final(self).awaits_round()
                && final(self).round_token() == next.deep_view(),
            !again ==> a == PollAction::Finish(Ok(next)) && final(self).phase is Done,
    {
        if again {
            self.cursor = copy_token(&next);
            self.phase = PollPhase::Exchanging;
            PollAction::Exchange(next)
        } else {
            self.phase = PollPhase::Done;
            PollAction::Finish(Ok(next))
        }
    }

    /// The pump's answer to a round's result. A rejected token ends the poll with
    /// `None`. Otherwise the token moves to the server's new one (or stays); a
    /// round that saw a change rings once, unless this is a baseline poll; and the
    /// poll runs another round only when the result set was truncated and the
    /// token moved forward.
    pub fn on_round(&mut self, change: PollChange) -> (a: PollAction)
        requires
            old(self).wf(),
            old(self).awaits_round(),
        ensures
            final(self).wf(),
            final(self).is_baseline() == old(self).is_baseline(),
            final(self).start() == old(self).start(),
            final(self).watch_id_view() == old(self).watch_id_view(),
            final(self).url_view() == old(self).url_view(),
            final(self).reports() == old(self).reports().push(change.report()),
            ({
                let cursor = poll_rounds(old(self).is_baseline(), old(self).start(), old(self).reports()).1->Running_0;
                let next = next_token(cursor, change.state.deep_view());
                if change.invalid_token {
                    &&& a == PollAction::Finish(Ok(None))
                    &&& final(self).rings() == old(self).rings()
                } else if !old(self).is_baseline() && change.changed {
                    &&& a matches PollAction::Deliver(ev) && {
                        &&& is_event_id(ev.id@)
                        &&& ev.ts >= 0
                        &&& ev.account@ == old(self).watch_id_view()
                        &&& ev.source@ == "carddav"@
                        &&& ev.target@ == old(self).url_view()
                        &&& ev.state.deep_view() == next
                    }
                    &&& final(self).awaits_delivery()
                    &&& final(self).rings() == old(self).rings().push(next)
                } else if drains_again(change.truncated, next, cursor) {
                    &&& a matches PollAction::Exchange(token) && token.deep_view() == next
                    &&& final(self).awaits_round()
                    &&& final(self).rings() == old(self).rings()
                } else {
                    &&& a matches PollAction::Finish(Ok(token)) && token.deep_view() == next
                    &&& final(self).rings() == old(self).rings()
                }
            }),
            !change.invalid_token ==> ({
                let carried = match a {
                    PollAction::Deliver(ev) => ev.state.deep_view(),
                    PollAction::Exchange(token) => token.deep_view(),
                    PollAction::Finish(Ok(token)) => token.deep_view(),
                    PollAction::Finish(Err(_)) => None,
                };
                &&& !(a matches PollAction::Finish(Err(_)))
                &&& change.state matches Some(t) ==> carried == Some(t@)
                &&& change.state is None ==> carried == old(self).round_token()
                &&& a is Deliver ==> final(self).rings().last() == carried
                &&& a is Exchange ==> final(self).round_token() == carried
            }),
            a matches PollAction::Finish(Ok(token)) ==> poll_rounds(
                final(self).is_baseline(),
                final(self).start(),
                final(self).reports(),
            ) == (final(self).rings(), PollStage::Finished(token.deep_view())),
            a matches PollAction::Exchange(token) ==> poll_rounds(
                final(self).is_baseline(),
                final(self).start(),
                final(self).reports(),
            ) == (final(self).rings(), PollStage::Running(token.deep_view())),
    {
        let ghost cursor = self.cursor.deep_view();
        proof {
            lemma_poll_rounds_push(self.baseline, self.start@, self.reports@, cursor, change.report());
            self.reports@ = self.reports@.push(change.report());
        }
        if change.invalid_token {
            self.phase = PollPhase::Done;
            return PollAction::Finish(Ok(None));
        }
        let next = match change.state {
            Some(token) => Some(token),
            None => copy_token(&self.cursor),
        };
        let again = change.truncated && next.is_some() && !same_token(&next, &self.cursor);
        if !self.baseline && change.changed {
            let ev = ChangeEvent::new(self.watch_id.as_str(), "carddav", self.url.as_str(), copy_token(&next));
            proof {
                assert(round_rings(self.baseline, change.report(), next.deep_view()) == seq![next.deep_view()]);
                assert(self.rings@ + seq![next.deep_view()] =~= self.rings@.push(next.deep_view()));
                self.rings@ = self.rings@.push(next.deep_view());
                assert(again == drains_again(change.truncated, next.deep_view(), cursor));
            }
            self.phase = PollPhase::Delivering(again, next);
            PollAction::Deliver(ev)
        } else {
            proof {
                assert(self.rings@ + round_rings(self.baseline, change.report(), next.deep_view()) =~= self.rings@);
            }
            self.proceed(again, next)
        }
    }

    /// The pump's answer to the delivery of a ring: after it went through, the
    /// poll goes on as the round decided; a closed channel ends the poll.
    pub fn on_delivery(&mut self, delivered: bool) -> (a: PollAction)
        requires
            old(self).wf(),
            old(self).awaits_delivery(),
        ensures
            final(self).wf(),
            final(self).is_baseline() == old(self).is_baseline(),
            final(self).start() == old(self).start(),
            final(self).watch_id_view() == old(self).watch_id_view(),
            final(self).url_view() == old(self).url_view(),
            final(self).reports() == old(self).reports(),
            final(self).rings() == old(self).rings(),
            !delivered ==> a == PollAction::Finish(Err(PumpError::ChannelClosed)),
            delivered ==> match a {
                PollAction::Exchange(token) => token.deep_view() == old(self).rings().last()
                    && final(self).round_token() == token.deep_view(),
                PollAction::Finish(Ok(token)) => token.deep_view() == old(self).rings().last(),
                _ => false,
            },
            delivered ==> ({
                let stage = poll_rounds(old(self).is_baseline(), old(self).start(), old(self).reports()).1;
                match stage {
                    PollStage::Running(token) => a matches PollAction::Exchange(t) && t.deep_view() == token
                        && final(self).awaits_round(),
                    PollStage::Finished(token) => a matches PollAction::Finish(Ok(t)) && t.deep_view()
                        == token,
                }
            }),
            a matches PollAction::Finish(Ok(token)) ==> poll_rounds(
                final(self).is_baseline(),
                final(self).start(),
                final(self).reports(),
            ) == (final(self).rings(), PollStage::Finished(token.deep_view())),
            a matches PollAction::Exchange(token) ==> poll_rounds(
                final(self).is_baseline(),
                final(self).start(),
                final(self).reports(),
            ) == (final(self).rings(), PollStage::Running(token.deep_view())),
    {
        let mut phase = PollPhase::Done;
        std::mem::swap(&mut phase, &mut self.phase);
        match phase {
            PollPhase::Delivering(again, next) => {
                if !delivered {
                    return PollAction::Finish(Err(PumpError::ChannelClosed));
                }
                self.proceed(again, next)
            },
            _ => PollAction::Finish(Err(PumpError::ChannelClosed)),
        }
    }
}

} // verus!
