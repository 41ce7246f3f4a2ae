//! The server's state: the requests, and what may become of each.
//!
//! A [`Store`] holds every request in the order of its id, which is the order
//! they were filed in. Each method is one step a request may take. A step that a
//! request may not take is refused, and a refusal changes nothing.

use vstd::prelude::*;
use vstd::string::*;

use crate::config::FILING_WINDOW_MS;
use crate::lifecycle;
use crate::request;
use crate::request::{DraftView, RequestView};
use crate::text;
use crate::text::{less, number, owned, padded_number, quoted, same, trim};

pub use crate::request::{Draft, Request, RequestState, Serves};

verus! {

/// How long a claim may stand before the request returns to the queue.
///
/// Generous on purpose: reclaiming a live draft puts two daemons on one tree,
/// while a dead daemon only keeps its repository waiting a while longer.
pub const CLAIM_TIMEOUT_MS: u64 = 20 * 60 * 1000;

// ---------------------------------------------------------------------------
// Refusals
// ---------------------------------------------------------------------------

/// Why a step was refused.
pub enum StoreError {
    /// Nothing has that id.
    NoSuchRequest { id: String },
    /// A report on a request whose claim is gone.
    NotClaimed { id: String, state: RequestState },
    /// A report on a request that another daemon holds.
    HeldByAnother { id: String, holder: String, by: String },
    /// An approval of something nobody may approve now.
    NotForApproval { id: String, state: RequestState },
    /// An approval where there is no draft.
    NoDraft { id: String },
    /// An approval of a text other than the one that was read.
    SpecChanged,
    /// A verdict on something that is not being screened.
    NotScreening { id: String, state: RequestState },
    /// A release of something that is not held.
    NotQuarantined { id: String, state: RequestState },
    /// A send-back of something nobody is reviewing.
    NotForSendBack { id: String, state: RequestState },
    /// A send-back that does not say what to change.
    NoteMissing,
    /// A discard of something that was approved.
    Settled { id: String },
}

/// Why a step was refused, as contracts speak of it.
pub enum Refusal {
    NoSuchRequest { id: Seq<char> },
    NotClaimed { id: Seq<char>, state: RequestState },
    HeldByAnother { id: Seq<char>, holder: Seq<char>, by: Seq<char> },
    NotForApproval { id: Seq<char>, state: RequestState },
    NoDraft { id: Seq<char> },
    SpecChanged,
    NotScreening { id: Seq<char>, state: RequestState },
    NotQuarantined { id: Seq<char>, state: RequestState },
    NotForSendBack { id: Seq<char>, state: RequestState },
    NoteMissing,
    Settled { id: Seq<char> },
}

impl View for StoreError {
    type V = Refusal;

    open spec fn view(&self) -> Refusal {
        match self {
            StoreError::NoSuchRequest { id } => Refusal::NoSuchRequest { id: id@ },
            StoreError::NotClaimed { id, state } => Refusal::NotClaimed { id: id@, state: *state },
            StoreError::HeldByAnother { id, holder, by } => Refusal::HeldByAnother {
                id: id@,
                holder: holder@,
                by: by@,
            },
            StoreError::NotForApproval { id, state } => Refusal::NotForApproval {
                id: id@,
                state: *state,
            },
            StoreError::NoDraft { id } => Refusal::NoDraft { id: id@ },
            StoreError::SpecChanged => Refusal::SpecChanged,
            StoreError::NotScreening { id, state } => Refusal::NotScreening {
                id: id@,
                state: *state,
            },
            StoreError::NotQuarantined { id, state } => Refusal::NotQuarantined {
                id: id@,
                state: *state,
            },
            StoreError::NotForSendBack { id, state } => Refusal::NotForSendBack {
                id: id@,
                state: *state,
            },
            StoreError::NoteMissing => Refusal::NoteMissing,
            StoreError::Settled { id } => Refusal::Settled { id: id@ },
        }
    }
}

/// What the caller is told of a refusal.
pub open spec fn refusal_text(r: Refusal) -> Seq<char> {
    match r {
        Refusal::NoSuchRequest { id } => "no request "@ + text::quoted_text(id),
        Refusal::NotClaimed { id, state } => "request "@ + text::quoted_text(id) + " is "@ + request::state_label(
            state,
        ) + " rather than claimed — its claim was reclaimed after "@ + text::decimal(
            (CLAIM_TIMEOUT_MS / 60_000) as nat,
        ) + " minutes, and this report arrived too late to be recorded"@,
        Refusal::HeldByAnother { id, holder, by } => "request "@ + text::quoted_text(id)
            + " is claimed by "@ + text::quoted_text(holder) + ", not by "@ + text::quoted_text(by)
            + " — this claim was reclaimed after "@ + text::decimal((CLAIM_TIMEOUT_MS / 60_000) as nat)
            + " minutes and another daemon took it, so this report arrived too late to be recorded"@,
        Refusal::NotForApproval { id, state } => "request "@ + id + " is "@ + request::state_label(state)
            + " — only one awaiting review can be approved"@,
        Refusal::NoDraft { id } => "request "@ + id + " has no drafted spec to approve"@,
        Refusal::SpecChanged =>
            "the spec changed after you opened it — a redraft arrived while you were reading. Read it again before approving; approving now would sign off text you have not seen."@,
        Refusal::NotScreening { id, state } => "request "@ + id + " is "@ + request::state_label(state)
            + " — only one being screened can take a verdict"@,
        Refusal::NotQuarantined { id, state } => "request "@ + id + " is "@ + request::state_label(state)
            + " — only a quarantined one can be released"@,
        Refusal::NotForSendBack { id, state } => "request "@ + id + " is "@ + request::state_label(state)
            + " — only one awaiting review can be sent back"@,
        Refusal::NoteMissing =>
            "a send-back needs a note saying what to change — without one the redraft has nothing to go on and will likely produce the same spec"@,
        Refusal::Settled { id } => "request "@ + id
            + " was approved — its spec is settled in the repository. Discarding here would erase the decision without touching the file. Delete the spec in your IDE instead."@,
    }
}

impl StoreError {
    /// What the caller is told.
    pub fn message(&self) -> (r: String)
        ensures
            r@ == refusal_text(self@),
    {
        match self {
            StoreError::NoSuchRequest { id } => owned("no request ").concat(
                quoted(id.as_str()).as_str(),
            ),
            StoreError::NotClaimed { id, state } => owned("request ").concat(
                quoted(id.as_str()).as_str(),
            ).concat(" is ").concat(state.label()).concat(
                " rather than claimed — its claim was reclaimed after ",
            ).concat(number(CLAIM_TIMEOUT_MS / 60_000).as_str()).concat(
                " minutes, and this report arrived too late to be recorded",
            ),
            StoreError::HeldByAnother { id, holder, by } => owned("request ").concat(
                quoted(id.as_str()).as_str(),
            ).concat(" is claimed by ").concat(quoted(holder.as_str()).as_str()).concat(
                ", not by ",
            ).concat(quoted(by.as_str()).as_str()).concat(
                " — this claim was reclaimed after ",
            ).concat(number(CLAIM_TIMEOUT_MS / 60_000).as_str()).concat(
                " minutes and another daemon took it, so this report arrived too late to be recorded",
            ),
            StoreError::NotForApproval { id, state } => owned("request ").concat(
                id.as_str(),
            ).concat(" is ").concat(state.label()).concat(
                " — only one awaiting review can be approved",
            ),
            StoreError::NoDraft { id } => owned("request ").concat(id.as_str()).concat(
                " has no drafted spec to approve",
            ),
            StoreError::SpecChanged => owned(
                "the spec changed after you opened it — a redraft arrived while you were reading. Read it again before approving; approving now would sign off text you have not seen.",
            ),
            StoreError::NotScreening { id, state } => owned("request ").concat(id.as_str()).concat(
                " is ",
            ).concat(state.label()).concat(" — only one being screened can take a verdict"),
            StoreError::NotQuarantined { id, state } => owned("request ").concat(
                id.as_str(),
            ).concat(" is ").concat(state.label()).concat(
                " — only a quarantined one can be released",
            ),
            StoreError::NotForSendBack { id, state } => owned("request ").concat(
                id.as_str(),
            ).concat(" is ").concat(state.label()).concat(
                " — only one awaiting review can be sent back",
            ),
            StoreError::NoteMissing => owned(
                "a send-back needs a note saying what to change — without one the redraft has nothing to go on and will likely produce the same spec",
            ),
            StoreError::Settled { id } => owned("request ").concat(id.as_str()).concat(
                " was approved — its spec is settled in the repository. Discarding here would erase the decision without touching the file. Delete the spec in your IDE instead.",
            ),
        }
    }
}

/// Unix milliseconds, through `std::time::SystemTime::now`. What the clock says
/// is not known beforehand, so nothing is claimed of the result.
#[verifier::external_body]
pub fn now_ms() -> (r: u64)
{
    std::time::SystemTime::now()
        .duration_since(std::time::UNIX_EPOCH)
        .map(|d| d.as_millis() as u64)
        .unwrap_or(0)
}

// ---------------------------------------------------------------------------
// The steps a record may take
// ---------------------------------------------------------------------------

/// A record without the marks of a claim, unless it is claimed.
pub open spec fn cleaned(r: RequestView) -> RequestView {
    if r.state == RequestState::Claimed {
        r
    } else {
        RequestView { claimed_ms: None, claimed_by: None, ..r }
    }
}

/// Has a claim outlived [`CLAIM_TIMEOUT_MS`]?
///
/// A claim from the future has not: a clock that jumped back must not take work
/// from a daemon that is doing it.
pub open spec fn stale(r: RequestView, now_ms: u64) -> bool {
    r.state == RequestState::Claimed && match r.claimed_ms {
        Some(t) => now_ms - t >= CLAIM_TIMEOUT_MS,
        None => false,
    }
}

/// What a page says of a claim that ran out.
pub open spec fn reclaim_note() -> Seq<char> {
    "the daemon that claimed this stopped responding, so it went back to the queue"@
}

/// A record after stale claims were looked for: one that outlived the timeout is
/// queued again, and a claim that was never stamped is stamped now.
pub open spec fn reclaimed(r: RequestView, now_ms: u64) -> RequestView {
    if stale(r, now_ms) {
        RequestView {
            state: RequestState::Queued,
            claimed_ms: None,
            claimed_by: None,
            note: Some(reclaim_note()),
            ..r
        }
    } else if r.state == RequestState::Claimed && r.claimed_ms is None {
        RequestView { claimed_ms: Some(now_ms), ..r }
    } else {
        r
    }
}

/// Every record after stale claims were looked for.
pub open spec fn all_reclaimed(s: Seq<RequestView>, now_ms: u64) -> Seq<RequestView> {
    s.map_values(|r: RequestView| reclaimed(r, now_ms))
}

/// A record handed to a daemon: stamped, held, and one drafting run dearer. Runs
/// that left the window are forgotten.
pub open spec fn claimed_as(r: RequestView, by: Seq<char>, now_ms: u64) -> RequestView {
    RequestView {
        state: RequestState::Claimed,
        claimed_ms: Some(now_ms),
        claimed_by: Some(by),
        drafts: r.drafts.push(now_ms).filter(|t: u64| now_ms - t <= FILING_WINDOW_MS),
        ..r
    }
}

/// A record whose draft came back.
pub open spec fn drafted(
    r: RequestView,
    spec_text: DraftView,
    artifact_dir: Seq<char>,
    now_ms: u64,
) -> RequestView {
    RequestView {
        state: RequestState::AwaitingReview,
        spec: Some(spec_text),
        artifact_dir: Some(artifact_dir),
        drafted_ms: Some(now_ms),
        send_back_note: None,
        note: None,
        ..r
    }
}

/// A record that a daemon could not draft.
pub open spec fn failed(r: RequestView, reason: Seq<char>) -> RequestView {
    RequestView { state: RequestState::Failed, note: Some(reason), ..r }
}

/// A record that a daemon handed back undone.
pub open spec fn handed_back(r: RequestView, by: Seq<char>, reason: Seq<char>) -> RequestView {
    RequestView {
        state: RequestState::Queued,
        claimed_ms: None,
        claimed_by: None,
        note: Some(by + " handed this back: "@ + reason),
        ..r
    }
}

/// A record that was sent back to be drafted again.
pub open spec fn sent_back(r: RequestView, notes: Seq<char>) -> RequestView {
    RequestView {
        state: RequestState::Queued,
        send_back_note: Some(text::trimmed(notes)),
        note: Some("sent back: "@ + text::trimmed(notes)),
        spec: None,
        ..r
    }
}

/// A record that the screener judged.
pub open spec fn screened(r: RequestView, quarantine: Option<Seq<char>>) -> RequestView {
    match quarantine {
        Some(reason) => RequestView {
            state: RequestState::Quarantined,
            note: Some(reason),
            ..r
        },
        None => RequestView { state: RequestState::Queued, ..r },
    }
}

/// A record moved to a state, with nothing else changed.
pub open spec fn moved(r: RequestView, state: RequestState) -> RequestView {
    RequestView { state, ..r }
}

// ---------------------------------------------------------------------------
// The records together
// ---------------------------------------------------------------------------

/// The records as contracts speak of them.
pub open spec fn views(v: Seq<Request>) -> Seq<RequestView> {
    v.map_values(|r: Request| r@)
}

/// The records stand in the order of their ids, no id twice, and only a claimed
/// one carries the marks of a claim.
pub open spec fn well_kept(s: Seq<RequestView>) -> bool {
    &&& forall|i: int, j: int| 0 <= i < j < s.len() ==> text::sorts_before(#[trigger] s[i].id, #[trigger] s[j].id)
    &&& forall|i: int| 0 <= i < s.len() ==> (#[trigger] s[i]) == cleaned(s[i])
}

/// Where the record with an id stands.
pub open spec fn position(s: Seq<RequestView>, id: Seq<char>) -> Option<int> {
    if exists|i: int| 0 <= i < s.len() && s[i].id == id {
        Some(choose|i: int| 0 <= i < s.len() && s[i].id == id)
    } else {
        None
    }
}

/// The record with an id.
pub open spec fn record(s: Seq<RequestView>, id: Seq<char>) -> Option<RequestView> {
    match position(s, id) {
        Some(i) => Some(s[i]),
        None => None,
    }
}

/// How many records in front sort before an id.
pub open spec fn rank(s: Seq<RequestView>, id: Seq<char>) -> int
    decreases s.len(),
{
    if s.len() > 0 && text::sorts_before(s[0].id, id) {
        1 + rank(s.skip(1), id)
    } else {
        0
    }
}

/// The records with one written: in place of the one with its id, or where its
/// id sorts.
pub open spec fn with_record(s: Seq<RequestView>, r: RequestView) -> Seq<RequestView> {
    match position(s, r.id) {
        Some(i) => s.update(i, r),
        None => s.insert(rank(s, r.id), r),
    }
}

/// An id stands in one place only.
pub proof fn lemma_position(s: Seq<RequestView>, id: Seq<char>, i: int)
    requires
        well_kept(s),
        0 <= i < s.len(),
        s[i].id == id,
    ensures
        position(s, id) == Some(i),
{
    let k = position(s, id).unwrap();
    assert(s[k].id == id);
    text::lemma_order_irreflexive(id);
    if k < i {
        assert(text::sorts_before(s[k].id, s[i].id));
    }
    if i < k {
        assert(text::sorts_before(s[i].id, s[k].id));
    }
}

proof fn lemma_rank(s: Seq<RequestView>, id: Seq<char>, n: int)
    requires
        0 <= n <= s.len(),
        forall|i: int| 0 <= i < n ==> text::sorts_before(#[trigger] s[i].id, id),
        n < s.len() ==> !text::sorts_before(s[n].id, id),
    ensures
        rank(s, id) == n,
    decreases n,
{
    if n > 0 {
        assert(text::sorts_before(s[0].id, id));
        let t = s.skip(1);
        assert forall|i: int| 0 <= i < n - 1 implies text::sorts_before(#[trigger] t[i].id, id) by {
            assert(t[i] == s[i + 1]);
        }
        lemma_rank(t, id, n - 1);
    }
}

/// Writing over a record keeps the records well kept.
proof fn lemma_replaced_kept(s: Seq<RequestView>, i: int, r: RequestView)
    requires
        well_kept(s),
        r == cleaned(r),
        position(s, r.id) == Some(i),
    ensures
        well_kept(s.update(i, r)),
        record(s.update(i, r), r.id) == Some(r),
        forall|id: Seq<char>|
            id != r.id ==> #[trigger] record(s.update(i, r), id) == record(s, id),
{
    let t = s.update(i, r);
    assert(s[i].id == r.id);
    assert forall|a: int, b: int| 0 <= a < b < t.len() implies text::sorts_before(
        #[trigger] t[a].id,
        #[trigger] t[b].id,
    ) by {
        assert(text::sorts_before(s[a].id, s[b].id));
    }
    assert forall|a: int| 0 <= a < t.len() implies (#[trigger] t[a]) == cleaned(t[a]) by {
        assert(s[a] == cleaned(s[a]));
    }
    lemma_position(t, r.id, i);
    assert forall|id: Seq<char>| id != r.id implies #[trigger] record(t, id) == record(
        s,
        id,
    ) by {
        if position(s, id) is Some {
            let k = position(s, id).unwrap();
            assert(t[k] == s[k]);
            lemma_position(t, id, k);
        }
        if position(t, id) is Some {
            let k = position(t, id).unwrap();
            assert(t[k].id == id);
            assert(t[k] == s[k]);
        }
    }
}

/// Writing a new record where its id sorts keeps the records well kept.
#[verifier::spinoff_prover]
proof fn lemma_inserted_sorted(s: Seq<RequestView>, r: RequestView)
    requires
        well_kept(s),
        r == cleaned(r),
        position(s, r.id) is None,
    ensures
        0 <= rank(s, r.id) <= s.len(),
        well_kept(s.insert(rank(s, r.id), r)),
{
    let t = s.insert(rank(s, r.id), r);
    lemma_rank_bounds(s, r.id);
    let n = rank(s, r.id);
    assert forall|i: int| 0 <= i < s.len() implies (i < n ==> text::sorts_before(
        #[trigger] s[i].id,
        r.id,
    )) && (i >= n ==> text::sorts_before(r.id, s[i].id)) by {
        assert(s[i].id != r.id);
        text::lemma_order_total(s[i].id, r.id);
        if i >= n {
            if i > n {
                assert(text::sorts_before(s[n].id, s[i].id));
                assert(s[n].id != r.id);
                text::lemma_order_total(s[n].id, r.id);
                text::lemma_order_transitive(r.id, s[n].id, s[i].id);
            }
        }
    }
    assert forall|a: int, b: int| 0 <= a < b < t.len() implies text::sorts_before(
        #[trigger] t[a].id,
        #[trigger] t[b].id,
    ) by {
        let i = if a < n {
            a
        } else {
            a - 1
        };
        let j = if b < n {
            b
        } else {
            b - 1
        };
        if a != n && b != n {
            assert(t[a] == s[i] && t[b] == s[j]);
        } else if a == n {
            assert(t[b] == s[j]);
        } else {
            assert(t[a] == s[i]);
        }
    }
    assert forall|a: int| 0 <= a < t.len() implies (#[trigger] t[a]) == cleaned(t[a]) by {
        if a < n {
            assert(t[a] == s[a]);
        } else if a > n {
            assert(t[a] == s[a - 1]);
        }
    }
}

/// A new record is found, and every other where it was.
#[verifier::spinoff_prover]
proof fn lemma_inserted_found(s: Seq<RequestView>, r: RequestView)
    requires
        well_kept(s),
        position(s, r.id) is None,
        0 <= rank(s, r.id) <= s.len(),
        well_kept(s.insert(rank(s, r.id), r)),
    ensures
        record(s.insert(rank(s, r.id), r), r.id) == Some(r),
        forall|id: Seq<char>|
            id != r.id ==> #[trigger] record(s.insert(rank(s, r.id), r), id) == record(s, id),
{
    let n = rank(s, r.id);
    let t = s.insert(n, r);
    assert(t[n] == r);
    lemma_position(t, r.id, n);
    assert forall|id: Seq<char>| id != r.id implies #[trigger] record(t, id) == record(
        s,
        id,
    ) by {
        if position(s, id) is Some {
            let k = position(s, id).unwrap();
            let m = if k < n {
                k
            } else {
                k + 1
            };
            assert(t[m] == s[k]);
            lemma_position(t, id, m);
        }
        if position(t, id) is Some {
            let m = position(t, id).unwrap();
            assert(t[m].id == id);
            let k = if m < n {
                m
            } else {
                m - 1
            };
            assert(m != n);
            assert(t[m] == s[k]);
            assert(s[k].id == id);
        }
    }
}

/// Writing a record keeps the records well kept.
pub proof fn lemma_with_record_kept(s: Seq<RequestView>, r: RequestView)
    requires
        well_kept(s),
        r == cleaned(r),
    ensures
        well_kept(with_record(s, r)),
        record(with_record(s, r), r.id) == Some(r),
        forall|id: Seq<char>| id != r.id ==> #[trigger] record(with_record(s, r), id) == record(s, id),
{
    match position(s, r.id) {
        Some(i) => {
            lemma_replaced_kept(s, i, r);
        },
        None => {
            lemma_inserted_sorted(s, r);
            lemma_inserted_found(s, r);
        },
    }
}

/// How many records sort before an id: those in front of its place do.
pub proof fn lemma_rank_bounds(s: Seq<RequestView>, id: Seq<char>)
    ensures
        0 <= rank(s, id) <= s.len(),
        forall|i: int| 0 <= i < rank(s, id) ==> text::sorts_before(#[trigger] s[i].id, id),
        rank(s, id) < s.len() ==> !text::sorts_before(s[rank(s, id)].id, id),
    decreases s.len(),
{
    if s.len() > 0 && text::sorts_before(s[0].id, id) {
        let t = s.skip(1);
        lemma_rank_bounds(t, id);
        assert forall|i: int| 0 <= i < rank(s, id) implies text::sorts_before(
            #[trigger] s[i].id,
            id,
        ) by {
            if i > 0 {
                assert(t[i - 1] == s[i]);
                assert(text::sorts_before(t[i - 1].id, id));
            }
        }
    }
}

/// Replacing a record by one with the same id keeps the records well kept.
pub proof fn lemma_update_kept(s: Seq<RequestView>, i: int, r: RequestView)
    requires
        well_kept(s),
        0 <= i < s.len(),
        r.id == s[i].id,
        r == cleaned(r),
    ensures
        well_kept(s.update(i, r)),
        with_record(s, r) == s.update(i, r),
{
    lemma_position(s, r.id, i);
    lemma_with_record_kept(s, r);
}

// ---------------------------------------------------------------------------
// The store
// ---------------------------------------------------------------------------

/// The server's records, and where it keeps its files.
pub struct Store {
    root: String,
    records: Vec<Request>,
}

impl View for Store {
    type V = Seq<RequestView>;

    closed spec fn view(&self) -> Seq<RequestView> {
        views(self.records@)
    }
}

/// A file in a directory.
pub open spec fn file_in(root: Seq<char>, name: Seq<char>) -> Seq<char> {
    if root.len() == 0 || root.last() == '/' {
        root + name
    } else {
        root + "/"@ + name
    }
}

fn clean(req: Request) -> (r: Request)
    ensures
        r@ == cleaned(req@),
{
    let mut r = req;
    match r.state {
        RequestState::Claimed => {},
        _ => {
            r.claimed_ms = None;
            r.claimed_by = None;
        },
    }
    r
}

impl Store {
    /// The invariant every method keeps.
    pub open spec fn wf(&self) -> bool {
        well_kept(self@)
    }

    /// The directory everything is kept under.
    pub closed spec fn home(&self) -> Seq<char> {
        self.root@
    }

    /// A store over a directory, with no request in it yet.
    pub fn open(root: &str) -> (r: Store)
        ensures
            r.wf(),
            r@ == Seq::<RequestView>::empty(),
            r.home() == root@,
    {
        let r = Store { root: owned(root), records: Vec::new() };
        assert(r@ =~= Seq::<RequestView>::empty());
        r
    }

    /// Write a request. The marks of a claim are dropped from anything that is
    /// not claimed, so a stale one cannot be written down.
    pub fn put(&mut self, req: &Request)
        requires
            old(self).wf(),
        ensures
            final(self).wf(),
            final(self)@ == with_record(old(self)@, cleaned(req@)),
            final(self).home() == old(self).home(),
    {
        let ghost s = self@;
        let ghost r = cleaned(req@);
        let mut i: usize = 0;
        while i < self.records.len() && less(self.records[i].id.as_str(), req.id.as_str())
            invariant
                i <= self.records@.len(),
                s == views(self.records@),
                *self == *old(self),
                forall|j: int| 0 <= j < i ==> text::sorts_before(#[trigger] s[j].id, req@.id),
            decreases self.records@.len() - i,
        {
            assert(s[i as int] == self.records@[i as int]@);
            i = i + 1;
        }
        let copy = clean(req.clone());
        if i < self.records.len() && same(self.records[i].id.as_str(), req.id.as_str()) {
            proof {
                assert(s[i as int] == self.records@[i as int]@);
                lemma_position(s, r.id, i as int);
                lemma_with_record_kept(s, r);
            }
            self.records[i] = copy;
            assert(self@ =~= s.update(i as int, r));
        } else {
            proof {
                assert forall|k: int| 0 <= k < s.len() implies s[k].id != r.id by {
                    text::lemma_order_irreflexive(r.id);
                    if k < i {
                        assert(text::sorts_before(s[k].id, r.id));
                    } else {
                        assert(s[i as int] == self.records@[i as int]@);
                        if k > i {
                            text::lemma_order_total(s[i as int].id, r.id);
                            assert(text::sorts_before(s[i as int].id, s[k].id));
                            if s[k].id == r.id {
                                assert(false);
                            }
                        }
                    }
                }
                if i < s.len() {
                    assert(s[i as int] == self.records@[i as int]@);
                }
                lemma_rank(s, r.id, i as int);
                lemma_with_record_kept(s, r);
            }
            self.records.insert(i, copy);
            assert(self@ =~= s.insert(i as int, r));
        }
    }

    fn find(&self, id: &str) -> (r: Option<usize>)
        requires
            self.wf(),
        ensures
            match r {
                Some(i) => position(self@, id@) == Some(i as int) && i < self.records@.len()
                    && self@.len() == self.records@.len() && self.records@[i as int]@ == self@[i as int]
                    && self@[i as int].id == id@,
                None => position(self@, id@) is None,
            },
    {
        let mut i: usize = 0;
        while i < self.records.len()
            invariant
                i <= self.records@.len(),
                self.wf(),
                forall|j: int| 0 <= j < i ==> (#[trigger] self@[j]).id != id@,
            decreases self.records@.len() - i,
        {
            assert(self@[i as int] == self.records@[i as int]@);
            if same(self.records[i].id.as_str(), id) {
                proof {
                    lemma_position(self@, id@, i as int);
                }
                return Some(i);
            }
            i = i + 1;
        }
        None
    }

    /// Read one request.
    pub fn get(&self, id: &str) -> (r: Option<Request>)
        requires
            self.wf(),
        ensures
            match r {
                Some(q) => record(self@, id@) == Some(q@),
                None => record(self@, id@) is None,
            },
    {
        match self.find(id) {
            Some(i) => Some(self.records[i].clone()),
            None => None,
        }
    }

    /// Read one request, refusing where there is none.
    pub fn require(&self, id: &str) -> (r: Result<Request, StoreError>)
        requires
            self.wf(),
        ensures
            match r {
                Ok(q) => record(self@, id@) == Some(q@),
                Err(e) => record(self@, id@) is None && e@ == (Refusal::NoSuchRequest { id: id@ }),
            },
    {
        match self.get(id) {
            Some(q) => Ok(q),
            None => Err(StoreError::NoSuchRequest { id: owned(id) }),
        }
    }

    /// Every request, oldest first.
    pub fn all(&self) -> (r: Vec<Request>)
        ensures
            views(r@) == self@,
    {
        let mut out: Vec<Request> = Vec::new();
        let mut i: usize = 0;
        while i < self.records.len()
            invariant
                i <= self.records@.len(),
                views(out@) == self@.take(i as int),
            decreases self.records@.len() - i,
        {
            let ghost before = out@;
            out.push(self.records[i].clone());
            i = i + 1;
            assert(views(out@) =~= views(before).push(self.records@[i - 1]@));
            assert(self@.take(i as int) =~= self@.take(i - 1).push(self@[i - 1]));
        }
        assert(self@.take(i as int) =~= self@);
        out
    }

    fn replace(&mut self, i: usize, req: Request)
        requires
            old(self).wf(),
            i < old(self)@.len(),
            req@.id == old(self)@[i as int].id,
        ensures
            final(self).wf(),
            final(self)@ == old(self)@.update(i as int, cleaned(req@)),
            final(self).home() == old(self).home(),
    {
        proof {
            lemma_update_kept(self@, i as int, cleaned(req@));
        }
        let ghost s = self@;
        self.records[i] = clean(req);
        assert(self@ =~= s.update(i as int, cleaned(req@)));
    }
}

// ---------------------------------------------------------------------------
// Claiming
// ---------------------------------------------------------------------------

/// Is a daemon working on this repository?
pub open spec fn busy(s: Seq<RequestView>, repo: Seq<char>) -> bool {
    exists|i: int| 0 <= i < s.len() && (#[trigger] s[i]).state == RequestState::Claimed && s[i].repo
        == repo
}

/// May a daemon be handed this record: queued, served by it, and its repository
/// free?
pub open spec fn claimable(s: Seq<RequestView>, serves: Serves<'_>, i: int) -> bool {
    &&& 0 <= i < s.len()
    &&& s[i].state == RequestState::Queued
    &&& request::serves_repo(serves, s[i].repo)
    &&& !busy(s, s[i].repo)
}

/// Is this the oldest record a daemon may be handed?
pub open spec fn next_up(s: Seq<RequestView>, serves: Serves<'_>, i: int) -> bool {
    &&& claimable(s, serves, i)
    &&& forall|j: int| 0 <= j < i ==> !claimable(s, serves, j)
}

/// Looking for stale claims keeps the records well kept.
pub proof fn lemma_reclaimed_kept(s: Seq<RequestView>, now_ms: u64)
    requires
        well_kept(s),
    ensures
        well_kept(all_reclaimed(s, now_ms)),
{
    let t = all_reclaimed(s, now_ms);
    assert forall|i: int, j: int| 0 <= i < j < t.len() implies text::sorts_before(
        #[trigger] t[i].id,
        #[trigger] t[j].id,
    ) by {
        assert(t[i].id == s[i].id && t[j].id == s[j].id);
        assert(text::sorts_before(s[i].id, s[j].id));
    }
    assert forall|i: int| 0 <= i < t.len() implies (#[trigger] t[i]) == cleaned(t[i]) by {
        assert(s[i] == cleaned(s[i]));
    }
}

/// The times that are not older than the window.
fn recent(times: &Vec<u64>, now_ms: u64) -> (r: Vec<u64>)
    ensures
        r@ == times@.filter(|t: u64| now_ms - t <= FILING_WINDOW_MS),
{
    let ghost keep = |t: u64| now_ms - t <= FILING_WINDOW_MS;
    let mut out: Vec<u64> = Vec::new();
    let mut i: usize = 0;
    proof {
        reveal(Seq::filter);
    }
    assert(times@.take(0).filter(keep) =~= Seq::<u64>::empty());
    while i < times.len()
        invariant
            i <= times@.len(),
            keep == (|t: u64| now_ms - t <= FILING_WINDOW_MS),
            out@ == times@.take(i as int).filter(keep),
        decreases times@.len() - i,
    {
        let t = times[i];
        proof {
            reveal(Seq::filter);
            assert(times@.take(i + 1).drop_last() =~= times@.take(i as int));
        }
        if now_ms.saturating_sub(t) <= FILING_WINDOW_MS {
            out.push(t);
        }
        i = i + 1;
    }
    assert(times@.take(i as int) =~= times@);
    out
}

impl Store {
    /// Return claims older than [`CLAIM_TIMEOUT_MS`] to the queue, and say how
    /// many there were.
    pub fn reclaim_stale(&mut self, now_ms: u64) -> (r: usize)
        requires
            old(self).wf(),
        ensures
            final(self).wf(),
            final(self)@ == all_reclaimed(old(self)@, now_ms),
            final(self).home() == old(self).home(),
            r == old(self)@.filter(|q: RequestView| stale(q, now_ms)).len(),
    {
        let ghost s = self@;
        let ghost old_one = |q: RequestView| stale(q, now_ms);
        let mut count: usize = 0;
        let mut i: usize = 0;
        proof {
            reveal(Seq::filter);
            lemma_reclaimed_kept(s, now_ms);
            assert(s.take(0).filter(old_one) =~= Seq::<RequestView>::empty());
        }
        while i < self.records.len()
            invariant
                i <= self.records@.len(),
                count <= i,
                self.records@.len() == s.len(),
                old_one == (|q: RequestView| stale(q, now_ms)),
                count == s.take(i as int).filter(old_one).len(),
                forall|j: int| 0 <= j < i ==> (#[trigger] self.records@[j])@ == reclaimed(s[j], now_ms),
                forall|j: int| i <= j < s.len() ==> (#[trigger] self.records@[j])@ == s[j],
                self.root@ == old(self).root@,
            decreases self.records@.len() - i,
        {
            proof {
                reveal(Seq::filter);
                assert(s.take(i + 1).drop_last() =~= s.take(i as int));
                assert(self.records@[i as int]@ == s[i as int]);
            }
            let mut req = self.records[i].clone();
            match req.state {
                RequestState::Claimed => {
                    match req.claimed_ms {
                        None => {
                            req.claimed_ms = Some(now_ms);
                        },
                        Some(t) => {
                            if now_ms.saturating_sub(t) >= CLAIM_TIMEOUT_MS {
                                req.state = RequestState::Queued;
                                req.claimed_ms = None;
                                req.claimed_by = None;
                                req.note = Some(
                                    owned(
                                        "the daemon that claimed this stopped responding, so it went back to the queue",
                                    ),
                                );
                                count = count + 1;
                            }
                        },
                    }
                },
                _ => {},
            }
            assert(req@ =~= reclaimed(s[i as int], now_ms));
            self.records[i] = req;
            i = i + 1;
        }
        assert(s.take(i as int) =~= s);
        assert(self@ =~= all_reclaimed(s, now_ms));
        count
    }

    fn is_busy(&self, repo: &str) -> (r: bool)
        ensures
            r == busy(self@, repo@),
    {
        let mut i: usize = 0;
        while i < self.records.len()
            invariant
                i <= self.records@.len(),
                forall|j: int| 0 <= j < i ==> !((#[trigger] self@[j]).state == RequestState::Claimed && self@[j].repo == repo@),
            decreases self.records@.len() - i,
        {
            assert(self@[i as int] == self.records@[i as int]@);
            if matches!(self.records[i].state, RequestState::Claimed) && same(
                self.records[i].repo.as_str(),
                repo,
            ) {
                return true;
            }
            i = i + 1;
        }
        false
    }

    /// Claim the oldest queued request for a daemon.
    ///
    /// Stale claims are returned to the queue first. A repository with something
    /// claimed is skipped, so that two daemons never work one tree.
    pub fn claim_next(&mut self, serves: Serves<'_>, by: &str, now_ms: u64) -> (r: Option<Request>)
        requires
            old(self).wf(),
        ensures
            final(self).wf(),
            final(self).home() == old(self).home(),
            ({
                let s = all_reclaimed(old(self)@, now_ms);
                match r {
                    Some(q) => exists|i: int|
                        {
                            &&& #[trigger] next_up(s, serves, i)
                            &&& q@ == claimed_as(s[i], by@, now_ms)
                            &&& final(self)@ == s.update(i, q@)
                        },
                    None => final(self)@ == s && forall|i: int| !claimable(s, serves, i),
                }
            }),
    {
        self.reclaim_stale(now_ms);
        let ghost s = self@;
        let mut i: usize = 0;
        while i < self.records.len()
            invariant
                i <= self.records@.len(),
                self.wf(),
                s == self@,
                self.home() == old(self).home(),
                s == all_reclaimed(old(self)@, now_ms),
                forall|j: int| 0 <= j < i ==> !claimable(s, serves, j),
            decreases self.records@.len() - i,
        {
            assert(s[i as int] == self.records@[i as int]@);
            if self.records[i].state.is_claimable() && serves.accepts(self.records[i].repo.as_str())
                && !self.is_busy(self.records[i].repo.as_str()) {
                let mut next = self.records[i].clone();
                next.state = RequestState::Claimed;
                next.claimed_ms = Some(now_ms);
                next.claimed_by = Some(owned(by));
                next.drafts.push(now_ms);
                next.drafts = recent(&next.drafts, now_ms);
                assert(next@ =~= claimed_as(s[i as int], by@, now_ms));
                assert(next_up(s, serves, i as int));
                self.replace(i, next.clone());
                return Some(next);
            }
            i = i + 1;
        }
        None
    }
}

// ---------------------------------------------------------------------------
// Reports
// ---------------------------------------------------------------------------

/// Why a daemon may not report on a request: it must be claimed, and by that
/// daemon. A claim that names no holder is anybody's.
pub open spec fn report_refusal(s: Seq<RequestView>, id: Seq<char>, by: Seq<char>) -> Option<Refusal> {
    match record(s, id) {
        None => Some(Refusal::NoSuchRequest { id }),
        Some(r) => if r.state != RequestState::Claimed {
            Some(Refusal::NotClaimed { id, state: r.state })
        } else {
            match r.claimed_by {
                Some(holder) => if holder != by {
                    Some(Refusal::HeldByAnother { id, holder, by })
                } else {
                    None
                },
                None => None,
            }
        },
    }
}

/// What a step leaves behind: the record it handed back, written without the
/// marks of a claim that is over, or a refusal and nothing changed.
pub open spec fn stepped(
    before: Seq<RequestView>,
    after: Seq<RequestView>,
    id: Seq<char>,
    refusal: Option<Refusal>,
    becomes: spec_fn(RequestView) -> RequestView,
    result: Result<Request, StoreError>,
) -> bool {
    match result {
        Ok(q) => {
            &&& refusal is None
            &&& position(before, id) matches Some(i)
            &&& q@ == becomes(before[i])
            &&& after == before.update(i, cleaned(q@))
        },
        Err(e) => refusal == Some(e@) && after == before,
    }
}

impl Store {
    fn claimed(&self, id: &str, by: &str) -> (r: Result<(usize, Request), StoreError>)
        requires
            self.wf(),
        ensures
            match r {
                Ok((i, q)) => report_refusal(self@, id@, by@) is None && position(self@, id@)
                    == Some(i as int) && i < self@.len() && q@ == self@[i as int] && q@.id == id@,
                Err(e) => report_refusal(self@, id@, by@) == Some(e@),
            },
    {
        match self.find(id) {
            None => Err(StoreError::NoSuchRequest { id: owned(id) }),
            Some(i) => {
                let req = self.records[i].clone();
                match req.state {
                    RequestState::Claimed => {},
                    _ => {
                        return Err(StoreError::NotClaimed { id: owned(id), state: req.state });
                    },
                }
                if let Some(holder) = &req.claimed_by {
                    if !same(holder.as_str(), by) {
                        return Err(
                            StoreError::HeldByAnother {
                                id: owned(id),
                                holder: holder.clone(),
                                by: owned(by),
                            },
                        );
                    }
                }
                Ok((i, req))
            },
        }
    }

    /// Record a drafted spec, from the daemon that holds the claim.
    pub fn record_drafted(
        &mut self,
        id: &str,
        by: &str,
        spec: Draft,
        artifact_dir: &str,
        now_ms: u64,
    ) -> (r: Result<Request, StoreError>)
        requires
            old(self).wf(),
        ensures
            final(self).wf(),
            final(self).home() == old(self).home(),
            stepped(
                old(self)@,
                final(self)@,
                id@,
                report_refusal(old(self)@, id@, by@),
                |q: RequestView| drafted(q, spec@, artifact_dir@, now_ms),
                r,
            ),
    {
        match self.claimed(id, by) {
            Err(e) => Err(e),
            Ok((i, found)) => {
                let mut req = found;
                req.state = RequestState::AwaitingReview;
                req.spec = Some(spec);
                req.artifact_dir = Some(owned(artifact_dir));
                req.drafted_ms = Some(now_ms);
                req.send_back_note = None;
                req.note = None;
                assert(req@ =~= drafted(self@[i as int], spec@, artifact_dir@, now_ms));
                self.replace(i, req.clone());
                Ok(req)
            },
        }
    }

    /// Record that a daemon could not draft it.
    pub fn record_failed(&mut self, id: &str, by: &str, reason: &str) -> (r: Result<
        Request,
        StoreError,
    >)
        requires
            old(self).wf(),
        ensures
            final(self).wf(),
            final(self).home() == old(self).home(),
            stepped(
                old(self)@,
                final(self)@,
                id@,
                report_refusal(old(self)@, id@, by@),
                |q: RequestView| failed(q, reason@),
                r,
            ),
    {
        match self.claimed(id, by) {
            Err(e) => Err(e),
            Ok((i, found)) => {
                let mut req = found;
                req.state = RequestState::Failed;
                req.note = Some(owned(reason));
                assert(req@ =~= failed(self@[i as int], reason@));
                self.replace(i, req.clone());
                Ok(req)
            },
        }
    }

    /// Return claimed work to the queue, undone.
    pub fn record_released(&mut self, id: &str, by: &str, reason: &str) -> (r: Result<
        Request,
        StoreError,
    >)
        requires
            old(self).wf(),
        ensures
            final(self).wf(),
            final(self).home() == old(self).home(),
            stepped(
                old(self)@,
                final(self)@,
                id@,
                report_refusal(old(self)@, id@, by@),
                |q: RequestView| handed_back(q, by@, reason@),
                r,
            ),
    {
        match self.claimed(id, by) {
            Err(e) => Err(e),
            Ok((i, found)) => {
                let mut req = found;
                req.state = RequestState::Queued;
                req.claimed_ms = None;
                req.claimed_by = None;
                req.note = Some(owned(by).concat(" handed this back: ").concat(reason));
                assert(req@ =~= handed_back(self@[i as int], by@, reason@));
                self.replace(i, req.clone());
                Ok(req)
            },
        }
    }
}

// ---------------------------------------------------------------------------
// What a human decides
// ---------------------------------------------------------------------------

/// Why a spec may not be approved: it must be awaiting review, and its digest
/// must be the one of the text that was read.
pub open spec fn accept_refusal(s: Seq<RequestView>, id: Seq<char>, digest: Seq<char>) -> Option<
    Refusal,
> {
    match record(s, id) {
        None => Some(Refusal::NoSuchRequest { id }),
        Some(r) => if r.state != RequestState::AwaitingReview {
            Some(Refusal::NotForApproval { id, state: r.state })
        } else {
            match r.spec {
                None => Some(Refusal::NoDraft { id }),
                Some(d) => if d.digest != digest {
                    Some(Refusal::SpecChanged)
                } else {
                    None
                },
            }
        },
    }
}

/// Why a screener's verdict is not taken: only a request being screened takes
/// one.
pub open spec fn verdict_refusal(s: Seq<RequestView>, id: Seq<char>) -> Option<Refusal> {
    match record(s, id) {
        None => Some(Refusal::NoSuchRequest { id }),
        Some(r) => if r.state != RequestState::Screening {
            Some(Refusal::NotScreening { id, state: r.state })
        } else {
            None
        },
    }
}

/// Why a request may not be released: only a quarantined one is held.
pub open spec fn release_refusal(s: Seq<RequestView>, id: Seq<char>) -> Option<Refusal> {
    match record(s, id) {
        None => Some(Refusal::NoSuchRequest { id }),
        Some(r) => if r.state != RequestState::Quarantined {
            Some(Refusal::NotQuarantined { id, state: r.state })
        } else {
            None
        },
    }
}

/// Why a draft may not be sent back: it must be awaiting review, and the note
/// must say something.
pub open spec fn send_back_refusal(s: Seq<RequestView>, id: Seq<char>, notes: Seq<char>) -> Option<
    Refusal,
> {
    match record(s, id) {
        None => Some(Refusal::NoSuchRequest { id }),
        Some(r) => if r.state != RequestState::AwaitingReview {
            Some(Refusal::NotForSendBack { id, state: r.state })
        } else if text::trimmed(notes).len() == 0 {
            Some(Refusal::NoteMissing)
        } else {
            None
        },
    }
}

/// Why a request may not be discarded: an approved one is settled.
pub open spec fn discard_refusal(s: Seq<RequestView>, id: Seq<char>) -> Option<Refusal> {
    match record(s, id) {
        None => Some(Refusal::NoSuchRequest { id }),
        Some(r) => if r.state == RequestState::Accepted {
            Some(Refusal::Settled { id })
        } else {
            None
        },
    }
}

impl Store {
    fn find_or_refuse(&self, id: &str) -> (r: Result<(usize, Request), StoreError>)
        requires
            self.wf(),
        ensures
            match r {
                Ok((i, q)) => position(self@, id@) == Some(i as int) && i < self@.len() && q@
                    == self@[i as int] && record(self@, id@) == Some(q@) && q@.id == id@,
                Err(e) => record(self@, id@) is None && e@ == (Refusal::NoSuchRequest { id: id@ }),
            },
    {
        match self.find(id) {
            None => Err(StoreError::NoSuchRequest { id: owned(id) }),
            Some(i) => Ok((i, self.records[i].clone())),
        }
    }

    /// Approve a drafted spec, bound to the exact text they were shown.
    ///
    /// `expected_digest` is [`Request::spec_digest`] as of the page they read.
    pub fn accept(&mut self, id: &str, expected_digest: &str) -> (r: Result<Request, StoreError>)
        requires
            old(self).wf(),
        ensures
            final(self).wf(),
            final(self).home() == old(self).home(),
            stepped(
                old(self)@,
                final(self)@,
                id@,
                accept_refusal(old(self)@, id@, expected_digest@),
                |q: RequestView| moved(q, RequestState::Accepted),
                r,
            ),
    {
        match self.find_or_refuse(id) {
            Err(e) => Err(e),
            Ok((i, found)) => {
                let mut req = found;
                match req.state {
                    RequestState::AwaitingReview => {},
                    _ => {
                        return Err(StoreError::NotForApproval { id: owned(id), state: req.state });
                    },
                }
                match req.spec_digest() {
                    None => {
                        return Err(StoreError::NoDraft { id: owned(id) });
                    },
                    Some(current) => {
                        if !same(current.as_str(), expected_digest) {
                            return Err(StoreError::SpecChanged);
                        }
                    },
                }
                req.state = RequestState::Accepted;
                assert(req@ =~= moved(self@[i as int], RequestState::Accepted));
                self.replace(i, req.clone());
                Ok(req)
            },
        }
    }

    /// Record what the screener said, from `Screening` to `Queued` or `Quarantined`, and
    /// nothing else.
    pub fn finish_screening(&mut self, id: &str, quarantine: Option<&str>) -> (r: Result<
        Request,
        StoreError,
    >)
        requires
            old(self).wf(),
        ensures
            final(self).wf(),
            final(self).home() == old(self).home(),
            stepped(
                old(self)@,
                final(self)@,
                id@,
                verdict_refusal(old(self)@, id@),
                |q: RequestView| screened(q, text::opt_str(quarantine)),
                r,
            ),
    {
        match self.find_or_refuse(id) {
            Err(e) => Err(e),
            Ok((i, found)) => {
                let mut req = found;
                match req.state {
                    RequestState::Screening => {},
                    _ => {
                        return Err(StoreError::NotScreening { id: owned(id), state: req.state });
                    },
                }
                match quarantine {
                    Some(reason) => {
                        req.state = RequestState::Quarantined;
                        req.note = Some(owned(reason));
                    },
                    None => {
                        req.state = RequestState::Queued;
                    },
                }
                assert(req@ =~= screened(self@[i as int], text::opt_str(quarantine)));
                self.replace(i, req.clone());
                Ok(req)
            },
        }
    }

    /// Release a quarantined request into the queue. The note that says why it
    /// was held is kept.
    pub fn release(&mut self, id: &str) -> (r: Result<Request, StoreError>)
        requires
            old(self).wf(),
        ensures
            final(self).wf(),
            final(self).home() == old(self).home(),
            stepped(
                old(self)@,
                final(self)@,
                id@,
                release_refusal(old(self)@, id@),
                |q: RequestView| moved(q, RequestState::Queued),
                r,
            ),
    {
        match self.find_or_refuse(id) {
            Err(e) => Err(e),
            Ok((i, found)) => {
                let mut req = found;
                match req.state {
                    RequestState::Quarantined => {},
                    _ => {
                        return Err(StoreError::NotQuarantined { id: owned(id), state: req.state });
                    },
                }
                req.state = RequestState::Queued;
                assert(req@ =~= moved(self@[i as int], RequestState::Queued));
                self.replace(i, req.clone());
                Ok(req)
            },
        }
    }

    /// Send a drafted spec back to be redrafted, with a reason. The rejected
    /// draft is dropped.
    pub fn send_back(&mut self, id: &str, notes: &str) -> (r: Result<Request, StoreError>)
        requires
            old(self).wf(),
        ensures
            final(self).wf(),
            final(self).home() == old(self).home(),
            stepped(
                old(self)@,
                final(self)@,
                id@,
                send_back_refusal(old(self)@, id@, notes@),
                |q: RequestView| sent_back(q, notes@),
                r,
            ),
    {
        match self.find_or_refuse(id) {
            Err(e) => Err(e),
            Ok((i, found)) => {
                let mut req = found;
                match req.state {
                    RequestState::AwaitingReview => {},
                    _ => {
                        return Err(StoreError::NotForSendBack { id: owned(id), state: req.state });
                    },
                }
                let note = trim(notes);
                if note.is_empty() {
                    return Err(StoreError::NoteMissing);
                }
                req.state = RequestState::Queued;
                req.send_back_note = Some(owned(note));
                req.note = Some(owned("sent back: ").concat(note));
                req.spec = None;
                assert(req@ =~= sent_back(self@[i as int], notes@));
                self.replace(i, req.clone());
                Ok(req)
            },
        }
    }

    /// Drop a request before it is approved. Doing it twice is no error.
    pub fn discard(&mut self, id: &str) -> (r: Result<Request, StoreError>)
        requires
            old(self).wf(),
        ensures
            final(self).wf(),
            final(self).home() == old(self).home(),
            stepped(
                old(self)@,
                final(self)@,
                id@,
                discard_refusal(old(self)@, id@),
                |q: RequestView| moved(q, RequestState::Discarded),
                r,
            ),
    {
        match self.find_or_refuse(id) {
            Err(e) => Err(e),
            Ok((i, found)) => {
                let mut req = found;
                match req.state {
                    RequestState::Accepted => {
                        return Err(StoreError::Settled { id: owned(id) });
                    },
                    _ => {},
                }
                req.state = RequestState::Discarded;
                assert(req@ =~= moved(self@[i as int], RequestState::Discarded));
                self.replace(i, req.clone());
                Ok(req)
            },
        }
    }
}

// ---------------------------------------------------------------------------
// Counting and listing
// ---------------------------------------------------------------------------

/// Did this account file this since then?
pub open spec fn filed_after(r: RequestView, account_id: Seq<char>, since_ms: u64) -> bool {
    r.account_id == Some(account_id) && r.filed_ms >= since_ms
}

/// How many of these times are not before then.
pub open spec fn runs_after(times: Seq<u64>, since_ms: u64) -> nat {
    times.filter(|t: u64| t >= since_ms).len()
}

/// How many drafting runs a repository has been sent into since then.
pub open spec fn runs_for(s: Seq<RequestView>, repo: Seq<char>, since_ms: u64) -> nat
    decreases s.len(),
{
    if s.len() == 0 {
        0
    } else {
        runs_for(s.drop_last(), repo, since_ms) + if s.last().repo == repo {
            runs_after(s.last().drafts, since_ms)
        } else {
            0
        }
    }
}

/// A count as a machine word holds it: one past the end of memory stays at the
/// greatest there is.
pub open spec fn in_word(n: nat) -> nat {
    if n > usize::MAX {
        usize::MAX as nat
    } else {
        n
    }
}

fn count_since(times: &Vec<u64>, since_ms: u64) -> (r: usize)
    ensures
        r == runs_after(times@, since_ms),
{
    let ghost late = |t: u64| t >= since_ms;
    let mut n: usize = 0;
    let mut i: usize = 0;
    proof {
        reveal(Seq::filter);
    }
    assert(times@.take(0).filter(late) =~= Seq::<u64>::empty());
    while i < times.len()
        invariant
            n <= i <= times@.len(),
            late == (|t: u64| t >= since_ms),
            n == times@.take(i as int).filter(late).len(),
        decreases times@.len() - i,
    {
        proof {
            reveal(Seq::filter);
            assert(times@.take(i + 1).drop_last() =~= times@.take(i as int));
        }
        if times[i] >= since_ms {
            n = n + 1;
        }
        i = i + 1;
    }
    assert(times@.take(i as int) =~= times@);
    n
}

impl Store {
    /// How many requests this account filed since then, whatever became of them.
    pub fn filed_since(&self, account_id: &str, since_ms: u64) -> (r: usize)
        ensures
            r == self@.filter(|q: RequestView| filed_after(q, account_id@, since_ms)).len(),
    {
        let ghost mine = |q: RequestView| filed_after(q, account_id@, since_ms);
        let mut n: usize = 0;
        let mut i: usize = 0;
        proof {
            reveal(Seq::filter);
        }
        assert(self@.take(0).filter(mine) =~= Seq::<RequestView>::empty());
        while i < self.records.len()
            invariant
                n <= i <= self.records@.len(),
                mine == (|q: RequestView| filed_after(q, account_id@, since_ms)),
                n == self@.take(i as int).filter(mine).len(),
            decreases self.records@.len() - i,
        {
            proof {
                reveal(Seq::filter);
                assert(self@.take(i + 1).drop_last() =~= self@.take(i as int));
                assert(self@[i as int] == self.records@[i as int]@);
            }
            if self.records[i].filed_by(account_id) && self.records[i].filed_ms >= since_ms {
                n = n + 1;
            }
            i = i + 1;
        }
        assert(self@.take(i as int) =~= self@);
        n
    }

    /// How many drafting runs `repo` has been sent into since then.
    pub fn drafts_since(&self, repo: &str, since_ms: u64) -> (r: usize)
        ensures
            r == in_word(runs_for(self@, repo@, since_ms)),
    {
        let mut n: usize = 0;
        let mut i: usize = 0;
        assert(self@.take(0).len() == 0);
        while i < self.records.len()
            invariant
                i <= self.records@.len(),
                n == in_word(runs_for(self@.take(i as int), repo@, since_ms)),
            decreases self.records@.len() - i,
        {
            proof {
                assert(self@.take(i + 1).drop_last() =~= self@.take(i as int));
                assert(self@[i as int] == self.records@[i as int]@);
            }
            if same(self.records[i].repo.as_str(), repo) {
                n = n.saturating_add(count_since(&self.records[i].drafts, since_ms));
            }
            i = i + 1;
        }
        assert(self@.take(i as int) =~= self@);
        n
    }

    /// Every request still waiting to be screened, oldest first.
    pub fn pending_screening(&self) -> (r: Vec<Request>)
        ensures
            views(r@) == self@.filter(|q: RequestView| q.state == RequestState::Screening),
    {
        let ghost waiting = |q: RequestView| q.state == RequestState::Screening;
        let mut out: Vec<Request> = Vec::new();
        let mut i: usize = 0;
        proof {
            reveal(Seq::filter);
        }
        assert(self@.take(0).filter(waiting) =~= views(out@));
        while i < self.records.len()
            invariant
                i <= self.records@.len(),
                waiting == (|q: RequestView| q.state == RequestState::Screening),
                views(out@) == self@.take(i as int).filter(waiting),
            decreases self.records@.len() - i,
        {
            let ghost before = out@;
            proof {
                reveal(Seq::filter);
                assert(self@.take(i + 1).drop_last() =~= self@.take(i as int));
                assert(self@[i as int] == self.records@[i as int]@);
            }
            if matches!(self.records[i].state, RequestState::Screening) {
                out.push(self.records[i].clone());
                assert(views(out@) =~= views(before).push(self@[i as int]));
            }
            i = i + 1;
        }
        assert(self@.take(i as int) =~= self@);
        out
    }

    fn file(&self, name: &str) -> (r: String)
        ensures
            r@ == file_in(self.home(), name@),
    {
        let n = self.root.as_str().unicode_len();
        if n == 0 || self.root.as_str().get_char(n - 1) == '/' {
            self.root.clone().concat(name)
        } else {
            self.root.clone().concat("/").concat(name)
        }
    }

    /// Where the accounts live.
    pub fn accounts_path(&self) -> (r: String)
        ensures
            r@ == file_in(self.home(), "accounts.json"@),
    {
        self.file("accounts.json")
    }

    /// Where the settings live.
    pub fn settings_path(&self) -> (r: String)
        ensures
            r@ == file_in(self.home(), "settings.json"@),
    {
        self.file("settings.json")
    }

    /// Where the roster lives.
    pub fn roster_path(&self) -> (r: String)
        ensures
            r@ == file_in(self.home(), "owners.json"@),
    {
        self.file("owners.json")
    }

    /// Where outstanding sign-in links live.
    pub fn links_path(&self) -> (r: String)
        ensures
            r@ == file_in(self.home(), "links.json"@),
    {
        self.file("links.json")
    }

    /// Where the claim on this server lives.
    pub fn admin_path(&self) -> (r: String)
        ensures
            r@ == file_in(self.home(), "admin.json"@),
    {
        self.file("admin.json")
    }

    /// Where one request lives.
    pub fn request_path(&self, id: &str) -> (r: String)
        ensures
            r@ == file_in(file_in(self.home(), "requests"@), id@ + ".json"@),
    {
        let dir = self.file("requests");
        proof {
            reveal_strlit("requests");
        }
        assert(file_in(self.home(), "requests"@).last() == 's');
        dir.concat("/").concat(owned(id).concat(".json").as_str())
    }
}

// ---------------------------------------------------------------------------
// Fresh ids
// ---------------------------------------------------------------------------

/// The id of a request filed at a moment, with a counter behind it.
pub open spec fn id_text(now_ms: u64, n: u64) -> Seq<char> {
    text::pad_front(text::decimal(now_ms as nat), 13, '0') + "-"@ + text::pad_front(
        text::decimal((n % 10_000) as nat),
        4,
        '0',
    )
}

/// The id of a request filed at a moment, with a counter behind it.
pub fn id_at(now_ms: u64, n: u64) -> (r: String)
    ensures
        r@ == id_text(now_ms, n),
{
    padded_number(now_ms, 13, '0').concat("-").concat(
        padded_number(n % 10_000, 4, '0').as_str(),
    )
}

/// A fresh request id: time-ordered, with a counter so that two in one
/// millisecond differ. `counter` is the one the process keeps. The id is none of
/// those made with a count whose last four digits differ, whatever the clock said.
pub fn new_id(counter: &mut u64) -> (r: String)
    ensures
        exists|now_ms: u64| r@ == id_text(now_ms, *old(counter)),
        forall|then_ms: u64, n: u64|
            n % 10_000 != *old(counter) % 10_000 ==> r@ != #[trigger] id_text(then_ms, n),
        *final(counter) == (*old(counter) as u64).wrapping_add(1),
{
    let n: u64 = *counter;
    *counter = n.wrapping_add(1);
    let now = now_ms();
    proof {
        assert forall|then_ms: u64, m: u64| m % 10_000 != n % 10_000 implies id_text(now, n)
            != #[trigger] id_text(then_ms, m) by {
            lifecycle::law_fresh_ids_differ(now, then_ms, n, m);
        }
    }
    id_at(now, n)
}

} // verus!
