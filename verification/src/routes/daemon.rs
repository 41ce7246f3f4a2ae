//! What a daemon asks for, and what it reports.

use vstd::prelude::*;
use vstd::string::*;

use crate::request;
use crate::request::{Draft, DraftView, Request, RequestState, RequestView, Serves};
use crate::routes::http;
use crate::routes::http::{error, Payload, PayloadView, Res, ResView, WorkItem, WorkItemView};
use crate::routes::paths::WORK;
use crate::routes::review;
use crate::store;
use crate::store::Store;
use crate::text;
use crate::text::{copy_opt, same, split_first, strip};

verus! {

/// A request, as the daemon that drafts it is handed it.
pub open spec fn work_of(q: RequestView) -> WorkItemView {
    WorkItemView {
        id: q.id,
        text: q.text,
        repo: q.repo,
        kind: q.kind,
        send_back_note: q.send_back_note,
    }
}

/// A request, as the daemon that drafts it is handed it.
pub fn work_item(q: &Request) -> (r: WorkItem)
    ensures
        r@ == work_of(q@),
{
    WorkItem {
        id: q.id.clone(),
        text: q.text.clone(),
        repo: q.repo.clone(),
        kind: q.kind,
        send_back_note: copy_opt(&q.send_back_note),
    }
}

// ---------------------------------------------------------------------------
// Asking for work
// ---------------------------------------------------------------------------

/// Does a daemon that declared these serve this repository? One that declared
/// nothing serves anything.
pub open spec fn offers(declared: Seq<Seq<char>>, repo: Seq<char>) -> bool {
    declared.len() == 0 || declared.contains(repo)
}

/// May a daemon that declared these be handed this record?
pub open spec fn may_hand(s: Seq<RequestView>, declared: Seq<Seq<char>>, i: int) -> bool {
    &&& 0 <= i < s.len()
    &&& s[i].state == RequestState::Queued
    &&& offers(declared, s[i].repo)
    &&& !store::busy(s, s[i].repo)
}

/// Is this the oldest record that a daemon may be handed?
pub open spec fn hands_next(s: Seq<RequestView>, declared: Seq<Seq<char>>, i: int) -> bool {
    may_hand(s, declared, i) && forall|j: int| 0 <= j < i ==> !may_hand(s, declared, j)
}

/// The request a daemon is handed, if any, and the records afterwards. Claims
/// that have lasted too long are returned to the queue first.
pub open spec fn handed(
    s: Seq<RequestView>,
    declared: Seq<Seq<char>>,
    by: Seq<char>,
    now_ms: u64,
) -> (Option<RequestView>, Seq<RequestView>) {
    let t = store::all_reclaimed(s, now_ms);
    if exists|i: int| hands_next(t, declared, i) {
        let i = choose|i: int| hands_next(t, declared, i);
        let q = store::claimed_as(t[i], by, now_ms);
        (Some(q), t.update(i, q))
    } else {
        (None, t)
    }
}

/// What a poll is answered: work, or nothing and the connection held.
pub open spec fn poll_res(found: Option<RequestView>) -> ResView {
    match found {
        Some(q) => http::data_res(PayloadView::Work { item: work_of(q) }),
        None => ResView { hold_for_work: true, ..http::data_res(PayloadView::Idle) },
    }
}

/// Hand a daemon the oldest request it serves, or tell it to wait.
pub fn poll(store: &mut Store, declared: &Vec<String>, by: &str, now_ms: u64) -> (r: Res)
    requires
        old(store).wf(),
    ensures
        final(store).wf(),
        final(store).home() == old(store).home(),
        ({
            let (found, after) = handed(old(store)@, text::texts(declared@), by@, now_ms);
            r@ == poll_res(found) && final(store)@ == after
        }),
{
    let ghost t = store::all_reclaimed(store@, now_ms);
    let ghost names = text::texts(declared@);
    // Declaring nothing and serving nothing are different answers.
    let serves = if declared.len() == 0 {
        Serves::Anything
    } else {
        Serves::These(declared.as_slice())
    };
    assert forall|i: int| store::claimable(t, serves, i) == may_hand(t, names, i) by {
        if 0 <= i < t.len() {
            assert(request::serves_repo(serves, t[i].repo) == offers(names, t[i].repo));
        }
    }
    match store.claim_next(serves, by, now_ms) {
        Some(q) => {
            proof {
                let i = choose|i: int|
                    {
                        &&& #[trigger] store::next_up(t, serves, i)
                        &&& q@ == store::claimed_as(t[i], by@, now_ms)
                        &&& store@ == t.update(i, q@)
                    };
                assert(store::claimable(t, serves, i));
                assert(hands_next(t, names, i));
                let k = choose|k: int| hands_next(t, names, k);
                assert(may_hand(t, names, k));
                assert(may_hand(t, names, i));
                assert(k == i);
            }
            Res::data(Payload::Work { item: work_item(&q) })
        },
        None => {
            assert forall|i: int| !hands_next(t, names, i) by {
                assert(!store::claimable(t, serves, i));
            }
            let mut res = Res::data(Payload::Idle);
            res.hold_for_work = true;
            res
        },
    }
}

/// Evidence that a daemon is alive, and what it offers.
pub struct Sighting {
    pub by: String,
    pub repos: Vec<String>,
}

/// Evidence that a daemon is alive, as contracts speak of it.
#[verifier::ext_equal]
pub struct SightingView {
    pub by: Seq<char>,
    pub repos: Seq<Seq<char>>,
}

impl View for Sighting {
    type V = SightingView;

    open spec fn view(&self) -> SightingView {
        SightingView { by: self.by@, repos: text::texts(self.repos@) }
    }
}

// ---------------------------------------------------------------------------
// Reporting
// ---------------------------------------------------------------------------

/// What a daemon reports on.
#[derive(Debug, Clone, Copy, PartialEq, Eq, Structural)]
pub enum ReportKind {
    Drafted,
    Failed,
    Released,
}

/// Where a daemon's call goes.
pub enum DaemonCall<'a> {
    /// It asks for work.
    Poll,
    /// It reports on a request.
    Report { id: &'a str, kind: ReportKind },
    /// There is nothing here.
    Nowhere,
}

/// Where a daemon's call goes, as contracts speak of it.
pub enum DaemonCallView {
    Poll,
    Report { id: Seq<char>, kind: ReportKind },
    Nowhere,
}

impl View for DaemonCall<'_> {
    type V = DaemonCallView;

    open spec fn view(&self) -> DaemonCallView {
        match self {
            DaemonCall::Poll => DaemonCallView::Poll,
            DaemonCall::Report { id, kind } => DaemonCallView::Report { id: id@, kind: *kind },
            DaemonCall::Nowhere => DaemonCallView::Nowhere,
        }
    }
}

/// The report that an address names.
pub open spec fn report_named(verb: Seq<char>) -> Option<ReportKind> {
    if verb == "drafted"@ {
        Some(ReportKind::Drafted)
    } else if verb == "failed"@ {
        Some(ReportKind::Failed)
    } else if verb == "released"@ {
        Some(ReportKind::Released)
    } else {
        None
    }
}

/// The id and the verb behind the work address.
pub open spec fn report_parts(path: Seq<char>) -> (Seq<char>, Seq<char>) {
    let rest = match text::after_prefix(path, "/api/v1/work/"@) {
        Some(r) => r,
        None => Seq::empty(),
    };
    match text::split_at_first(rest, '/') {
        Some((id, verb)) => (id, verb),
        None => (rest, Seq::empty()),
    }
}

/// Where a daemon's call goes.
pub open spec fn daemon_call(method: Seq<char>, path: Seq<char>) -> DaemonCallView {
    let (id, verb) = report_parts(path);
    if method == "GET"@ && path == WORK@ {
        DaemonCallView::Poll
    } else if method != "POST"@ || id.len() == 0 {
        DaemonCallView::Nowhere
    } else {
        match report_named(verb) {
            Some(kind) => DaemonCallView::Report { id, kind },
            None => DaemonCallView::Nowhere,
        }
    }
}

/// Where a daemon's call goes.
pub fn daemon_route<'a>(method: &str, path: &'a str) -> (r: DaemonCall<'a>)
    ensures
        r@ == daemon_call(method@, path@),
{
    if same(method, "GET") && same(path, WORK) {
        return DaemonCall::Poll;
    }
    proof {
        reveal_strlit("");
        assert(""@ =~= Seq::<char>::empty());
    }
    let rest = match strip(path, "/api/v1/work/") {
        Some(r) => r,
        None => "",
    };
    let (id, verb) = match split_first(rest, '/') {
        Some((id, verb)) => (id, verb),
        None => (rest, ""),
    };
    if !same(method, "POST") || id.is_empty() {
        return DaemonCall::Nowhere;
    }
    if same(verb, "drafted") {
        DaemonCall::Report { id, kind: ReportKind::Drafted }
    } else if same(verb, "failed") {
        DaemonCall::Report { id, kind: ReportKind::Failed }
    } else if same(verb, "released") {
        DaemonCall::Report { id, kind: ReportKind::Released }
    } else {
        DaemonCall::Nowhere
    }
}

/// What a daemon reports.
pub enum Report {
    /// It drafted this. `digest` is the digest of `spec`.
    Drafted { spec: String, digest: String, artifact_dir: String },
    /// It could not.
    Failed { reason: String },
    /// It hands it back undone.
    Released { reason: String },
}

/// A report as it was received.
pub enum Received {
    /// Its body could not be read, for this reason.
    Unreadable(String),
    /// Its protocol is not ours, for this reason.
    Foreign(String),
    Read(Report),
}

/// What a report makes of a request.
pub open spec fn report_becomes(q: RequestView, by: Seq<char>, r: Report, now_ms: u64) -> RequestView {
    match r {
        Report::Drafted { spec, digest, artifact_dir } => store::drafted(
            q,
            DraftView { text: spec@, digest: digest@ },
            artifact_dir@,
            now_ms,
        ),
        Report::Failed { reason } => store::failed(q, reason@),
        Report::Released { reason } => store::handed_back(q, by, reason@),
    }
}

/// What is answered to a report, and the records afterwards.
pub open spec fn report_answer(
    s: Seq<RequestView>,
    unreadable: Option<Seq<char>>,
    id: Seq<char>,
    by: Seq<char>,
    received: Received,
    now_ms: u64,
) -> (ResView, Seq<RequestView>) {
    match received {
        Received::Unreadable(e) => (http::error_res(400, "unreadable payload: "@ + e@), s),
        Received::Foreign(msg) => (http::error_res(400, msg@), s),
        Received::Read(report) => match (unreadable, store::report_refusal(s, id, by)) {
            (Some(why), _) => (http::error_res(404, why), s),
            (None, Some(e)) => (http::error_res(404, store::refusal_text(e)), s),
            (None, None) => {
                let i = store::position(s, id).unwrap();
                (
                    http::json_res(200, "{\"ok\":true}"@),
                    s.update(i, store::cleaned(report_becomes(s[i], by, report, now_ms))),
                )
            },
        },
    }
}

/// Take a daemon's report on a request. `unreadable` says why its record could
/// not be read, where it could not.
pub fn take_report(
    store: &mut Store,
    unreadable: Option<&str>,
    id: &str,
    by: &str,
    received: Received,
    now_ms: u64,
) -> (r: Res)
    requires
        old(store).wf(),
    ensures
        final(store).wf(),
        final(store).home() == old(store).home(),
        (r@, final(store)@) == report_answer(
            old(store)@,
            review::said(unreadable),
            id@,
            by@,
            received,
            now_ms,
        ),
{
    let report = match received {
        Received::Unreadable(e) => {
            return error(400, "unreadable payload: ".to_owned().concat(e.as_str()).as_str());
        },
        Received::Foreign(msg) => {
            return error(400, msg.as_str());
        },
        Received::Read(report) => report,
    };
    if let Some(why) = unreadable {
        return error(404, why);
    }
    let outcome = match report {
        Report::Drafted { spec, digest, artifact_dir } => store.record_drafted(
            id,
            by,
            Draft { text: spec, digest },
            artifact_dir.as_str(),
            now_ms,
        ),
        Report::Failed { reason } => store.record_failed(id, by, reason.as_str()),
        Report::Released { reason } => store.record_released(id, by, reason.as_str()),
    };
    match outcome {
        Ok(_) => Res::json(200, "{\"ok\":true}"),
        Err(e) => error(404, e.message().as_str()),
    }
}

/// A daemon that declared what it serves is handed nothing else.
pub proof fn law_a_daemon_is_handed_what_it_offered(
    s: Seq<RequestView>,
    declared: Seq<Seq<char>>,
    by: Seq<char>,
    now_ms: u64,
)
    requires
        declared.len() > 0,
    ensures
        handed(s, declared, by, now_ms).0 matches Some(q) ==> declared.contains(q.repo)
            && q.claimed_by == Some(by),
{
    let t = store::all_reclaimed(s, now_ms);
    if exists|i: int| hands_next(t, declared, i) {
        let i = choose|i: int| hands_next(t, declared, i);
        assert(may_hand(t, declared, i));
    }
}

/// A daemon waits exactly where there is nothing for it, and then nothing is
/// claimed by its asking.
pub proof fn law_a_daemon_waits_only_for_want_of_work(
    s: Seq<RequestView>,
    declared: Seq<Seq<char>>,
    by: Seq<char>,
    now_ms: u64,
)
    ensures
        poll_res(handed(s, declared, by, now_ms).0).hold_for_work <==> forall|i: int|
            !may_hand(store::all_reclaimed(s, now_ms), declared, i),
        poll_res(handed(s, declared, by, now_ms).0).hold_for_work ==> handed(
            s,
            declared,
            by,
            now_ms,
        ).1 == store::all_reclaimed(s, now_ms),
{
    let t = store::all_reclaimed(s, now_ms);
    if exists|i: int| may_hand(t, declared, i) {
        let i = choose|i: int| may_hand(t, declared, i);
        lemma_some_next(t, declared, i);
    } else {
        assert forall|i: int| !hands_next(t, declared, i) by {
            assert(!may_hand(t, declared, i));
        }
    }
}

proof fn lemma_some_next(s: Seq<RequestView>, declared: Seq<Seq<char>>, i: int)
    requires
        may_hand(s, declared, i),
    ensures
        exists|k: int| hands_next(s, declared, k),
    decreases i,
{
    if exists|j: int| 0 <= j < i && may_hand(s, declared, j) {
        let j = choose|j: int| 0 <= j < i && may_hand(s, declared, j);
        lemma_some_next(s, declared, j);
    } else {
        assert(hands_next(s, declared, i));
    }
}

/// A report that is refused changes nothing.
pub proof fn law_a_refused_report_changes_nothing(
    s: Seq<RequestView>,
    unreadable: Option<Seq<char>>,
    id: Seq<char>,
    by: Seq<char>,
    received: Received,
    now_ms: u64,
)
    ensures
        report_answer(s, unreadable, id, by, received, now_ms).0.status != 200 ==> report_answer(
            s,
            unreadable,
            id,
            by,
            received,
            now_ms,
        ).1 == s,
{
}

} // verus!
