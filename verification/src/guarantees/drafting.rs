//! Handing work out, taking it back, and what a day of it may cost.

use vstd::prelude::*;
use vstd::string::*;

use crate::json;
use crate::request::{DraftView, RequestState, RequestView};
use crate::routes::daemon;
use crate::routes::daemon::{Received, Report};
use crate::routes::http::PayloadView;
use crate::store;

verus! {

// ---------------------------------------------------------------------------
// Asking for work
// ---------------------------------------------------------------------------

/// Has a claim been left behind: taken twenty minutes ago or earlier?
pub open spec fn left_behind(q: RequestView, now_ms: u64) -> bool {
    q.state == RequestState::Claimed && (q.claimed_ms matches Some(t) && now_ms - t >= 1_200_000)
}

/// Is somebody at work on a repository?
pub open spec fn at_work_on(s: Seq<RequestView>, repo: Seq<char>, now_ms: u64) -> bool {
    exists|j: int|
        0 <= j < s.len() && (#[trigger] s[j]).repo == repo && s[j].state == RequestState::Claimed
            && !left_behind(s[j], now_ms)
}

/// Is this there for a daemon to draft, of those repositories or, where it named
/// none, of any?
pub open spec fn there_to_draft(
    s: Seq<RequestView>,
    declared: Seq<Seq<char>>,
    now_ms: u64,
    i: int,
) -> bool {
    &&& 0 <= i < s.len()
    &&& s[i].state == RequestState::Queued || left_behind(s[i], now_ms)
    &&& declared.len() == 0 || exists|k: int|
        0 <= k < declared.len() && #[trigger] declared[k] == s[i].repo
    &&& !at_work_on(s, s[i].repo, now_ms)
}

proof fn lemma_there_is_what_may_be_handed(
    s: Seq<RequestView>,
    declared: Seq<Seq<char>>,
    now_ms: u64,
    i: int,
)
    ensures
        there_to_draft(s, declared, now_ms, i) == daemon::may_hand(
            store::all_reclaimed(s, now_ms),
            declared,
            i,
        ),
{
    let t = store::all_reclaimed(s, now_ms);
    if 0 <= i < s.len() {
        assert(t[i].repo == s[i].repo);
        assert(at_work_on(s, s[i].repo, now_ms) == store::busy(t, s[i].repo)) by {
            if at_work_on(s, s[i].repo, now_ms) {
                let j = choose|j: int|
                    0 <= j < s.len() && (#[trigger] s[j]).repo == s[i].repo && s[j].state
                        == RequestState::Claimed && !left_behind(s[j], now_ms);
                assert(t[j].state == RequestState::Claimed && t[j].repo == s[i].repo);
            }
            if store::busy(t, s[i].repo) {
                let j = choose|j: int|
                    0 <= j < t.len() && (#[trigger] t[j]).state == RequestState::Claimed
                        && t[j].repo == s[i].repo;
                assert(s[j].repo == s[i].repo);
            }
        }
        assert(declared.contains(s[i].repo) == exists|k: int|
            0 <= k < declared.len() && #[trigger] declared[k] == s[i].repo);
    }
}

/// A poll hands out the oldest request there is to draft, and the item says what
/// the record says: its id, the whole of its text, its repository, its kind and
/// what was said when it was sent back. The record is then claimed by whoever
/// asked, from now on, one run dearer, and otherwise as it was.
pub proof fn law_a_poll_hands_out_the_oldest_request_as_it_stands(
    s: Seq<RequestView>,
    declared: Seq<Seq<char>>,
    by: Seq<char>,
    now_ms: u64,
    i: int,
)
    requires
        there_to_draft(s, declared, now_ms, i),
        forall|j: int| 0 <= j < i ==> !there_to_draft(s, declared, now_ms, j),
    ensures
        ({
            let (found, after) = daemon::handed(s, declared, by, now_ms);
            let res = daemon::poll_res(found);
            &&& res.status == 200
            &&& !res.hold_for_work
            &&& res.payload matches Some(PayloadView::Work { item })
            &&& item.id == s[i].id
            &&& item.text == s[i].text
            &&& item.repo == s[i].repo
            &&& item.kind == s[i].kind
            &&& item.send_back_note == s[i].send_back_note
            &&& after.len() == s.len()
            &&& after[i].state == RequestState::Claimed
            &&& after[i].claimed_by == Some(by)
            &&& after[i].claimed_ms == Some(now_ms)
            &&& after[i].id == s[i].id
            &&& after[i].text == s[i].text
            &&& after[i].repo == s[i].repo
            &&& after[i].kind == s[i].kind
            &&& after[i].filed_ms == s[i].filed_ms
            &&& after[i].account_id == s[i].account_id
            &&& after[i].spec == s[i].spec
            &&& after[i].artifact_dir == s[i].artifact_dir
            &&& after[i].drafted_ms == s[i].drafted_ms
            &&& after[i].send_back_note == s[i].send_back_note
            &&& s[i].state == RequestState::Queued ==> after[i].note == s[i].note
            &&& after[i].drafts == s[i].drafts.filter(|t: u64| now_ms - t <= 86_400_000).push(now_ms)
        }),
{
    let t = store::all_reclaimed(s, now_ms);
    assert forall|j: int| there_to_draft(s, declared, now_ms, j) == daemon::may_hand(
        t,
        declared,
        j,
    ) by {
        lemma_there_is_what_may_be_handed(s, declared, now_ms, j);
    }
    assert(daemon::hands_next(t, declared, i));
    let k = choose|k: int| daemon::hands_next(t, declared, k);
    assert(daemon::may_hand(t, declared, k));
    assert(there_to_draft(s, declared, now_ms, k));
    assert(k == i);
    let keep = |x: u64| now_ms - x <= 86_400_000;
    let all = t[i].drafts.push(now_ms);
    assert(all.drop_last() =~= s[i].drafts);
    assert(all.filter(keep) == s[i].drafts.filter(keep).push(now_ms)) by {
        reveal(Seq::filter);
    }
    assert(store::claimed_as(t[i], by, now_ms).drafts == all.filter(keep));
}

/// Every other record is left as it was by a poll, but that a claim left behind
/// is queued again, without the marks of a claim, and a claim that nobody dated
/// is dated now.
pub proof fn law_a_poll_touches_nothing_else(
    s: Seq<RequestView>,
    declared: Seq<Seq<char>>,
    by: Seq<char>,
    now_ms: u64,
    j: int,
)
    requires
        0 <= j < s.len(),
        there_to_draft(s, declared, now_ms, j) ==> exists|i: int|
            0 <= i < j && there_to_draft(s, declared, now_ms, i),
    ensures
        ({
            let after = daemon::handed(s, declared, by, now_ms).1;
            &&& after.len() == s.len()
            &&& left_behind(s[j], now_ms) ==> after[j].note is Some && after[j] == (RequestView {
                state: RequestState::Queued,
                claimed_by: None,
                claimed_ms: None,
                note: after[j].note,
                ..s[j]
            })
            &&& s[j].state == RequestState::Claimed && s[j].claimed_ms is None ==> after[j] == (
            RequestView { claimed_ms: Some(now_ms), ..s[j] })
            &&& !left_behind(s[j], now_ms) && !(s[j].state == RequestState::Claimed
                && s[j].claimed_ms is None) ==> after[j] == s[j]
        }),
{
    let t = store::all_reclaimed(s, now_ms);
    if exists|k: int| daemon::hands_next(t, declared, k) {
        let k = choose|k: int| daemon::hands_next(t, declared, k);
        assert(daemon::may_hand(t, declared, k));
        if k == j {
            lemma_there_is_what_may_be_handed(s, declared, now_ms, j);
            let i = choose|i: int| 0 <= i < j && there_to_draft(s, declared, now_ms, i);
            lemma_there_is_what_may_be_handed(s, declared, now_ms, i);
            assert(daemon::may_hand(t, declared, i));
        }
    }
}

/// A poll that finds nothing to draft is answered with nothing, and held.
pub proof fn law_a_poll_is_held_for_want_of_work(
    s: Seq<RequestView>,
    declared: Seq<Seq<char>>,
    by: Seq<char>,
    now_ms: u64,
)
    requires
        forall|i: int| !there_to_draft(s, declared, now_ms, i),
    ensures
        ({
            let (found, after) = daemon::handed(s, declared, by, now_ms);
            let res = daemon::poll_res(found);
            &&& found is None
            &&& res.status == 200
            &&& res.hold_for_work
            &&& res.payload == Some(PayloadView::Idle)
        }),
{
    let t = store::all_reclaimed(s, now_ms);
    assert forall|i: int| !daemon::hands_next(t, declared, i) by {
        lemma_there_is_what_may_be_handed(s, declared, now_ms, i);
        assert(!there_to_draft(s, declared, now_ms, i));
    }
}

// ---------------------------------------------------------------------------
// Reporting
// ---------------------------------------------------------------------------

/// Is this daemon the one that a record is claimed by, as far as the record says?
pub open spec fn holds_the_claim(q: RequestView, by: Seq<char>) -> bool {
    q.state == RequestState::Claimed && (q.claimed_by is None || q.claimed_by == Some(by))
}

/// A report is taken from whoever holds the claim, and from nobody else: the
/// record becomes what the report says, character for character, and every other
/// record stays as it was.
///
/// A draft awaits review with the text, the digest and the directory that were
/// sent. A failure says why. What was handed back is queued again, and says who
/// handed it back and why.
pub proof fn law_a_report_is_taken_as_it_was_sent(
    s: Seq<RequestView>,
    i: int,
    by: Seq<char>,
    report: Report,
    now_ms: u64,
    j: int,
)
    requires
        store::well_kept(s),
        0 <= i < s.len(),
        0 <= j < s.len(),
    ensures
        ({
            let (res, after) = daemon::report_answer(
                s,
                None,
                s[i].id,
                by,
                Received::Read(report),
                now_ms,
            );
            &&& !holds_the_claim(s[i], by) ==> res.status == 404 && after == s
            &&& holds_the_claim(s[i], by) ==> {
                &&& res.status == 200
                &&& res.body == "{\"ok\":true}"@
                &&& after.len() == s.len()
                &&& j != i ==> after[j] == s[j]
                &&& match report {
                    Report::Drafted { spec, digest, artifact_dir } => after[i] == (RequestView {
                        state: RequestState::AwaitingReview,
                        spec: Some(DraftView { text: spec@, digest: digest@ }),
                        artifact_dir: Some(artifact_dir@),
                        drafted_ms: Some(now_ms),
                        send_back_note: None,
                        note: None,
                        claimed_by: None,
                        claimed_ms: None,
                        ..s[i]
                    }),
                    Report::Failed { reason } => after[i] == (RequestView {
                        state: RequestState::Failed,
                        note: Some(reason@),
                        claimed_by: None,
                        claimed_ms: None,
                        ..s[i]
                    }),
                    Report::Released { reason } => after[i] == (RequestView {
                        state: RequestState::Queued,
                        note: Some(by + " handed this back: "@ + reason@),
                        claimed_by: None,
                        claimed_ms: None,
                        ..s[i]
                    }),
                }
            }
        }),
{
    store::lemma_position(s, s[i].id, i);
}

/// A report on what is not there, and one that could not be read or speaks
/// another protocol, changes nothing.
pub proof fn law_a_report_on_nothing_is_refused(
    s: Seq<RequestView>,
    id: Seq<char>,
    by: Seq<char>,
    received: Received,
    now_ms: u64,
)
    requires
        !(received is Read) || forall|i: int| 0 <= i < s.len() ==> (#[trigger] s[i]).id != id,
    ensures
        ({
            let (res, after) = daemon::report_answer(s, None, id, by, received, now_ms);
            &&& after == s
            &&& res.status == (if received is Read {
                404u16
            } else {
                400u16
            })
        }),
{
}

/// What a refused report is told: why the record could not be read, why the report
/// could not be, or what the protocol said of it.
pub proof fn law_a_refused_report_is_told_why(
    s: Seq<RequestView>,
    why: Option<Seq<char>>,
    id: Seq<char>,
    by: Seq<char>,
    received: Received,
    now_ms: u64,
)
    requires
        why is Some || !(received is Read),
    ensures
        ({
            let (res, after) = daemon::report_answer(s, why, id, by, received, now_ms);
            &&& after == s
            &&& match received {
                Received::Read(_) => res.status == 404 && res.body == json::error_body(
                    why.unwrap(),
                ),
                Received::Unreadable(e) => res.status == 400 && res.body == json::error_body(
                    "unreadable payload: "@ + e@,
                ),
                Received::Foreign(msg) => res.status == 400 && res.body == json::error_body(msg@),
            }
        }),
{
}

} // verus!
