//! What is shown of requests, and what deciding on one does.

use vstd::prelude::*;
use vstd::string::*;

use crate::caller::CallerView;
use crate::config::PublicConfig;
use crate::guarantees::counting;
use crate::i18n::Locale;
use crate::json;
use crate::json::FieldView;
use crate::request::{RequestState, RequestView};
use crate::routes::filing;
use crate::routes::http::PayloadView;
use crate::routes::review;
use crate::store;
use crate::text;

verus! {

/// May somebody decide on what is about this repository: whoever claimed the
/// server on anything, and an owner on their own?
pub open spec fn decides_on(caller: Option<CallerView>, repo: Seq<char>) -> bool {
    match caller {
        Some(CallerView::Admin { .. }) => true,
        Some(CallerView::Owner { repos, .. }) => exists|k: int|
            0 <= k < repos.len() && #[trigger] repos[k] == repo,
        _ => false,
    }
}

/// Has a repository had all the drafting runs that it may have in twenty-four
/// hours?
pub open spec fn has_had_its_day(
    s: Seq<RequestView>,
    public: Option<&PublicConfig>,
    repo: Seq<char>,
    now_ms: u64,
) -> bool {
    public matches Some(p) && counting::runs_since(s, repo, now_ms - 86_400_000).len()
        >= p.max_daily_drafts
}

proof fn lemma_the_day(
    s: Seq<RequestView>,
    public: Option<&PublicConfig>,
    repo: Seq<char>,
    now_ms: u64,
)
    ensures
        has_had_its_day(s, public, repo, now_ms) == (review::over_budget(
            s,
            public,
            repo,
            now_ms,
        ) is Some),
{
    let since = filing::window_start(now_ms);
    counting::lemma_runs(s, repo, since);
    assert(counting::runs_since(s, repo, now_ms - 86_400_000) =~= counting::runs_since(
        s,
        repo,
        since as int,
    ));
}

/// The request as whoever decided on it is shown it.
pub open spec fn shown_to(caller: Option<CallerView>, q: RequestView) -> Option<PayloadView> {
    Some(
        PayloadView::Review {
            request: q,
            artifacts: caller matches Some(CallerView::Admin { .. }),
            coverage: true,
        },
    )
}

/// A repository that has been sent into as many drafting runs as it may have, all
/// of them dated within the twenty-four hours up to now, is sent into no other by
/// sending back or releasing, whoever asks: they are told so, and nothing
/// changes. One that has not is refused on no such ground.
pub proof fn law_a_days_drafting_is_bounded(
    s: Seq<RequestView>,
    p: &PublicConfig,
    caller: Option<CallerView>,
    locale: Locale,
    i: int,
    name: Seq<char>,
    fields: Seq<(Seq<char>, FieldView)>,
    now_ms: u64,
)
    requires
        store::well_kept(s),
        0 <= i < s.len(),
        decides_on(caller, s[i].repo),
        name == "send-back"@ || name == "release"@,
    ensures
        ({
            let (res, after) = review::verb_answer(
                s,
                None,
                Some(p),
                caller,
                locale,
                s[i].id,
                name,
                Ok(fields),
                now_ms,
            );
            &&& res.status == 429 <==> counting::runs_since(
                s,
                s[i].repo,
                now_ms - 86_400_000,
            ).len() >= p.max_daily_drafts
            &&& res.status == 429 ==> after == s
        }),
{
    store::lemma_position(s, s[i].id, i);
    lemma_the_day(s, Some(p), s[i].repo, now_ms);
    lemma_the_verbs_differ();
    if let Some(CallerView::Owner { repos, .. }) = caller {
        let k = choose|k: int| 0 <= k < repos.len() && #[trigger] repos[k] == s[i].repo;
        assert(repos.contains(s[i].repo));
    }
    let verb = review::verb_named(name).unwrap();
    let note = json::text_or_empty(fields, "note"@);
    let digest = json::text_or_empty(fields, "digest"@);
    if review::verb_refusal(s, s[i].id, verb, note, digest) is None {
        let t = review::after_verb(s, s[i].id, verb, note, digest);
        store::lemma_update_kept(s, i, t[i]);
        store::lemma_position(t, s[i].id, i);
    }
}

proof fn lemma_the_verbs_differ()
    ensures
        review::verb_named("accept"@) == Some(review::Verb::Accept),
        review::verb_named("send-back"@) == Some(review::Verb::SendBack),
        review::verb_named("discard"@) == Some(review::Verb::Discard),
        review::verb_named("release"@) == Some(review::Verb::Release),
{
    reveal_strlit("accept");
    reveal_strlit("send-back");
    reveal_strlit("discard");
    reveal_strlit("release");
    assert("accept"@[0] == 'a' && "send-back"@[0] == 's' && "discard"@[0] == 'd' && "release"@[0]
        == 'r');
}

/// Whoever claimed the server approves a draft by the digest of the text they
/// read: where that is the draft that awaits review it is approved, and nothing
/// else about it changes; with any other digest, or none, or in any other state,
/// nothing does.
pub proof fn law_approving_takes_the_digest_that_was_read(
    s: Seq<RequestView>,
    public: Option<&PublicConfig>,
    login: Seq<char>,
    locale: Locale,
    i: int,
    fields: Seq<(Seq<char>, FieldView)>,
    now_ms: u64,
)
    requires
        store::well_kept(s),
        0 <= i < s.len(),
    ensures
        ({
            let caller = Some(CallerView::Admin { login });
            let (res, after) = review::verb_answer(
                s,
                None,
                public,
                caller,
                locale,
                s[i].id,
                "accept"@,
                Ok(fields),
                now_ms,
            );
            let digest = json::text_or_empty(fields, "digest"@);
            if s[i].state == RequestState::AwaitingReview && digest.len() > 0 && (
            s[i].spec matches Some(d) && d.digest == digest) {
                &&& res.status == 200
                &&& after == s.update(i, RequestView { state: RequestState::Accepted, ..s[i] })
                &&& res.payload == shown_to(caller, after[i])
            } else {
                res.status == 400 && after == s
            }
        }),
{
    store::lemma_position(s, s[i].id, i);
    lemma_the_verbs_differ();
    assert(s[i] == store::cleaned(s[i]));
    let q = RequestView { state: RequestState::Accepted, ..s[i] };
    if s[i].state == RequestState::AwaitingReview {
        assert(store::cleaned(q) =~= q);
        store::lemma_update_kept(s, i, q);
        store::lemma_position(s.update(i, q), s[i].id, i);
    }
}

/// Sending a draft back takes a note: where one awaits review and something is
/// said, the request is queued again with that note, without the space around it,
/// for whoever drafts it next, and the rejected draft is gone; nothing else about
/// it changes. Otherwise nothing does.
pub proof fn law_sending_back_queues_the_request_with_the_note(
    s: Seq<RequestView>,
    public: Option<&PublicConfig>,
    caller: Option<CallerView>,
    locale: Locale,
    i: int,
    fields: Seq<(Seq<char>, FieldView)>,
    now_ms: u64,
)
    requires
        store::well_kept(s),
        0 <= i < s.len(),
        decides_on(caller, s[i].repo),
        !has_had_its_day(s, public, s[i].repo, now_ms),
    ensures
        ({
            let (res, after) = review::verb_answer(
                s,
                None,
                public,
                caller,
                locale,
                s[i].id,
                "send-back"@,
                Ok(fields),
                now_ms,
            );
            let note = text::trimmed(json::text_or_empty(fields, "note"@));
            if s[i].state == RequestState::AwaitingReview && note.len() > 0 {
                &&& res.status == 200
                &&& after == s.update(
                    i,
                    RequestView {
                        state: RequestState::Queued,
                        send_back_note: Some(note),
                        note: Some("sent back: "@ + note),
                        spec: None,
                        ..s[i]
                    },
                )
                &&& res.payload == shown_to(caller, after[i])
            } else {
                res.status == 400 && after == s
            }
        }),
{
    store::lemma_position(s, s[i].id, i);
    lemma_the_verbs_differ();
    lemma_the_day(s, public, s[i].repo, now_ms);
    lemma_owns(caller, s[i].repo);
    assert(s[i] == store::cleaned(s[i]));
    let note = text::trimmed(json::text_or_empty(fields, "note"@));
    let q = RequestView {
        state: RequestState::Queued,
        send_back_note: Some(note),
        note: Some("sent back: "@ + note),
        spec: None,
        ..s[i]
    };
    if s[i].state == RequestState::AwaitingReview {
        assert(store::cleaned(q) =~= q);
        store::lemma_update_kept(s, i, q);
        store::lemma_position(s.update(i, q), s[i].id, i);
    }
}

proof fn lemma_owns(caller: Option<CallerView>, repo: Seq<char>)
    ensures
        caller matches Some(CallerView::Owner { repos, .. }) ==> decides_on(caller, repo)
            == repos.contains(repo),
{
    if let Some(CallerView::Owner { repos, .. }) = caller {
        if decides_on(caller, repo) {
            let k = choose|k: int| 0 <= k < repos.len() && #[trigger] repos[k] == repo;
            assert(repos.contains(repo));
        }
    }
}

/// Releasing what a screener held queues it, with the reason it was held for and
/// everything else as it was. Nothing that is not held is released.
pub proof fn law_releasing_queues_what_was_held(
    s: Seq<RequestView>,
    public: Option<&PublicConfig>,
    caller: Option<CallerView>,
    locale: Locale,
    i: int,
    fields: Seq<(Seq<char>, FieldView)>,
    now_ms: u64,
)
    requires
        store::well_kept(s),
        0 <= i < s.len(),
        decides_on(caller, s[i].repo),
        !has_had_its_day(s, public, s[i].repo, now_ms),
    ensures
        ({
            let (res, after) = review::verb_answer(
                s,
                None,
                public,
                caller,
                locale,
                s[i].id,
                "release"@,
                Ok(fields),
                now_ms,
            );
            if s[i].state == RequestState::Quarantined {
                &&& res.status == 200
                &&& after == s.update(i, RequestView { state: RequestState::Queued, ..s[i] })
                &&& res.payload == shown_to(caller, after[i])
            } else {
                res.status == 400 && after == s
            }
        }),
{
    store::lemma_position(s, s[i].id, i);
    lemma_the_verbs_differ();
    lemma_the_day(s, public, s[i].repo, now_ms);
    lemma_owns(caller, s[i].repo);
    assert(s[i] == store::cleaned(s[i]));
    let q = RequestView { state: RequestState::Queued, ..s[i] };
    if s[i].state == RequestState::Quarantined {
        assert(store::cleaned(q) =~= q);
        store::lemma_update_kept(s, i, q);
        store::lemma_position(s.update(i, q), s[i].id, i);
    }
}

/// Whatever is not approved can be discarded, and then nothing but its state, and
/// the marks of a claim where it had them, changes. It costs no drafting run, so
/// no budget stands in its way.
pub proof fn law_discarding_drops_what_is_not_approved(
    s: Seq<RequestView>,
    public: Option<&PublicConfig>,
    caller: Option<CallerView>,
    locale: Locale,
    i: int,
    fields: Seq<(Seq<char>, FieldView)>,
    now_ms: u64,
)
    requires
        store::well_kept(s),
        0 <= i < s.len(),
        decides_on(caller, s[i].repo),
    ensures
        ({
            let (res, after) = review::verb_answer(
                s,
                None,
                public,
                caller,
                locale,
                s[i].id,
                "discard"@,
                Ok(fields),
                now_ms,
            );
            if s[i].state != RequestState::Accepted {
                &&& res.status == 200
                &&& after == s.update(
                    i,
                    RequestView {
                        state: RequestState::Discarded,
                        claimed_by: None,
                        claimed_ms: None,
                        ..s[i]
                    },
                )
                &&& res.payload == shown_to(caller, after[i])
            } else {
                res.status == 400 && after == s
            }
        }),
{
    store::lemma_position(s, s[i].id, i);
    lemma_the_verbs_differ();
    lemma_owns(caller, s[i].repo);
    let q = RequestView {
        state: RequestState::Discarded,
        claimed_by: None,
        claimed_ms: None,
        ..s[i]
    };
    assert(store::cleaned(store::moved(s[i], RequestState::Discarded)) =~= q);
    assert(store::cleaned(q) =~= q);
    store::lemma_update_kept(s, i, q);
    store::lemma_position(s.update(i, q), s[i].id, i);
}

/// Nobody decides on what is not theirs to decide on, no owner approves anything,
/// there are no verbs but the four, and no verb does anything to a request that
/// is not there, or with a body that is not JSON: nothing changes.
pub proof fn law_nothing_else_decides(
    s: Seq<RequestView>,
    public: Option<&PublicConfig>,
    caller: Option<CallerView>,
    locale: Locale,
    id: Seq<char>,
    name: Seq<char>,
    sent: json::Sent,
    now_ms: u64,
)
    requires
        sent is Err || (forall|i: int|
            0 <= i < s.len() && (#[trigger] s[i]).id == id ==> !decides_on(caller, s[i].repo)) || (
        name != "accept"@ && name != "send-back"@ && name != "discard"@ && name != "release"@) || (
        name == "accept"@ && !(caller matches Some(CallerView::Admin { .. }))),
    ensures
        ({
            let (res, after) = review::verb_answer(
                s,
                None,
                public,
                caller,
                locale,
                id,
                name,
                sent,
                now_ms,
            );
            &&& after == s
            &&& res.status == 400 || res.status == 404 || res.status == 429
            &&& sent is Err ==> res.status == 400
            &&& sent is Ok && !(caller matches Some(CallerView::Admin { .. })) && (forall|i: int|
                0 <= i < s.len() && (#[trigger] s[i]).id == id ==> !decides_on(caller, s[i].repo))
                ==> res.status == 404
        }),
{
    lemma_the_verbs_differ();
    if let Some(q) = store::record(s, id) {
        lemma_owns(caller, q.repo);
    }
}

// ---------------------------------------------------------------------------
// What is shown
// ---------------------------------------------------------------------------

/// One request is shown as it stands to whoever claimed the server, to an owner
/// of its repository, without the paths on the administrator's machine, and to
/// whoever filed it, with its draft where the surface says so. To anybody else it
/// is not there.
pub proof fn law_a_request_is_shown_as_it_stands(
    s: Seq<RequestView>,
    public: Option<&PublicConfig>,
    caller: Option<CallerView>,
    locale: Locale,
    i: int,
)
    requires
        store::well_kept(s),
        0 <= i < s.len(),
    ensures
        ({
            let res = review::request_answer(s, None, public, caller, locale, s[i].id);
            if decides_on(caller, s[i].repo) {
                res.status == 200 && res.payload == shown_to(caller, s[i])
            } else if caller matches Some(CallerView::Account { id }) && s[i].account_id == Some(id) {
                res.status == 200 && res.payload == Some(
                    PayloadView::Filing {
                        request: s[i],
                        show_spec: public matches Some(p) && p.show_spec,
                        locale,
                    },
                )
            } else {
                res.status == 404 && res.payload is None
            }
        }),
{
    store::lemma_position(s, s[i].id, i);
    lemma_owns(caller, s[i].repo);
}

/// What is not there is not there for anybody.
pub proof fn law_an_absent_request_is_not_shown(
    s: Seq<RequestView>,
    public: Option<&PublicConfig>,
    caller: Option<CallerView>,
    locale: Locale,
    id: Seq<char>,
)
    requires
        forall|i: int| 0 <= i < s.len() ==> (#[trigger] s[i]).id != id,
    ensures
        review::request_answer(s, None, public, caller, locale, id).status == 404,
        review::request_answer(s, None, public, caller, locale, id).payload is None,
{
}

/// A record that could not be read is shown to nobody: why is said instead.
pub proof fn law_a_lost_record_is_a_failure_of_ours(
    s: Seq<RequestView>,
    why: Seq<char>,
    public: Option<&PublicConfig>,
    caller: Option<CallerView>,
    locale: Locale,
    id: Seq<char>,
)
    ensures
        ({
            let res = review::request_answer(s, Some(why), public, caller, locale, id);
            &&& res.status == 500
            &&& res.payload is None
            &&& res.body == json::error_body(why)
        }),
{
}

/// What is said of a repository that has had its runs names it, and how many it
/// has had.
pub proof fn law_a_spent_budget_is_named(repo: Seq<char>, n: nat)
    ensures
        ({
            let res = review::budget_res(repo, n);
            &&& res.status == 429
            &&& exists|rest: Seq<char>|
                res.body == #[trigger] json::error_body(
                    repo + " has been drafted "@ + text::decimal(n) + " times today"@ + rest,
                )
        }),
{
    let whole = " times today, which is the limit. Every send-back and release buys another full drafting run on the developer's machine, so the cap is what stops one repository spending a day's budget on one request."@;
    reveal_strlit(
        " times today, which is the limit. Every send-back and release buys another full drafting run on the developer's machine, so the cap is what stops one repository spending a day's budget on one request.",
    );
    reveal_strlit(" times today");
    let rest = whole.skip(12);
    assert(whole =~= " times today"@ + rest);
    assert(repo + " has been drafted "@ + text::decimal(n) + whole =~= repo + " has been drafted "@
        + text::decimal(n) + " times today"@ + rest);
}

/// A list holds every request to whoever claimed the server, every one of their
/// repositories to an owner, every one that they filed to somebody who files, in
/// the order of the records; and none to anybody else.
pub proof fn law_a_list_holds_all_that_somebody_may_see(
    s: Seq<RequestView>,
    public: Option<&PublicConfig>,
    caller: Option<CallerView>,
    locale: Locale,
)
    ensures
        ({
            let res = review::requests_answer(s, public, caller, locale);
            &&& res.status == 200
            &&& match caller {
                Some(CallerView::Admin { .. }) => res.payload == Some(
                    PayloadView::Reviewed { requests: s, artifacts: true },
                ),
                Some(CallerView::Owner { .. }) => res.payload == Some(
                    PayloadView::Reviewed {
                        requests: s.filter(|q: RequestView| decides_on(caller, q.repo)),
                        artifacts: false,
                    },
                ),
                Some(CallerView::Account { id }) => res.payload == Some(
                    PayloadView::Filings {
                        requests: s.filter(|q: RequestView| q.account_id == Some(id)),
                        show_spec: public matches Some(p) && p.show_spec,
                        locale,
                    },
                ),
                _ => res.payload is None && res.body == "[]"@,
            }
        }),
{
    if let Some(CallerView::Owner { repos, .. }) = caller {
        assert forall|q: RequestView| decides_on(caller, q.repo) == repos.contains(q.repo) by {
            lemma_owns(caller, q.repo);
        }
        assert((|q: RequestView| decides_on(caller, q.repo)) =~= (|q: RequestView|
            repos.contains(q.repo)));
    }
}

} // verus!
