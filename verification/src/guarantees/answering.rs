//! What an answer looks like, what a refusal says, and what is read off a request.

use vstd::prelude::*;
use vstd::string::*;

use crate::config::Repos;
use crate::i18n::Strings;
use crate::json;
use crate::json::FieldView;
use crate::request;
use crate::request::{IntakeKind, Request, RequestState, Serves};
use crate::routes::admin;
use crate::routes::filing;
use crate::routes::filing::FilingRefusedView;
use crate::routes::http;
use crate::routes::http::{Asset, PayloadView, Policy, Req, Res};
use crate::routes::review;
use crate::routes::review::Unreadable;
use crate::screen;
use crate::screen::Verdict;
use crate::screen_eval;
use crate::screen_eval::{Case, CaseView, Corpus, Score};
use crate::seal;
use crate::serve;
use crate::text;

verus! {

/// Every answer is JSON or a document, holds nothing but what it was made of, and
/// permits nothing unless it says so; a failure says what went wrong.
pub proof fn law_an_answer_is_what_it_was_made_of(
    status: u16,
    body: Seq<char>,
    asset: Asset,
    payload: PayloadView,
)
    ensures
        ({
            let r = http::json_res(status, body);
            r.status == status && r.content_type == "application/json"@ && r.body == body
                && r.asset is None && r.payload is None && r.set_cookie is None && r.etag is None
                && !r.hold_for_work && r.policy == Policy::Strict
        }),
        ({
            let r = http::html_res(status, body);
            r.status == status && r.content_type == "text/html; charset=utf-8"@ && r.body == body
                && r.asset is None && r.payload is None && r.set_cookie is None && r.etag is None
                && !r.hold_for_work && r.policy == Policy::Strict
        }),
        ({
            let r = http::page_res(status, asset);
            r.status == status && r.content_type == "text/html; charset=utf-8"@ && r.body.len() == 0
                && r.asset == Some(asset) && r.payload is None && r.set_cookie is None
        }),
        ({
            let r = http::data_res(payload);
            r.status == 200 && r.content_type == "application/json"@ && r.body.len() == 0 && r.payload
                == Some(payload) && r.asset is None && r.set_cookie is None && !r.hold_for_work
        }),
        ({
            let r = http::error_res(status, body);
            r.status == status && r.content_type == "application/json"@ && r.body == seq![
                '{',
                '"',
                'e',
                'r',
                'r',
                'o',
                'r',
                '"',
                ':',
            ] + json::json_string(body) + seq!['}'] && r.set_cookie is None
        }),
{
    reveal_strlit("");
    reveal_strlit("{\"error\":");
    reveal_strlit("}");
    assert("{\"error\":"@ =~= seq!['{', '"', 'e', 'r', 'r', 'o', 'r', '"', ':']);
    assert("}"@ =~= seq!['}']);
}

/// What an outside client sends is built as it is said.
pub proof fn law_a_request_is_built_as_it_is_said(
    path: &str,
    body: &str,
    read: Req,
    write: Req,
    sent: Req,
)
    requires
        call_ensures(Req::get, (path,), read),
        call_ensures(Req::post, (path, body), write),
        call_ensures(Req::post_json, (path, body), sent),
    ensures
        read@.method == "GET"@ && read@.path == path@ && read@.body.len() == 0,
        write@.method == "POST"@ && write@.path == path@ && write@.body == body@,
        write@.content_type is None,
        sent@.method == "POST"@ && sent@.path == path@ && sent@.body == body@,
        sent@.content_type == Some("application/json"@),
        read@.bearer is None && write@.bearer is None && sent@.bearer is None,
        read@.cookie_token is None && write@.cookie_token is None && sent@.cookie_token is None,
        read@.origin is None && write@.origin is None && sent@.origin is None,
{
    reveal_strlit("");
}

/// The body that spells an object has that object's fields, one that spells
/// anything else has none, and one that is no JSON says why.
pub proof fn law_a_body_has_the_fields_it_spells(
    s: Seq<char>,
    fields: Seq<(Seq<char>, FieldView)>,
    why: Seq<char>,
)
    ensures
        json::json_object(s) == Ok::<Option<Seq<(Seq<char>, FieldView)>>, Seq<char>>(Some(fields))
            ==> json::json_fields(s) == Ok::<Seq<(Seq<char>, FieldView)>, Seq<char>>(fields),
        json::json_object(s) == Ok::<Option<Seq<(Seq<char>, FieldView)>>, Seq<char>>(None)
            ==> json::json_fields(s) == Ok::<Seq<(Seq<char>, FieldView)>, Seq<char>>(Seq::empty()),
        json::json_object(s) == Err::<Option<Seq<(Seq<char>, FieldView)>>, Seq<char>>(why)
            ==> json::json_fields(s) == Err::<Seq<(Seq<char>, FieldView)>, Seq<char>>(why),
{
}

// ---------------------------------------------------------------------------
// Requests
// ---------------------------------------------------------------------------

/// A request that somebody files for themselves is queued; one from outside is
/// screened where there is a screener and queued where there is none, and knows
/// whose it is.
pub proof fn law_a_request_is_made_as_it_is_filed(
    id: &str,
    words: &str,
    repo: &str,
    kind: IntakeKind,
    account: &str,
    screened: bool,
    now_ms: u64,
    own: Request,
    public: Request,
)
    requires
        call_ensures(Request::filed_at, (id, words, repo, kind, now_ms), own),
        call_ensures(
            Request::public,
            (id, words, repo, kind, account, screened, now_ms),
            public,
        ),
    ensures
        own@.id == id@ && own@.text == words@ && own@.repo == repo@ && own@.kind == kind,
        own@.filed_ms == now_ms && own@.state == RequestState::Queued && own@.account_id is None,
        public@.id == id@ && public@.text == words@ && public@.repo == repo@ && public@.kind == kind,
        public@.filed_ms == now_ms && public@.account_id == Some(account@),
        public@.state == (if screened {
            RequestState::Screening
        } else {
            RequestState::Queued
        }),
{
}

/// What is read off a request is what it holds.
pub proof fn law_a_request_says_what_it_holds(
    q: Request,
    account: &str,
    theirs: bool,
    drafted: Option<&str>,
    digest: Option<String>,
)
    requires
        call_ensures(Request::filed_by, (&q, account), theirs),
        call_ensures(Request::spec_text, (&q,), drafted),
        call_ensures(Request::spec_digest, (&q,), digest),
    ensures
        theirs <==> q@.account_id == Some(account@),
        q@.spec is None <==> drafted is None,
        q@.spec is None <==> digest is None,
        q@.spec matches Some(d) ==> (drafted matches Some(t) && t@ == d.text) && (
        digest matches Some(t) && t@ == d.digest),
{
}

/// A machine that serves anything serves this; one that serves some serves those,
/// and no other.
pub proof fn law_what_a_machine_serves(names: &[String], repo: Seq<char>)
    ensures
        request::serves_repo(Serves::Anything, repo),
        request::serves_repo(Serves::These(names), repo) <==> exists|k: int|
            0 <= k < names@.len() && (#[trigger] names@[k])@ == repo,
{
    let all = text::texts(names@);
    if exists|k: int| 0 <= k < names@.len() && (#[trigger] names@[k])@ == repo {
        let k = choose|k: int| 0 <= k < names@.len() && (#[trigger] names@[k])@ == repo;
        assert(all[k] == repo);
        assert(all.contains(repo));
    }
    if all.contains(repo) {
        let k = choose|k: int| 0 <= k < all.len() && all[k] == repo;
        assert(names@[k]@ == repo);
    }
}

/// A surface's repositories: whether it has this one, which is first, and whether
/// it is alone.
pub proof fn law_the_repositories_of_a_surface(
    repos: Repos,
    name: &str,
    has: bool,
    first: Option<&str>,
    single: bool,
)
    requires
        call_ensures(Repos::accepts, (&repos, name), has),
        call_ensures(Repos::first, (&repos,), first),
        call_ensures(Repos::is_single, (&repos,), single),
    ensures
        has <==> exists|k: int| 0 <= k < repos.names@.len() && (#[trigger] repos.names@[k])@ == name@,
        first is None <==> repos.names@.len() == 0,
        first matches Some(f) ==> f@ == repos.names@[0]@,
        single <==> repos.names@.len() == 1,
{
    let all = repos@;
    assert(all.len() == repos.names@.len());
    if exists|k: int| 0 <= k < repos.names@.len() && (#[trigger] repos.names@[k])@ == name@ {
        let k = choose|k: int| 0 <= k < repos.names@.len() && (#[trigger] repos.names@[k])@ == name@;
        assert(all[k] == name@);
        assert(all.contains(name@));
    }
    if all.contains(name@) {
        let k = choose|k: int| 0 <= k < all.len() && all[k] == name@;
        assert(repos.names@[k]@ == name@);
    }
}

/// Why a record could not be read is what was noted of that record, and of no
/// other.
pub proof fn law_why_a_record_is_lost(lost: Seq<Unreadable>, id: Seq<char>, i: int)
    requires
        0 <= i <= lost.len(),
        forall|j: int| 0 <= j < i ==> (#[trigger] lost[j]).id@ != id,
    ensures
        i == lost.len() ==> review::why_lost(lost, id) is None,
        i < lost.len() && lost[i].id@ == id ==> review::why_lost(lost, id) == Some(lost[i].why@),
    decreases lost.len(),
{
    if lost.len() > 0 && i > 0 {
        assert(lost[0].id@ != id);
        let rest = lost.skip(1);
        assert forall|j: int| 0 <= j < i - 1 implies (#[trigger] rest[j]).id@ != id by {
            assert(rest[j] == lost[j + 1]);
        }
        law_why_a_record_is_lost(rest, id, i - 1);
        if i < lost.len() {
            assert(rest[i - 1] == lost[i]);
        }
    }
}

// ---------------------------------------------------------------------------
// Refusals
// ---------------------------------------------------------------------------

/// A text of more than five hundred words, or of more than eight kilobytes, is
/// refused, with the number that is too great; any other is not.
pub proof fn law_a_text_is_short_enough_or_refused(s: &str, r: Result<(), String>)
    requires
        call_ensures(filing::check_length, (s,), r),
    ensures
        r is Ok <==> text::word_count(s@) <= 500 && text::byte_len(s@) <= 8192,
        text::word_count(s@) > 500 ==> (r matches Err(e) && ("That is "@ + text::decimal(
            text::word_count(s@),
        ) + " words"@).is_prefix_of(e@)),
        text::word_count(s@) <= 500 && text::byte_len(s@) > 8192 ==> (r matches Err(e) && (
        "That is "@ + text::decimal(text::byte_len(s@)) + " characters"@).is_prefix_of(e@)),
{
    reveal_strlit(" words");
    reveal_strlit(" characters");
    reveal_strlit(
        " words; the limit is 500. Say the essential part — a spec is drafted from your request, not copied from it.",
    );
    reveal_strlit(
        " characters, which is over the 8192 limit even though it is under 500 words.",
    );
    if let Err(e) = r {
        if text::word_count(s@) > 500 {
            let front = "That is "@ + text::decimal(text::word_count(s@)) + " words"@;
            assert(e@.take(front.len() as int) =~= front);
        } else {
            let front = "That is "@ + text::decimal(text::byte_len(s@)) + " characters"@;
            assert(e@.take(front.len() as int) =~= front);
        }
    }
}

/// A filing is refused with what is wrong with it, in the reader's words, and the
/// status says whose doing it is.
pub proof fn law_a_refused_filing_says_why(s: Strings, m: Seq<char>, n: nat)
    ensures
        filing::refused_status(FilingRefusedView::NoSurface) == 404,
        filing::refused_status(FilingRefusedView::Repo) == 400,
        filing::refused_status(FilingRefusedView::Empty) == 400,
        filing::refused_status(FilingRefusedView::Text(m)) == 400,
        filing::refused_status(FilingRefusedView::TooMany(n)) == 429,
        filing::refused_status(FilingRefusedView::Store(m)) == 500,
        filing::refused_message(FilingRefusedView::Repo, s) == s.file_repo_unknown@,
        filing::refused_message(FilingRefusedView::Empty, s) == s.error_empty@,
        filing::refused_message(FilingRefusedView::Text(m), s) == m,
        filing::refused_message(FilingRefusedView::Store(m), s) == m,
        ("That is "@ + text::decimal(n) + " requests in a day"@).is_prefix_of(
            filing::refused_message(FilingRefusedView::TooMany(n), s),
        ),
{
    reveal_strlit(" requests in a day");
    reveal_strlit(
        " requests in a day, which is the limit. Each one is written up by hand on someone's machine, so the cap is there to keep that manageable — try again tomorrow, or say the rest in a request you have already filed.",
    );
    let front = "That is "@ + text::decimal(n) + " requests in a day"@;
    let said = filing::refused_message(FilingRefusedView::TooMany(n), s);
    assert(said.take(front.len() as int) =~= front);
}

/// A list is answered as it is written, or with why it could not be read; a login
/// is an address or is refused.
pub proof fn law_a_list_is_answered(
    body: Result<String, String>,
    r: Res,
    valid: bool,
    checked: Result<(), String>,
)
    requires
        call_ensures(admin::api_admin, (body,), r),
        call_ensures(admin::check_login, (valid,), checked),
    ensures
        body matches Ok(b) ==> r@.status == 200 && r@.body == b@,
        body matches Err(e) ==> r@.status == 500 && r@.body == json::error_body(e@),
        checked is Ok <==> valid,
{
}

// ---------------------------------------------------------------------------
// Screening, from the outside
// ---------------------------------------------------------------------------

/// A completion is asked for at the address that was set, whatever slashes end
/// it; what comes back is read for its reply, and no answer is an approval.
pub proof fn law_a_screener_is_asked_and_read(
    url: &str,
    at: String,
    response: Option<&str>,
    v: Verdict,
)
    requires
        call_ensures(screen::completions_url, (url,), at),
        call_ensures(screen::verdict_or_admit, (response,), v),
    ensures
        at@ == text::trim_back_char(url@, '/') + "/chat/completions"@,
        response is None ==> v == Verdict::Admit,
        response matches Some(b) ==> v == screen::verdict_for(json::chat_reply(b@)),
{
}

/// An id for the log is what was drawn, in hexadecimal, and eight question marks
/// where nothing was.
pub proof fn law_an_id_for_the_log(bytes: Vec<u8>, drawn: String, none: String)
    requires
        call_ensures(serve::id_from, (Some(bytes),), drawn),
        call_ensures(serve::id_from, (None,), none),
    ensures
        drawn@ == seal::hexed(bytes@),
        none@ == seq!['?', '?', '?', '?', '?', '?', '?', '?'],
{
    reveal_strlit("????????");
    assert("????????"@ =~= seq!['?', '?', '?', '?', '?', '?', '?', '?']);
}

/// The hostile cases of a corpus are those marked so, all of them.
pub proof fn law_the_hostile_cases_are_those_marked(corpus: Corpus, r: Vec<&Case>, c: CaseView)
    requires
        call_ensures(Corpus::injections, (&corpus,), r),
    ensures
        (exists|k: int| 0 <= k < r@.len() && (#[trigger] r@[k])@ == c) <==> (exists|i: int|
            0 <= i < corpus.cases@.len() && (#[trigger] corpus.cases@[i])@ == c && c.injection),
{
    broadcast use vstd::seq_lib::group_filter_ensures;

    let f = |x: CaseView| x.injection;
    let all = corpus@;
    let kept = all.filter(f);
    let views = r@.map_values(|x: &Case| x@);
    assert(views == kept);
    assert(all.len() == corpus.cases@.len());
    if exists|k: int| 0 <= k < r@.len() && (#[trigger] r@[k])@ == c {
        let k = choose|k: int| 0 <= k < r@.len() && (#[trigger] r@[k])@ == c;
        assert(views[k] == c);
        assert(kept[k] == c && f(kept[k]));
        assert(kept.contains(c));
        all.lemma_filter_contains_rev(f, c);
        let i = choose|i: int| 0 <= i < all.len() && all[i] == c;
        assert(corpus.cases@[i]@ == c);
    }
    if exists|i: int|
        0 <= i < corpus.cases@.len() && (#[trigger] corpus.cases@[i])@ == c && c.injection {
        let i = choose|i: int|
            0 <= i < corpus.cases@.len() && (#[trigger] corpus.cases@[i])@ == c && c.injection;
        assert(all[i] == c);
        assert(kept.contains(all[i]));
        let k = choose|k: int| 0 <= k < kept.len() && kept[k] == c;
        assert(views[k] == r@[k]@);
    }
}

/// A report says how many cases there were, how much spam was caught and how much
/// was missed, and the two shares.
pub proof fn law_a_report_says_the_score(s: Score, p: Seq<char>, q: Seq<char>)
    ensures
        ({
            let r = screen_eval::report_text(s, Some(p), Some(q));
            let total = s.true_positive + s.false_positive + s.false_negative + s.true_negative;
            ("screened "@ + text::decimal(total as nat) + " cases\n\n  caught spam      "@
                + text::pad_front(text::decimal(s.true_positive as nat), 3, ' ')
                + "\n  missed spam      "@ + text::pad_front(
                text::decimal(s.false_negative as nat),
                3,
                ' ',
            ) + "\n\n  precision        "@ + p + "\n  recall           "@ + q).is_prefix_of(r)
        }),
        ({
            let r = screen_eval::report_text(s, Some(p), Some(q));
            s.wrongly_held@.len() > 0 ==> screen_eval::held_lines(
                text::texts(s.wrongly_held@),
            ).is_suffix_of(r)
        }),
        screen_eval::share(None) == "n/a"@,
{
    let total = s.true_positive + s.false_positive + s.false_negative + s.true_negative;
    let r = screen_eval::report_text(s, Some(p), Some(q));
    let front = "screened "@ + text::decimal(total as nat) + " cases\n\n  caught spam      "@
        + text::pad_front(text::decimal(s.true_positive as nat), 3, ' ')
        + "\n  missed spam      "@ + text::pad_front(
        text::decimal(s.false_negative as nat),
        3,
        ' ',
    ) + "\n\n  precision        "@ + p + "\n  recall           "@ + q;
    assert(r.take(front.len() as int) =~= front);
    let lines = screen_eval::held_lines(text::texts(s.wrongly_held@));
    if s.wrongly_held@.len() > 0 {
        assert(r.skip(r.len() - lines.len()) =~= lines);
    }
}

} // verus!
