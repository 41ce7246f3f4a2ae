//! What becomes of a filing.

use vstd::prelude::*;
use vstd::string::*;

use crate::caller::CallerView;
use crate::config::PublicConfig;
use crate::guarantees::access;
use crate::guarantees::counting;
use crate::json;
use crate::request::{IntakeKind, RequestState, RequestView};
use crate::routes::answer::AnswerView;
use crate::routes::dispatch;
use crate::routes::dispatch::Ctx;
use crate::routes::filing;
use crate::routes::http;
use crate::routes::http::{PayloadView, ReqView};
use crate::store;
use crate::text;

verus! {

/// Does a filing that names this, or nothing, land in this repository? It is the
/// only one where none is named, and otherwise the one that is named, where the
/// surface serves it.
pub open spec fn lands_in(served: Seq<String>, named: Option<Seq<char>>, repo: Seq<char>) -> bool {
    let blank = named is None || text::trimmed(named.unwrap()).len() == 0;
    ||| blank && served.len() == 1 && repo == served[0]@
    ||| !(blank && served.len() == 1) && named is Some && repo == text::trimmed(named.unwrap())
        && access::named_in(served, repo)
}

/// Where an account's filings of the last twenty-four hours stand.
pub open spec fn filings_of_a_day(s: Seq<RequestView>, account: Seq<char>, now_ms: u64) -> Set<int> {
    Set::new(
        |i: int|
            0 <= i < s.len() && s[i].account_id == Some(account) && s[i].filed_ms + 86_400_000
                >= now_ms,
    )
}

/// Is a text no longer than a filing may be: five hundred words, and eight
/// kilobytes?
pub open spec fn short_enough(words: Seq<char>) -> bool {
    text::word_count(words) <= 500 && text::byte_len(words) <= 8192
}

/// The kind that a filing says it is. What is not one there is is a feature.
pub open spec fn says_kind(slug: Option<Seq<char>>, kind: IntakeKind) -> bool {
    match kind {
        IntakeKind::Bug => slug == Some("bug"@),
        IntakeKind::Improvement => slug == Some("improvement"@),
        IntakeKind::Feedback => slug == Some("feedback"@),
        IntakeKind::Feature => slug != Some("bug"@) && slug != Some("improvement"@) && slug != Some(
            "feedback"@,
        ),
    }
}

pub proof fn lemma_lands(served: Seq<String>, named: Option<Seq<char>>)
    ensures
        forall|repo: Seq<char>|
            lands_in(served, named, repo) <==> filing::chosen_repo(
                text::texts(served),
                named,
            ) == Some(repo),
{
    let all = text::texts(served);
    assert forall|repo: Seq<char>| lands_in(served, named, repo) <==> filing::chosen_repo(all, named)
        == Some(repo) by {
        assert(all.contains(repo) == access::named_in(served, repo)) by {
            if all.contains(repo) {
                let k = choose|k: int| 0 <= k < all.len() && all[k] == repo;
                assert(served[k]@ == repo);
            }
            if access::named_in(served, repo) {
                let k = choose|k: int| 0 <= k < served.len() && (#[trigger] served[k])@ == repo;
                assert(all[k] == repo);
            }
        }
        if served.len() == 1 {
            assert(all[0] == served[0]@);
        }
    }
}

pub proof fn lemma_filings(s: Seq<RequestView>, account: Seq<char>, now_ms: u64)
    ensures
        filings_of_a_day(s, account, now_ms).finite(),
        filings_of_a_day(s, account, now_ms).len() == filing::filed_today(s, account, now_ms),
{
    let f = |q: RequestView| store::filed_after(q, account, filing::window_start(now_ms));
    counting::lemma_places(s, f);
    assert(counting::places(s, f) =~= filings_of_a_day(s, account, now_ms));
}

/// What an account files within the rules is stored as it was given: its words
/// without the space around them, in the repository it is for, of the kind it
/// says, dated now, by that account; where there is a screener it waits for it,
/// and nothing has happened to it yet. It is answered with that record, under an
/// id of its own, and no other record changes.
pub proof fn law_what_an_account_files_is_stored_as_it_was_given(
    ctx: Ctx,
    req: ReqView,
    sent: json::Sent,
    clock: u64,
    account: Seq<char>,
    p: PublicConfig,
    repo: Seq<char>,
    kind: IntakeKind,
    other: Seq<char>,
)
    requires
        store::well_kept(ctx.store@),
        dispatch::who(ctx) == Some(CallerView::Account { id: account }),
        ctx.public == Some(p),
        lands_in(p.repos.names@, json::text_field(json::fields_in(sent), "repo"@), repo),
        says_kind(json::text_field(json::fields_in(sent), "kind"@), kind),
        text::trimmed(json::text_or_empty(json::fields_in(sent), "text"@)).len() > 0,
        short_enough(text::trimmed(json::text_or_empty(json::fields_in(sent), "text"@))),
        filings_of_a_day(ctx.store@, account, ctx.now_ms).len() < p.max_daily_filings,
        other != store::id_text(clock, ctx.minted),
    ensures
        ({
            let o = dispatch::write_outcome(ctx, req, "file"@, sent, clock);
            let id = store::id_text(clock, ctx.minted);
            let q = RequestView {
                id,
                text: text::trimmed(json::text_or_empty(json::fields_in(sent), "text"@)),
                repo,
                kind,
                state: if p.screen {
                    RequestState::Screening
                } else {
                    RequestState::Queued
                },
                filed_ms: ctx.now_ms,
                spec: None,
                artifact_dir: None,
                note: None,
                send_back_note: None,
                drafted_ms: None,
                account_id: Some(account),
                claimed_ms: None,
                claimed_by: None,
                drafts: Seq::empty(),
            };
            &&& store::record(o.records, id) == Some(q)
            &&& store::record(o.records, other) == store::record(ctx.store@, other)
            &&& o.minted == ctx.minted.wrapping_add(1)
            &&& o.answer matches AnswerView::Reply(res)
            &&& res.status == 200
            &&& res.payload == Some(
                PayloadView::Filing {
                    request: q,
                    show_spec: p.show_spec,
                    locale: http::req_locale(req),
                },
            )
        }),
{
    let fields = json::fields_in(sent);
    let named = json::text_field(fields, "repo"@);
    let said = json::text_or_empty(fields, "text"@);
    lemma_file_is_an_endpoint();
    lemma_lands(p.repos.names@, named);
    lemma_filings(ctx.store@, account, ctx.now_ms);
    assert(filing::chosen_repo(p.repos@, named) == Some(repo));
    lemma_kinds(json::text_field(fields, "kind"@), kind);
    assert(dispatch::kind_in(fields) == kind);
    let id = store::id_text(clock, ctx.minted);
    let q = filing::filing(&p, account, named, said, kind, ctx.now_ms, id);
    assert(store::cleaned(q) =~= q);
    store::lemma_with_record_kept(ctx.store@, q);
    assert(filing::filing_refusal(
        ctx.store@,
        dispatch::surface(&ctx.public),
        account,
        named,
        said,
        ctx.now_ms,
    ) is None);
}

proof fn lemma_file_is_an_endpoint()
    ensures
        !"requests/"@.is_prefix_of("file"@),
        "file"@ != "setup/code"@,
        "file"@ != "setup/admin"@,
        "file"@ != "signin"@,
        "file"@ != "signin/password"@,
        "file"@ != "signout"@,
        "file"@ != "language"@,
{
    reveal_strlit("requests/");
    reveal_strlit("file");
    reveal_strlit("setup/code");
    reveal_strlit("setup/admin");
    reveal_strlit("signin");
    reveal_strlit("signin/password");
    reveal_strlit("signout");
    reveal_strlit("language");
    assert("file"@[0] == 'f');
    assert("setup/code"@[0] == 's' && "setup/admin"@[0] == 's' && "signin"@[0] == 's');
    assert("signin/password"@[0] == 's' && "signout"@[0] == 's' && "language"@[0] == 'l');
}

proof fn lemma_kinds(slug: Option<Seq<char>>, kind: IntakeKind)
    requires
        says_kind(slug, kind),
    ensures
        slug matches Some(k) ==> (match crate::request::kind_of(k) {
            Some(found) => found == kind,
            None => kind == IntakeKind::Feature,
        }),
        slug is None ==> kind == IntakeKind::Feature,
{
    reveal_strlit("bug");
    reveal_strlit("feature");
    reveal_strlit("improvement");
    reveal_strlit("feedback");
    assert("bug"@[0] == 'b' && "improvement"@[0] == 'i');
    assert("feature"@.len() == 7 && "feedback"@.len() == 8);
    assert("feature"@[0] == 'f' && "feedback"@[0] == 'f');
}

/// An account's filing is refused, and changes nothing, exactly where there is no
/// surface, no repository for it, nothing in it, too much in it, or the account
/// has filed all it may in the twenty-four hours up to now; and each is answered
/// with its own status.
pub proof fn law_a_filing_beyond_the_rules_is_refused(
    ctx: Ctx,
    req: ReqView,
    sent: json::Sent,
    clock: u64,
    account: Seq<char>,
)
    requires
        dispatch::who(ctx) == Some(CallerView::Account { id: account }),
    ensures
        ({
            let o = dispatch::write_outcome(ctx, req, "file"@, sent, clock);
            let words = text::trimmed(json::text_or_empty(json::fields_in(sent), "text"@));
            let named = json::text_field(json::fields_in(sent), "repo"@);
            &&& o.answer matches AnswerView::Reply(res)
            &&& res.status != 200 ==> o.records == ctx.store@ && o.minted == ctx.minted
            &&& match ctx.public {
                None => res.status == 404,
                Some(p) => if !(exists|repo: Seq<char>| lands_in(p.repos.names@, named, repo)) {
                    res.status == 400
                } else if words.len() == 0 {
                    res.status == 400
                } else if !short_enough(words) {
                    res.status == 400
                } else if filings_of_a_day(ctx.store@, account, ctx.now_ms).len()
                    >= p.max_daily_filings {
                    res.status == 429
                } else {
                    res.status == 200
                },
            }
        }),
{
    let fields = json::fields_in(sent);
    let named = json::text_field(fields, "repo"@);
    lemma_file_is_an_endpoint();
    lemma_filings(ctx.store@, account, ctx.now_ms);
    if let Some(p) = ctx.public {
        lemma_lands(p.repos.names@, named);
        if let Some(repo) = filing::chosen_repo(p.repos@, named) {
            assert(lands_in(p.repos.names@, named, repo));
        }
    }
}

/// Whoever claimed the server files against any repository they name, without a
/// ceiling and without a screener: what they file is queued as it was given, by
/// no account.
pub proof fn law_what_the_administrator_files_is_queued_as_it_was_given(
    ctx: Ctx,
    req: ReqView,
    sent: json::Sent,
    clock: u64,
    login: Seq<char>,
    named: Seq<char>,
    kind: IntakeKind,
    other: Seq<char>,
)
    requires
        store::well_kept(ctx.store@),
        dispatch::who(ctx) == Some(CallerView::Admin { login }),
        json::text_field(json::fields_in(sent), "repo"@) == Some(named),
        text::trimmed(named).len() > 0,
        says_kind(json::text_field(json::fields_in(sent), "kind"@), kind),
        text::trimmed(json::text_or_empty(json::fields_in(sent), "text"@)).len() > 0,
        short_enough(text::trimmed(json::text_or_empty(json::fields_in(sent), "text"@))),
        other != store::id_text(clock, ctx.minted),
    ensures
        ({
            let o = dispatch::write_outcome(ctx, req, "file"@, sent, clock);
            let id = store::id_text(clock, ctx.minted);
            let q = RequestView {
                id,
                text: text::trimmed(json::text_or_empty(json::fields_in(sent), "text"@)),
                repo: text::trimmed(named),
                kind,
                state: RequestState::Queued,
                filed_ms: clock,
                spec: None,
                artifact_dir: None,
                note: None,
                send_back_note: None,
                drafted_ms: None,
                account_id: None,
                claimed_ms: None,
                claimed_by: None,
                drafts: Seq::empty(),
            };
            &&& store::record(o.records, id) == Some(q)
            &&& store::record(o.records, other) == store::record(ctx.store@, other)
            &&& o.minted == ctx.minted.wrapping_add(1)
            &&& o.answer matches AnswerView::Reply(res)
            &&& res.status == 200
            &&& res.payload == Some(
                PayloadView::Review { request: q, artifacts: true, coverage: false },
            )
        }),
{
    let fields = json::fields_in(sent);
    let said = json::text_or_empty(fields, "text"@);
    lemma_file_is_an_endpoint();
    lemma_kinds(json::text_field(fields, "kind"@), kind);
    let id = store::id_text(clock, ctx.minted);
    let q = crate::request::fresh(
        id,
        text::trimmed(said),
        text::trimmed(named),
        kind,
        RequestState::Queued,
        None,
        clock,
    );
    assert(store::cleaned(q) =~= q);
    store::lemma_with_record_kept(ctx.store@, q);
}

/// Whoever claimed the server is refused a filing without words, without a
/// repository or with too many words, and nothing changes. Nobody else but an
/// account files at all.
pub proof fn law_nobody_files_without_words_or_a_place(
    ctx: Ctx,
    req: ReqView,
    sent: json::Sent,
    clock: u64,
)
    requires
        !(dispatch::who(ctx) matches Some(CallerView::Account { .. })),
        !(dispatch::who(ctx) matches Some(CallerView::Admin { .. })) || text::trimmed(
            json::text_or_empty(json::fields_in(sent), "text"@),
        ).len() == 0 || !short_enough(
            text::trimmed(json::text_or_empty(json::fields_in(sent), "text"@)),
        ) || text::trimmed(json::text_or_empty(json::fields_in(sent), "repo"@)).len() == 0,
    ensures
        ({
            let o = dispatch::write_outcome(ctx, req, "file"@, sent, clock);
            &&& o.records == ctx.store@
            &&& o.minted == ctx.minted
            &&& o.answer matches AnswerView::Reply(res)
            &&& res.status == (if dispatch::who(ctx) matches Some(CallerView::Admin { .. }) {
                400u16
            } else {
                404u16
            })
        }),
{
    lemma_file_is_an_endpoint();
}

} // verus!
