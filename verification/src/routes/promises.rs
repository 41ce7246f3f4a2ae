//! What holds of every request.

use vstd::prelude::*;
use vstd::string::*;

use crate::caller::CallerView;
use crate::config::PublicConfig;
use crate::i18n::Locale;
use crate::json;
use crate::request::RequestView;
use crate::routes::answer::{AnswerView, AskView};
use crate::routes::dispatch;
use crate::routes::dispatch::Ctx;
use crate::routes::http;
use crate::routes::http::{Asset, PayloadView, Policy, ReqView};
use crate::routes::pages;
use crate::routes::paths;
use crate::routes::paths::{PREFIX, WORK};
use crate::routes::public_route;
use crate::routes::review;
use crate::store;
use crate::text;

verus! {

/// A stranger changes no request and files none, whatever they send.
pub proof fn law_a_stranger_changes_nothing(ctx: Ctx, req: ReqView, clock: u64)
    requires
        dispatch::who(ctx) is None,
    ensures
        dispatch::outcome(ctx, req, clock).records == ctx.store@,
        dispatch::outcome(ctx, req, clock).minted == ctx.minted,
{
}

/// Reading changes nothing, for anybody: only a daemon's poll claims.
pub proof fn law_reading_changes_nothing(ctx: Ctx, req: ReqView, clock: u64)
    requires
        req.method == "GET"@,
        !WORK@.is_prefix_of(dispatch::path_of(req)),
    ensures
        dispatch::outcome(ctx, req, clock).records == ctx.store@,
        dispatch::outcome(ctx, req, clock).minted == ctx.minted,
{
}

/// Reading a sign-in link answers a page, and spends nothing: whatever fetches
/// every address in a message leaves the link as it was. The page depends on
/// nothing that is known of the link.
pub proof fn law_a_link_is_not_spent_by_reading(ctx: Ctx, req: ReqView, clock: u64)
    requires
        req.method == "GET"@,
        public_route::SIGNIN_PREFIX@.is_prefix_of(dispatch::path_of(req)),
        ctx.allowed,
    ensures
        dispatch::outcome(ctx, req, clock).answer matches AnswerView::Reply(res) && res.status
            == 200 && res.body == pages::confirm_text(
            text::without_prefixes(dispatch::path_of(req), public_route::SIGNIN_PREFIX@),
            http::req_locale(req),
            ctx.strings,
        ),
{
    let path = dispatch::path_of(req);
    reveal_strlit("/public/signin/");
    reveal_strlit("/public/request/");
    reveal_strlit("/public/signin");
    reveal_strlit("/api/v1/work");
    reveal_strlit("/api/v1/ui/");
    reveal_strlit("/request/");
    reveal_strlit("/public");
    reveal_strlit("/");
    reveal_strlit("/review");
    reveal_strlit("/settings");
    reveal_strlit("/repos");
    reveal_strlit("/owners");
    reveal_strlit("/daemons");
    reveal_strlit("/accounts");
    reveal_strlit("/setup");
    reveal_strlit("/ui/app.js");
    reveal_strlit("/ui/app.css");
    reveal_strlit("/ui/body.woff2");
    reveal_strlit("/ui/display.woff2");
    reveal_strlit("GET");
    reveal_strlit("POST");
    assert("GET"@[0] != "POST"@[0]);
    assert(path[1] == public_route::SIGNIN_PREFIX@[1]);
    assert(WORK@[1] == 'a');
    assert(PREFIX@[1] == 'a');
    assert(paths::public_path(path));
    assert(path.len() >= 15);
    assert(path[8] == public_route::SIGNIN_PREFIX@[8]);
    assert(public_route::SIGNIN_PREFIX@[8] == 's');
    assert(public_route::REQUEST_PREFIX@[8] == 'r');
    assert("/request/"@[1] == 'r');
    assert(path[1] == 'p');
}

/// Somebody over their budget is told so, and nothing else happens.
pub proof fn law_the_budget_comes_first(ctx: Ctx, req: ReqView, clock: u64)
    requires
        !ctx.rechecking,
        !ctx.allowed,
    ensures
        dispatch::outcome(ctx, req, clock).records == ctx.store@,
        dispatch::outcome(ctx, req, clock).answer matches AnswerView::Reply(res) && res.status
            == 429,
{
}

/// Looking at a held poll again is counted against nobody.
pub proof fn law_a_recheck_is_not_counted(ctx: Ctx, digest: Seq<char>, req: ReqView)
    requires
        ctx.rechecking,
    ensures
        dispatch::budget_of(ctx, digest, req) is None,
{
}

/// A write from another site's page is refused before anything is done, whoever
/// the browser is signed in as.
pub proof fn law_a_write_from_elsewhere_is_refused(
    ctx: Ctx,
    req: ReqView,
    clock: u64,
    p: PublicConfig,
    origin: Seq<char>,
)
    requires
        ctx.allowed,
        req.method == "POST"@,
        PREFIX@.is_prefix_of(dispatch::path_of(req)),
        ctx.public == Some(p),
        p.base_url@.len() > 0,
        req.origin == Some(origin),
        text::trim_back_char(origin, '/') != text::trim_back_char(p.base_url@, '/'),
    ensures
        dispatch::outcome(ctx, req, clock).records == ctx.store@,
        dispatch::outcome(ctx, req, clock).minted == ctx.minted,
        dispatch::outcome(ctx, req, clock).answer matches AnswerView::Reply(res) && (res.status
            == 403 || res.status == 415),
{
    reveal_strlit("GET");
    reveal_strlit("POST");
    assert("GET"@[0] != "POST"@[0]);
    reveal_strlit("/api/v1/work");
    reveal_strlit("/api/v1/ui/");
    let path = dispatch::path_of(req);
    assert(path[8] == PREFIX@[8]);
    assert(PREFIX@[8] == 'u');
    assert(WORK@[8] == 'w');
}

/// A form cannot write: nothing that does not say it is JSON reaches one of the
/// interface's writes.
pub proof fn law_a_form_cannot_write(ctx: Ctx, req: ReqView, clock: u64)
    requires
        ctx.allowed,
        req.method == "POST"@,
        PREFIX@.is_prefix_of(dispatch::path_of(req)),
        req.content_type matches Some(c) ==> !"application/json"@.is_prefix_of(
            text::trim_front(c),
        ),
    ensures
        dispatch::outcome(ctx, req, clock).records == ctx.store@,
        dispatch::outcome(ctx, req, clock).answer matches AnswerView::Reply(res) && res.status
            == 415,
{
    reveal_strlit("GET");
    reveal_strlit("POST");
    assert("GET"@[0] != "POST"@[0]);
    reveal_strlit("/api/v1/work");
    reveal_strlit("/api/v1/ui/");
    let path = dispatch::path_of(req);
    assert(path[8] == PREFIX@[8]);
    assert(PREFIX@[8] == 'u');
    assert(WORK@[8] == 'w');
}

/// None of the administrator's lists exists for anybody else: asking for one is
/// answered as any address that is not there.
pub proof fn law_the_lists_are_the_administrators(ctx: Ctx, req: ReqView, clock: u64)
    requires
        ctx.allowed,
        !(dispatch::who(ctx) matches Some(CallerView::Admin { .. })),
        req.method == "GET"@,
        PREFIX@.is_prefix_of(dispatch::path_of(req)),
        dispatch::list_named(text::without_prefixes(dispatch::path_of(req), PREFIX@)) is Some,
    ensures
        dispatch::outcome(ctx, req, clock) == dispatch::fails(ctx, 404, "no such endpoint"@),
{
    lemma_the_interface_is_no_daemon(dispatch::path_of(req));
    reveal_strlit("settings");
    reveal_strlit("owners");
    reveal_strlit("repos");
    reveal_strlit("daemons");
    reveal_strlit("accounts");
    reveal_strlit("me");
    reveal_strlit("strings");
    reveal_strlit("setup");
    reveal_strlit("requests");
    reveal_strlit("requests/");
    assert("owners"@[0] == 'o' && "daemons"@[0] == 'd' && "accounts"@[0] == 'a');
    assert("settings"@.len() == 8 && "repos"@.len() == 5);
    assert("strings"@.len() == 7 && "strings"@[0] == 's');
    assert("setup"@[0] == 's' && "requests"@.len() == 8 && "requests"@[0] == 'r');
    assert("settings"@[0] == 's');
    assert("me"@[0] == 'm');
    assert("repos"@[0] == 'r');
    assert("requests/"@[0] == 'r');
    assert("daemons"@.len() == 7);
}

/// Nobody else administers the server: a write that is none of the ways in, no
/// filing and no verb on a request is answered as an address that is not there.
pub proof fn law_only_the_administrator_administers(
    ctx: Ctx,
    req: ReqView,
    rest: Seq<char>,
    sent: json::Sent,
    clock: u64,
)
    requires
        !(dispatch::who(ctx) matches Some(CallerView::Admin { .. })),
        !"requests/"@.is_prefix_of(rest),
        rest != "setup/code"@,
        rest != "setup/admin"@,
        rest != "signin"@,
        rest != "signin/password"@,
        rest != "signout"@,
        rest != "language"@,
        rest != "file"@,
    ensures
        dispatch::write_outcome(ctx, req, rest, sent, clock) == dispatch::fails(
            ctx,
            404,
            "no such endpoint"@,
        ),
{
}

/// A filer is shown what they filed and nothing else.
pub proof fn law_a_filer_sees_their_own(
    s: Seq<RequestView>,
    public: Option<&PublicConfig>,
    id: Seq<char>,
    locale: Locale,
    q: RequestView,
)
    ensures
        review::requests_answer(s, public, Some(CallerView::Account { id }), locale).payload
            matches Some(PayloadView::Filings { requests, .. }) && (requests.contains(q) <==> (
        s.contains(q) && q.account_id == Some(id))),
{
    let keep = |q: RequestView| q.account_id == Some(id);
    assert(s.filter(keep) == review::filed_by(s, id));
    lemma_kept(s, keep, q);
}

/// An owner is shown their repositories' requests and nothing else, and none of
/// the paths on the administrator's machine.
pub proof fn law_an_owner_sees_their_repositories(
    s: Seq<RequestView>,
    public: Option<&PublicConfig>,
    login: Seq<char>,
    repos: Seq<Seq<char>>,
    locale: Locale,
    q: RequestView,
)
    ensures
        review::requests_answer(
            s,
            public,
            Some(CallerView::Owner { login, repos }),
            locale,
        ).payload matches Some(PayloadView::Reviewed { requests, artifacts }) && !artifacts && (
        requests.contains(q) <==> (s.contains(q) && repos.contains(q.repo))),
{
    let keep = |q: RequestView| repos.contains(q.repo);
    assert(s.filter(keep) == review::about(s, repos));
    lemma_kept(s, keep, q);
}

proof fn lemma_kept(s: Seq<RequestView>, keep: spec_fn(RequestView) -> bool, q: RequestView)
    ensures
        s.filter(keep).contains(q) <==> s.contains(q) && keep(q),
{
    broadcast use vstd::seq_lib::group_filter_ensures;

    let kept = s.filter(keep);
    if kept.contains(q) {
        s.lemma_filter_contains_rev(keep, q);
    }
    if s.contains(q) && keep(q) {
        let i = choose|i: int| 0 <= i < s.len() && s[i] == q;
        assert(kept.contains(s[i]));
    }
}

proof fn lemma_the_interface_is_no_daemon(path: Seq<char>)
    requires
        PREFIX@.is_prefix_of(path),
    ensures
        !WORK@.is_prefix_of(path),
{
    reveal_strlit("/api/v1/ui/");
    reveal_strlit("/api/v1/work");
    assert(path[8] == PREFIX@[8]);
    if WORK@.is_prefix_of(path) {
        assert(path[8] == WORK@[8]);
    }
}

/// Whatever the interface's endpoints answer at once is JSON, failures included,
/// and may run no script.
pub proof fn law_the_interface_answers_in_json(ctx: Ctx, req: ReqView, clock: u64)
    requires
        PREFIX@.is_prefix_of(dispatch::path_of(req)),
    ensures
        dispatch::outcome(ctx, req, clock).answer matches AnswerView::Reply(res) ==> {
            &&& res.content_type == "application/json"@
            &&& res.policy == Policy::Strict
        },
{
    lemma_the_interface_is_no_daemon(dispatch::path_of(req));
}

/// Is this answer neither held open nor tagged, where it is one?
pub open spec fn is_plain(answer: AnswerView) -> bool {
    answer matches AnswerView::Reply(res) ==> !res.hold_for_work && res.etag is None
}

#[verifier::spinoff_prover]
proof fn lemma_a_verb_is_answered_plainly(
    ctx: Ctx,
    req: ReqView,
    id: Seq<char>,
    verb: Seq<char>,
    sent: json::Sent,
)
    ensures
        is_plain(
            AnswerView::Reply(
                review::verb_answer(
                    ctx.store@,
                    review::why_lost(ctx.unreadable@, id),
                    dispatch::surface(&ctx.public),
                    dispatch::who(ctx),
                    http::req_locale(req),
                    id,
                    verb,
                    sent,
                    ctx.now_ms,
                ).0,
            ),
        ),
{
}

#[verifier::spinoff_prover]
proof fn lemma_a_write_is_answered_plainly(
    ctx: Ctx,
    req: ReqView,
    rest: Seq<char>,
    sent: json::Sent,
    clock: u64,
)
    ensures
        is_plain(dispatch::write_outcome(ctx, req, rest, sent, clock).answer),
{
    match text::after_prefix(rest, "requests/"@) {
        Some(tail) => match text::split_at_first(tail, '/') {
            None => {},
            Some((id, verb)) => {
                lemma_a_verb_is_answered_plainly(
                    ctx,
                    req,
                    id,
                    verb,
                    json::fields_unless_blank(req.body, sent),
                );
            },
        },
        None => {},
    }
}

/// Only a poll is held open, and only the words carry a tag: nothing that is
/// answered at once does either.
#[verifier::spinoff_prover]
pub proof fn law_what_is_answered_at_once_is_not_held(ctx: Ctx, req: ReqView, clock: u64)
    ensures
        is_plain(dispatch::outcome(ctx, req, clock).answer),
{
    lemma_a_write_is_answered_plainly(
        ctx,
        req,
        text::without_prefixes(dispatch::path_of(req), PREFIX@),
        json::json_fields(req.body),
        clock,
    );
}

/// Nothing an owner is answered at a public address may run script: what they
/// review was written by many people.
pub proof fn law_an_owners_public_answer_runs_no_script(ctx: Ctx, req: ReqView)
    requires
        dispatch::who(ctx) matches Some(CallerView::Owner { .. }),
        ctx.public is Some,
    ensures
        dispatch::public_answer(ctx, req) matches AnswerView::Reply(res) ==> res.policy
            == Policy::Strict,
        dispatch::public_answer(ctx, req) matches AnswerView::Ask(
            AskView::SpendLink { policy, .. },
        ) ==> policy == Policy::Strict,
{
}

proof fn lemma_a_public_path_is_nothing_else(path: Seq<char>)
    requires
        paths::public_path(path),
    ensures
        !WORK@.is_prefix_of(path),
        !PREFIX@.is_prefix_of(path),
        dispatch::file_at(path) is None,
{
    reveal_strlit("/");
    reveal_strlit("/public");
    reveal_strlit("/public/signin");
    reveal_strlit("/public/signout");
    reveal_strlit("/public/language");
    reveal_strlit("/public/signin/");
    reveal_strlit("/public/request/");
    reveal_strlit("/api/v1/ui/");
    reveal_strlit("/api/v1/work");
    reveal_strlit("/ui/app.js");
    reveal_strlit("/ui/app.css");
    reveal_strlit("/ui/body.woff2");
    reveal_strlit("/ui/display.woff2");
    if path.len() > 1 {
        assert(path[1] == 'p') by {
            if public_route::SIGNIN_PREFIX@.is_prefix_of(path) {
                assert(path[1] == public_route::SIGNIN_PREFIX@[1]);
            }
            if public_route::REQUEST_PREFIX@.is_prefix_of(path) {
                assert(path[1] == public_route::REQUEST_PREFIX@[1]);
            }
        }
    }
    if WORK@.is_prefix_of(path) {
        assert(path[1] == WORK@[1]);
    }
    if PREFIX@.is_prefix_of(path) {
        assert(path[1] == PREFIX@[1]);
    }
}

/// A post to the address of a link that was mailed spends the token that went
/// into it.
pub proof fn law_a_mailed_link_spends_its_token(
    ctx: Ctx,
    req: ReqView,
    token: Seq<char>,
    clock: u64,
)
    requires
        ctx.allowed,
        req.method == "POST"@,
        req.path == public_route::SIGNIN_PREFIX@ + token,
        !token.contains('?'),
        !public_route::SIGNIN_PREFIX@.is_prefix_of(token),
    ensures
        dispatch::outcome(ctx, req, clock).answer matches AnswerView::Ask(
            AskView::SpendLink { token: spent, .. },
        ) && spent == token,
{
    let prefix = public_route::SIGNIN_PREFIX@;
    reveal_strlit("/public/signin/");
    reveal_strlit("/public/language");
    reveal_strlit("GET");
    reveal_strlit("POST");
    assert("GET"@[0] != "POST"@[0]);
    assert forall|i: int| 0 <= i < req.path.len() implies req.path[i] != '?' by {
        if i < prefix.len() {
            assert(req.path[i] == prefix[i]);
        } else {
            assert(req.path[i] == token[i - prefix.len()]);
            assert(token.contains(token[i - prefix.len()]));
        }
    }
    text::lemma_first_is_none(req.path, '?');
    assert(prefix =~= req.path.take(prefix.len() as int));
    assert(req.path.skip(prefix.len() as int) =~= token);
    reveal_with_fuel(text::without_prefixes, 2);
    assert(req.path[8] == prefix[8]);
    lemma_a_public_path_is_nothing_else(req.path);
}

/// Without a public surface there is nothing at a public address but the
/// interface's own document and a link's landing: it does not exist, rather than
/// existing and refusing.
pub proof fn law_no_surface_is_no_address(ctx: Ctx, req: ReqView, clock: u64)
    requires
        ctx.public is None,
        ctx.allowed,
        paths::public_path(dispatch::path_of(req)),
        !public_route::SIGNIN_PREFIX@.is_prefix_of(dispatch::path_of(req)),
        req.method == "GET"@ ==> !paths::document_path(dispatch::path_of(req)),
    ensures
        dispatch::outcome(ctx, req, clock) == dispatch::reply(
            ctx,
            http::page_res(404, Asset::NotFound),
        ),
{
    lemma_a_public_path_is_nothing_else(dispatch::path_of(req));
}

} // verus!
