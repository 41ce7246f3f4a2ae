//! What stands at which address, and whose budget a request is counted against.

use vstd::prelude::*;
use vstd::string::*;

use crate::caller::{BucketView, CallerView};
use crate::guarantees::{routing, wording};
use crate::json;
use crate::json::FieldView;
use crate::routes::admin;
use crate::routes::answer::{AnswerView, AskView};
use crate::routes::dispatch;
use crate::routes::dispatch::Ctx;
use crate::routes::http;
use crate::routes::http::{Asset, Policy, ReqView};
use crate::routes::pages;
use crate::routes::paths;
use crate::serve;
use crate::text;

verus! {

// ---------------------------------------------------------------------------
// Budgets
// ---------------------------------------------------------------------------

/// Whoever is known is counted by who they are, at every address; looking at a
/// held poll again is counted against nobody.
pub proof fn law_who_is_known_is_counted_as_themselves(
    ctx: Ctx,
    digest: Seq<char>,
    req: ReqView,
    label: Seq<char>,
    repos: Seq<Seq<char>>,
)
    ensures
        ctx.rechecking ==> dispatch::budget_of(ctx, digest, req) is None,
        !ctx.rechecking && dispatch::who(ctx) is Some ==> dispatch::budget_of(ctx, digest, req)
            == Some(BucketView::Credential(digest)),
        paths::counted_as(CallerView::Daemon { label }) == label,
        paths::counted_as(CallerView::Admin { login: label }) == label,
        paths::counted_as(CallerView::Account { id: label }) == label,
        paths::counted_as(CallerView::Owner { login: label, repos }) == label,
{
}

/// A stranger who guesses passwords, or is where strangers have no business, is
/// counted apart; one who asks to sign in or out, or for a language, among those
/// who write; and one who reads what anybody may among those who read.
#[verifier::spinoff_prover]
pub proof fn law_a_stranger_is_counted_by_what_they_do(token: Seq<char>, other: Seq<char>)
    requires
        other.len() >= 2,
        other[0] == '/',
        other[1] == 'z',
    ensures
        paths::stranger_bucket("/public/signin/password"@) == BucketView::AnonPrivate,
        paths::stranger_bucket("/api/v1/ui/signin/password"@) == BucketView::AnonPrivate,
        paths::stranger_bucket("/api/v1/ui/signin"@) == BucketView::PublicWrite,
        paths::stranger_bucket("/api/v1/ui/signout"@) == BucketView::PublicWrite,
        paths::stranger_bucket("/api/v1/ui/language"@) == BucketView::PublicWrite,
        paths::stranger_bucket("/public/signin"@) == BucketView::PublicWrite,
        "/public/signin/"@ + token != "/public/signin/password"@ ==> paths::stranger_bucket(
            "/public/signin/"@ + token,
        ) == BucketView::PublicWrite,
        paths::stranger_bucket("/api/v1/ui/me"@) == BucketView::PublicRead,
        paths::stranger_bucket("/api/v1/ui/strings"@) == BucketView::PublicRead,
        paths::stranger_bucket("/ui/app.js"@) == BucketView::PublicRead,
        paths::stranger_bucket("/ui/app.css"@) == BucketView::PublicRead,
        paths::stranger_bucket("/"@) == BucketView::PublicRead,
        paths::stranger_bucket("/public"@) == BucketView::PublicRead,
        paths::stranger_bucket("/public/request/"@ + token) == BucketView::PublicRead,
        paths::stranger_bucket(other) == BucketView::AnonPrivate,
{
    reveal_strlit("/public/signin/password");
    reveal_strlit("/api/v1/ui/signin/password");
    reveal_strlit("/api/v1/ui/signin");
    reveal_strlit("/api/v1/ui/signout");
    reveal_strlit("/api/v1/ui/language");
    reveal_strlit("/public/signin");
    reveal_strlit("/public/signin/");
    reveal_strlit("/public/signout");
    reveal_strlit("/public/language");
    reveal_strlit("/public/request/");
    reveal_strlit("/api/v1/ui/me");
    reveal_strlit("/api/v1/ui/strings");
    reveal_strlit("/ui/app.js");
    reveal_strlit("/ui/app.css");
    reveal_strlit("/");
    reveal_strlit("/public");
    reveal_strlit("/api/v1/ui/");
    reveal_strlit("signin/password");
    reveal_strlit("signin");
    reveal_strlit("signout");
    reveal_strlit("language");
    assert("/api/v1/ui/"@ + "signin/password"@ =~= "/api/v1/ui/signin/password"@);
    assert("/api/v1/ui/"@ + "signin"@ =~= "/api/v1/ui/signin"@);
    assert("/api/v1/ui/"@ + "signout"@ =~= "/api/v1/ui/signout"@);
    assert("/api/v1/ui/"@ + "language"@ =~= "/api/v1/ui/language"@);
    assert("/api/v1/ui/signin/password"@.len() == 26 && "/api/v1/ui/signin"@.len() == 17);
    assert("/api/v1/ui/signout"@.len() == 18 && "/api/v1/ui/language"@.len() == 19);
    assert("/api/v1/ui/me"@.len() == 13 && "/api/v1/ui/strings"@.len() == 18);
    assert("/api/v1/ui/signout"@[13] == 'g' && "/api/v1/ui/strings"@[13] == 'r');
    assert("/ui/app.js"@.len() == 10 && "/ui/app.css"@.len() == 11 && "/"@.len() == 1);
    assert("/public"@.len() == 7 && "/public/signin"@.len() == 14);
    assert("/public/signin/password"@.len() == 23 && "/public/signin/"@.len() == 15);
    assert("/public/signout"@.len() == 15 && "/public/language"@.len() == 16);
    assert("/public/request/"@.len() == 16);
    assert("/api/v1/ui/signin/password"@[1] == 'a' && "/api/v1/ui/signin"@[1] == 'a');
    assert("/api/v1/ui/signout"@[1] == 'a' && "/api/v1/ui/language"@[1] == 'a');
    assert("/api/v1/ui/me"@[1] == 'a' && "/api/v1/ui/strings"@[1] == 'a');
    assert("/ui/app.js"@[1] == 'u' && "/ui/app.css"@[1] == 'u');
    assert("/public"@[1] == 'p' && "/public/signin"@[1] == 'p' && "/public/signin/"@[1] == 'p');
    assert("/public/signin/password"@[1] == 'p' && "/public/signout"@[1] == 'p');
    assert("/public/language"@[1] == 'p' && "/public/request/"@[1] == 'p');
    let link = "/public/signin/"@ + token;
    assert(link.take(15) =~= "/public/signin/"@);
    assert(link[1] == 'p' && link[14] == '/' && link.len() >= 15);
    let page = "/public/request/"@ + token;
    assert(page.take(16) =~= "/public/request/"@);
    assert(page[1] == 'p' && page[8] == 'r' && page.len() >= 16);
    assert("/public/signin/"@[8] == 's' && "/public/signin"@[8] == 's');
    assert("/public/signin/password"@[8] == 's' && "/public/language"@[8] == 'l');
    assert("/public/signout"@[8] == 's' && "/public/signout"@[12] == 'o');
}

// ---------------------------------------------------------------------------
// Documents, files and links
// ---------------------------------------------------------------------------

/// The interface's files are served as what they are, to anybody who reads them.
pub proof fn law_the_files_are_served_as_what_they_are()
    ensures
        dispatch::file_at("/ui/app.js"@) matches Some(r) && r.status == 200 && r.asset == Some(
            Asset::Script,
        ) && r.content_type == "text/javascript; charset=utf-8"@,
        dispatch::file_at("/ui/app.css"@) matches Some(r) && r.status == 200 && r.asset == Some(
            Asset::Style,
        ) && r.content_type == "text/css; charset=utf-8"@,
        dispatch::file_at("/ui/body.woff2"@) matches Some(r) && r.status == 200 && r.asset == Some(
            Asset::FontBody,
        ) && r.content_type == "font/woff2"@,
        dispatch::file_at("/ui/display.woff2"@) matches Some(r) && r.status == 200 && r.asset
            == Some(Asset::FontDisplay) && r.content_type == "font/woff2"@,
{
    reveal_strlit("/ui/app.js");
    reveal_strlit("/ui/app.css");
    reveal_strlit("/ui/body.woff2");
    reveal_strlit("/ui/display.woff2");
    assert("/ui/app.js"@.len() == 10 && "/ui/app.css"@.len() == 11);
    assert("/ui/body.woff2"@.len() == 14 && "/ui/display.woff2"@.len() == 17);
}

/// Is this one of the interface's pages?
pub open spec fn is_a_page(path: Seq<char>) -> bool {
    ||| path == "/"@
    ||| path == "/public"@
    ||| path == "/public/signin"@
    ||| path == "/review"@
    ||| path == "/settings"@
    ||| path == "/repos"@
    ||| path == "/owners"@
    ||| path == "/daemons"@
    ||| path == "/accounts"@
    ||| path == "/setup"@
    ||| exists|id: Seq<char>| path == #[trigger] ("/request/"@ + id)
    ||| exists|id: Seq<char>| path == #[trigger] ("/public/request/"@ + id)
}

/// Whoever reads one of the interface's pages is given its document, and nothing
/// is changed.
pub proof fn law_the_pages_are_the_interfaces_document(
    ctx: Ctx,
    req: ReqView,
    sent: json::Sent,
    clock: u64,
)
    requires
        routing::let_in(ctx),
        req.method == "GET"@,
        is_a_page(text::head(req.path, '?')),
    ensures
        ({
            let o = dispatch::outcome_of(ctx, req, sent, clock);
            &&& o.records == ctx.store@
            &&& o.minted == ctx.minted
            &&& o.answer matches AnswerView::Reply(res)
            &&& res.status == 200
            &&& res.asset == Some(Asset::Index)
            &&& res.policy == Policy::PublicScript
            &&& res.set_cookie is None
        }),
{
    let path = text::head(req.path, '?');
    reveal_strlit("/api/v1/work");
    reveal_strlit("/api/v1/ui/");
    reveal_strlit("/");
    reveal_strlit("/public");
    reveal_strlit("/public/signin");
    reveal_strlit("/review");
    reveal_strlit("/settings");
    reveal_strlit("/repos");
    reveal_strlit("/owners");
    reveal_strlit("/daemons");
    reveal_strlit("/accounts");
    reveal_strlit("/setup");
    reveal_strlit("/request/");
    reveal_strlit("/public/request/");
    if exists|id: Seq<char>| path == #[trigger] ("/request/"@ + id) {
        assert(path.take(9) =~= "/request/"@);
    }
    if exists|id: Seq<char>| path == #[trigger] ("/public/request/"@ + id) {
        assert(path.take(16) =~= "/public/request/"@);
    }
    assert("/api/v1/work"@[1] == 'a' && "/api/v1/ui/"@[1] == 'a' && "/api/v1/work"@[2] == 'p');
    assert("/api/v1/ui/"@[2] == 'p' && "/accounts"@[2] == 'c' && "/"@.len() == 1);
    assert("/public"@[1] == 'p' && "/public/signin"@[1] == 'p' && "/review"@[1] == 'r');
    assert("/settings"@[1] == 's' && "/repos"@[1] == 'r' && "/owners"@[1] == 'o');
    assert("/daemons"@[1] == 'd' && "/setup"@[1] == 's' && "/request/"@[1] == 'r');
    assert("/public/request/"@[1] == 'p');
}

proof fn lemma_a_link(path: Seq<char>, token: Seq<char>)
    requires
        path == "/public/signin/"@ + token,
        !"/public/signin/"@.is_prefix_of(token),
    ensures
        "/public/signin/"@.is_prefix_of(path),
        text::without_prefixes(path, "/public/signin/"@) == token,
        !"/api/v1/work"@.is_prefix_of(path),
        !"/api/v1/ui/"@.is_prefix_of(path),
        !paths::document_path(path),
        dispatch::file_at(path) is None,
        paths::public_path(path),
        path != "/public/language"@,
{
    reveal_strlit("/public/signin/");
    assert(path.take(15) =~= "/public/signin/"@);
    assert(path.skip(15) =~= token);
    reveal_with_fuel(text::without_prefixes, 2);
    reveal_strlit("/api/v1/work");
    reveal_strlit("/api/v1/ui/");
    reveal_strlit("/");
    reveal_strlit("/public");
    reveal_strlit("/public/signin");
    reveal_strlit("/review");
    reveal_strlit("/settings");
    reveal_strlit("/repos");
    reveal_strlit("/owners");
    reveal_strlit("/daemons");
    reveal_strlit("/accounts");
    reveal_strlit("/setup");
    reveal_strlit("/request/");
    reveal_strlit("/public/request/");
    reveal_strlit("/public/language");
    reveal_strlit("/ui/app.js");
    reveal_strlit("/ui/app.css");
    reveal_strlit("/ui/body.woff2");
    reveal_strlit("/ui/display.woff2");
    assert(path[1] == 'p' && path[8] == 's' && path.len() >= 15);
    assert("/api/v1/work"@[1] == 'a' && "/api/v1/ui/"@[1] == 'a' && "/"@.len() == 1);
    assert("/public"@.len() == 7 && "/public/signin"@.len() == 14 && "/review"@[1] == 'r');
    assert("/settings"@[1] == 's' && "/repos"@[1] == 'r' && "/owners"@[1] == 'o');
    assert("/daemons"@[1] == 'd' && "/setup"@[1] == 's' && "/request/"@[1] == 'r');
    assert("/accounts"@[1] == 'a' && "/public/request/"@[8] == 'r' && "/ui/app.js"@[1] == 'u');
    assert("/ui/app.css"@[1] == 'u' && "/ui/body.woff2"@[1] == 'u');
    assert("/ui/display.woff2"@[1] == 'u' && "/public/language"@[8] == 'l');
}

/// Reading a mailed link asks whether to sign in, with the token that the link
/// holds, and spends nothing; sending that form spends that token.
pub proof fn law_a_mailed_link_asks_and_then_spends(
    ctx: Ctx,
    req: ReqView,
    sent: json::Sent,
    clock: u64,
    token: Seq<char>,
)
    requires
        routing::let_in(ctx),
        text::head(req.path, '?') == "/public/signin/"@ + token,
        !"/public/signin/"@.is_prefix_of(token),
    ensures
        ({
            let o = dispatch::outcome_of(ctx, req, sent, clock);
            &&& o.records == ctx.store@
            &&& o.minted == ctx.minted
            &&& req.method == "GET"@ ==> (o.answer matches AnswerView::Reply(res) && res.status
                == 200 && res.set_cookie is None && res.body == pages::confirm_text(
                token,
                http::req_locale(req),
                ctx.strings,
            ))
            &&& req.method == "POST"@ ==> (o.answer matches AnswerView::Ask(
                AskView::SpendLink { token: t, .. },
            ) && t == token)
        }),
{
    reveal_strlit("GET");
    reveal_strlit("POST");
    assert("GET"@[0] != "POST"@[0]);
    lemma_a_link(text::head(req.path, '?'), token);
}

/// Whoever claimed the server takes from a list by naming the list, what is to go
/// and the verb; another verb takes nothing.
pub proof fn law_something_is_taken_by_its_address(
    ctx: Ctx,
    req: ReqView,
    fields: Seq<(Seq<char>, FieldView)>,
    clock: u64,
    list: Seq<char>,
    id: Seq<char>,
    verb: Seq<char>,
)
    requires
        dispatch::who(ctx) matches Some(CallerView::Admin { .. }),
        list == "accounts"@ || list == "owners"@ || list == "daemons"@ || list == "repos"@,
        !id.contains('/'),
    ensures
        ({
            let o = dispatch::write_outcome(
                ctx,
                req,
                list + seq!['/'] + id + seq!['/'] + verb,
                Ok(fields),
                clock,
            );
            &&& o.records == ctx.store@
            &&& o.minted == ctx.minted
            &&& if verb == "revoke"@ || verb == "disable"@ {
                o.answer == AnswerView::Ask(AskView::Revoke { list: admin::revocable(list), id })
            } else {
                o.answer matches AnswerView::Reply(res) && res.status == 404
            }
        }),
{
    let rest = list + seq!['/'] + id + seq!['/'] + verb;
    reveal_strlit("accounts");
    reveal_strlit("owners");
    reveal_strlit("daemons");
    reveal_strlit("repos");
    reveal_strlit("requests/");
    reveal_strlit("setup/code");
    reveal_strlit("setup/admin");
    reveal_strlit("signin");
    reveal_strlit("signin/password");
    reveal_strlit("signout");
    reveal_strlit("language");
    reveal_strlit("file");
    reveal_strlit("settings");
    assert(!list.contains('/')) by {
        assert forall|i: int| 0 <= i < list.len() implies list[i] != '/' by {}
    }
    assert(rest[0] == list[0] && rest[1] == list[1] && rest[2] == list[2]);
    assert("accounts"@[0] == 'a' && "owners"@[0] == 'o' && "daemons"@[0] == 'd');
    assert("repos"@[0] == 'r' && "repos"@[2] == 'p' && "requests/"@[2] == 'q');
    assert("requests/"@[0] == 'r' && "setup/code"@[0] == 's' && "setup/admin"@[0] == 's');
    assert("signin"@[0] == 's' && "signin/password"@[0] == 's' && "signout"@[0] == 's');
    assert("language"@[0] == 'l' && "file"@[0] == 'f' && "settings"@[0] == 's');
    assert(rest[list.len() as int] == '/');
    if rest == "owners"@ || rest == "repos"@ || rest == "daemons"@ {
        assert(rest.contains('/'));
        assert forall|i: int| 0 <= i < rest.len() implies rest[i] != '/' by {}
    }
    let tail = id + seq!['/'] + verb;
    assert(rest =~= list + seq!['/'] + tail);
    wording::law_a_text_is_cut_at_the_mark(list, '/', tail);
    wording::law_a_text_is_cut_at_the_mark(id, '/', verb);
}

// ---------------------------------------------------------------------------
// The log
// ---------------------------------------------------------------------------

/// A log says which route was hit: an address with a token or an id in it by the
/// route's own words, and one that is no route by none.
#[verifier::spinoff_prover]
pub proof fn law_a_log_says_the_route(tail: Seq<char>)
    ensures
        serve::labels()[serve::label_index("/"@)] == "/"@,
        serve::labels()[serve::label_index("/public"@)] == "/public"@,
        serve::labels()[serve::label_index("/public/signin"@)] == "/public/signin"@,
        serve::labels()[serve::label_index("/public/signout"@)] == "/public/signout"@,
        serve::labels()[serve::label_index("/public/language"@)] == "/public/language"@,
        serve::labels()[serve::label_index("/review"@)] == "/review"@,
        serve::labels()[serve::label_index("/setup"@)] == "/setup"@,
        serve::labels()[serve::label_index("/public/signin/"@ + tail)] == "/public/signin/:token"@,
        serve::labels()[serve::label_index("/public/request/"@ + tail)] == "/public/request/:id"@,
        serve::labels()[serve::label_index("/api/v1/work"@ + tail)] == "/api/v1/work"@,
        serve::labels()[serve::label_index("/review/"@ + tail)] == "/review/:rest"@,
        serve::labels()[serve::label_index("/z"@ + tail)] == "other"@,
{
    reveal_strlit("/");
    reveal_strlit("/public");
    reveal_strlit("/public/signin");
    reveal_strlit("/public/signout");
    reveal_strlit("/public/language");
    reveal_strlit("/public/app.js");
    reveal_strlit("/public/body.woff2");
    reveal_strlit("/public/display.woff2");
    reveal_strlit("/review");
    reveal_strlit("/setup");
    reveal_strlit("/public/signin/");
    reveal_strlit("/public/request/");
    reveal_strlit("/api/v1/work");
    reveal_strlit("/review/");
    reveal_strlit("/z");
    assert("/"@.len() == 1 && "/public"@.len() == 7 && "/public/signin"@.len() == 14);
    assert("/public/signout"@.len() == 15 && "/public/language"@.len() == 16);
    assert("/public/app.js"@.len() == 14 && "/public/body.woff2"@.len() == 18);
    assert("/public/display.woff2"@.len() == 21 && "/review"@.len() == 7 && "/setup"@.len() == 6);
    assert("/public"@[1] == 'p' && "/review"@[1] == 'r' && "/setup"@[1] == 's');
    assert("/public/signin"@[8] == 's' && "/public/app.js"@[8] == 'a');
    let link = "/public/signin/"@ + tail;
    assert(link.take(15) =~= "/public/signin/"@);
    assert(link[1] == 'p' && link[8] == 's' && link[14] == '/' && link[12] == 'i');
    assert("/public/signout"@[12] == 'o' && "/public/language"@[8] == 'l');
    assert("/public/body.woff2"@[8] == 'b' && "/public/display.woff2"@[8] == 'd');
    let page = "/public/request/"@ + tail;
    assert(page.take(16) =~= "/public/request/"@);
    assert(page[1] == 'p' && page[8] == 'r' && page.len() >= 16);
    assert("/public/signin/"@[8] == 's' && "/public/signin/"@[1] == 'p');
    assert("/public/request/"@[1] == 'p' && "/public/request/"@[8] == 'r');
    let work = "/api/v1/work"@ + tail;
    assert(work.take(12) =~= "/api/v1/work"@);
    assert(work[1] == 'a' && work.len() >= 12);
    assert("/public/signin"@[1] == 'p' && "/public/signout"@[1] == 'p');
    assert("/public/language"@[1] == 'p' && "/public/app.js"@[1] == 'p');
    assert("/public/body.woff2"@[1] == 'p' && "/public/display.woff2"@[1] == 'p');
    let rest = "/review/"@ + tail;
    assert(rest.take(8) =~= "/review/"@);
    assert(rest[1] == 'r' && rest.len() >= 8 && "/api/v1/work"@[1] == 'a');
    let other = "/z"@ + tail;
    assert(other[1] == 'z' && other.len() >= 2 && "/review/"@[1] == 'r');
}

} // verus!
