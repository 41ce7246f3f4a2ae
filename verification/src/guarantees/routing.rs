//! Which address does what, and what it hands on of what was sent.

use vstd::prelude::*;
use vstd::string::*;

use crate::caller::CallerView;
use crate::guarantees::access;
use crate::i18n::Locale;
use crate::json;
use crate::json::FieldView;
use crate::routes::admin;
use crate::routes::admin::AdminList;
use crate::routes::answer::{AnswerView, AskView};
use crate::routes::daemon;
use crate::routes::daemon::{ReportKind, SightingView};
use crate::routes::dispatch;
use crate::routes::dispatch::Ctx;
use crate::routes::forms;
use crate::routes::http;
use crate::routes::http::{Asset, PayloadView, ReqView};
use crate::routes::review;
use crate::routes::words;
use crate::text;

verus! {

/// Is a request within its budget, or a look at a poll that is held already?
pub open spec fn let_in(ctx: Ctx) -> bool {
    ctx.allowed || ctx.rechecking
}

/// Is a write JSON, and from this server's own page or from no page?
pub open spec fn from_here(ctx: Ctx, req: ReqView) -> bool {
    &&& req.content_type matches Some(c) && "application/json"@.is_prefix_of(text::trim_front(c))
    &&& req.origin is None || (ctx.public matches Some(p) && p.base_url@.len() > 0
        && text::trim_back_char(req.origin.unwrap(), '/') == text::trim_back_char(
        p.base_url@,
        '/',
    ))
}

proof fn lemma_inside(path: Seq<char>, rest: Seq<char>)
    requires
        path == "/api/v1/ui/"@ + rest,
        !"/api/v1/ui/"@.is_prefix_of(rest),
    ensures
        "/api/v1/ui/"@.is_prefix_of(path),
        !"/api/v1/work"@.is_prefix_of(path),
        text::without_prefixes(path, "/api/v1/ui/"@) == rest,
{
    reveal_strlit("/api/v1/ui/");
    reveal_strlit("/api/v1/work");
    assert(path.take(11) =~= "/api/v1/ui/"@);
    assert(path.skip(11) =~= rest);
    assert(path[8] == 'u');
    if "/api/v1/work"@.is_prefix_of(path) {
        assert(path[8] == "/api/v1/work"@[8]);
    }
    reveal_with_fuel(text::without_prefixes, 2);
}

/// What stands behind the interface's prefix says which endpoint is meant: a read
/// is answered by it and changes nothing, a write from this server's own pages is
/// done by it, and one from anywhere else is not done.
pub proof fn law_the_interface_is_reached_by_its_address(
    ctx: Ctx,
    req: ReqView,
    rest: Seq<char>,
    sent: json::Sent,
    clock: u64,
)
    requires
        let_in(ctx),
        text::head(req.path, '?') == "/api/v1/ui/"@ + rest,
        !"/api/v1/ui/"@.is_prefix_of(rest),
    ensures
        ({
            let o = dispatch::outcome_of(ctx, req, sent, clock);
            &&& req.method == "GET"@ ==> o.answer == dispatch::read_answer(ctx, req, rest)
                && o.records == ctx.store@ && o.minted == ctx.minted
            &&& req.method == "POST"@ && from_here(ctx, req) ==> o == dispatch::write_outcome(
                ctx,
                req,
                rest,
                sent,
                clock,
            )
            &&& req.method == "POST"@ && !from_here(ctx, req) && !"setup/"@.is_prefix_of(rest) ==> {
                &&& o.records == ctx.store@
                &&& o.minted == ctx.minted
                &&& o.answer matches AnswerView::Reply(res)
                &&& res.status == 403 || res.status == 415
            }
            &&& req.method != "GET"@ && req.method != "POST"@ ==> {
                &&& o.records == ctx.store@
                &&& o.answer matches AnswerView::Reply(res)
                &&& res.status == 404
            }
        }),
{
    reveal_strlit("GET");
    reveal_strlit("POST");
    assert("GET"@[0] != "POST"@[0]);
    reveal_strlit("");
    lemma_inside(text::head(req.path, '?'), rest);
}

/// The body that is read for a request is the one that was sent with it.
pub proof fn law_a_request_is_read_by_its_own_body(ctx: Ctx, req: ReqView, clock: u64)
    ensures
        dispatch::outcome(ctx, req, clock) == dispatch::outcome_of(
            ctx,
            req,
            json::json_fields(req.body),
            clock,
        ),
{
}

/// Reading the interface's endpoints: who somebody is and what they may file
/// against, the list, one request, and for whoever claimed the server the five
/// lists.
pub proof fn law_what_is_read_where(ctx: Ctx, req: ReqView, id: Seq<char>)
    requires
        !"requests/"@.is_prefix_of(id),
    ensures
        dispatch::read_answer(ctx, req, "me"@) matches AnswerView::Reply(res) && res.status == 200
            && (res.payload matches Some(PayloadView::Me { caller, offered }) && caller
            == dispatch::who(ctx) && (match ctx.public {
            Some(p) => offered.len() == p.repos.names@.len() && forall|k: int|
                0 <= k < offered.len() ==> #[trigger] offered[k] == p.repos.names@[k]@,
            None => offered.len() == 0,
        })),
        dispatch::read_answer(ctx, req, "setup"@) == AnswerView::Ask(AskView::SetupState),
        dispatch::read_answer(ctx, req, "strings"@) == AnswerView::Ask(
            AskView::Catalogue { locale: words::words_locale(req), choose: false },
        ),
        dispatch::read_answer(ctx, req, "requests"@) == AnswerView::Reply(
            review::requests_answer(
                ctx.store@,
                dispatch::surface(&ctx.public),
                dispatch::who(ctx),
                http::req_locale(req),
            ),
        ),
        dispatch::read_answer(ctx, req, "requests/"@ + id) == AnswerView::Reply(
            review::request_answer(
                ctx.store@,
                review::why_lost(ctx.unreadable@, id),
                dispatch::surface(&ctx.public),
                dispatch::who(ctx),
                http::req_locale(req),
                id,
            ),
        ),
        dispatch::who(ctx) matches Some(CallerView::Admin { .. }) ==> {
            &&& dispatch::read_answer(ctx, req, "settings"@) == AnswerView::Ask(
                AskView::List(AdminList::Settings),
            )
            &&& dispatch::read_answer(ctx, req, "owners"@) == AnswerView::Ask(
                AskView::List(AdminList::Owners),
            )
            &&& dispatch::read_answer(ctx, req, "repos"@) == AnswerView::Ask(
                AskView::List(AdminList::Repos),
            )
            &&& dispatch::read_answer(ctx, req, "daemons"@) == AnswerView::Ask(
                AskView::List(AdminList::Daemons),
            )
            &&& dispatch::read_answer(ctx, req, "accounts"@) == AnswerView::Ask(
                AskView::List(AdminList::Accounts),
            )
        },
{
    reveal_strlit("settings");
    reveal_strlit("owners");
    reveal_strlit("repos");
    reveal_strlit("daemons");
    reveal_strlit("accounts");
    reveal_strlit("me");
    reveal_strlit("strings");
    reveal_strlit("setup");
    reveal_strlit("requests");
    reveal_strlit("requests/");
    assert("owners"@[0] == 'o' && "daemons"@[0] == 'd' && "accounts"@[0] == 'a');
    assert("settings"@.len() == 8 && "repos"@.len() == 5 && "setup"@.len() == 5);
    assert("strings"@.len() == 7 && "strings"@[0] == 's');
    assert("setup"@[0] == 's' && "requests"@.len() == 8 && "requests"@[0] == 'r');
    assert("settings"@[0] == 's' && "me"@[0] == 'm' && "repos"@[0] == 'r');
    assert("requests/"@[0] == 'r' && "requests/"@.len() == 9 && "daemons"@.len() == 7);
    let rest = "requests/"@ + id;
    assert(rest[0] == 'r' && rest[2] == 'q' && rest.len() >= 9);
    assert("repos"@[2] == 'p');
    assert(rest.take(9) =~= "requests/"@);
    assert(rest.skip(9) =~= id);
    reveal_with_fuel(text::without_prefixes, 2);
    assert(text::without_prefixes(rest, "requests/"@) == id);
}

proof fn lemma_the_writes_differ(rest: Seq<char>)
    requires
        rest == "setup/code"@ || rest == "setup/admin"@ || rest == "signin"@ || rest
            == "signin/password"@ || rest == "signout"@ || rest == "language"@ || rest == "file"@
            || rest == "settings"@ || rest == "owners"@ || rest == "repos"@ || rest == "daemons"@,
    ensures
        !"requests/"@.is_prefix_of(rest),
{
    reveal_strlit("requests/");
    reveal_strlit("repos");
    reveal_strlit("setup/code");
    reveal_strlit("setup/admin");
    reveal_strlit("signin");
    reveal_strlit("signin/password");
    reveal_strlit("signout");
    reveal_strlit("language");
    reveal_strlit("file");
    reveal_strlit("settings");
    reveal_strlit("owners");
    reveal_strlit("daemons");
    assert("requests/"@[0] == 'r' && "requests/"@.len() == 9);
    assert("repos"@.len() == 5);
}

#[verifier::spinoff_prover]
proof fn lemma_the_ways_in_differ()
    ensures
        "setup/code"@ != "setup/admin"@,
        "signin"@ != "setup/code"@,
        "signin"@ != "setup/admin"@,
        "signin/password"@ != "setup/code"@,
        "signin/password"@ != "setup/admin"@,
        "signin/password"@ != "signin"@,
        "signout"@ != "setup/code"@,
        "signout"@ != "setup/admin"@,
        "signout"@ != "signin"@,
        "signout"@ != "signin/password"@,
        "language"@ != "setup/code"@,
        "language"@ != "setup/admin"@,
        "language"@ != "signin"@,
        "language"@ != "signin/password"@,
        "language"@ != "signout"@,
{
    reveal_strlit("setup/code");
    reveal_strlit("setup/admin");
    reveal_strlit("signin");
    reveal_strlit("signin/password");
    reveal_strlit("signout");
    reveal_strlit("language");
    assert("setup/code"@.len() == 10 && "setup/admin"@.len() == 11 && "signin"@.len() == 6);
    assert("signin/password"@.len() == 15 && "signout"@.len() == 7 && "language"@.len() == 8);
}

/// The ways in hand on what was typed and nothing else: the code and the login
/// without the space around them, an address and a password as they are. Nothing
/// is stored by asking.
pub proof fn law_the_ways_in_hand_on_what_was_typed(
    ctx: Ctx,
    req: ReqView,
    fields: Seq<(Seq<char>, FieldView)>,
    clock: u64,
)
    ensures
        ({
            let o = dispatch::write_outcome(ctx, req, "setup/code"@, Ok(fields), clock);
            &&& o.records == ctx.store@
            &&& o.answer == AnswerView::Ask(
                AskView::SpendCode { code: text::trimmed(json::text_or_empty(fields, "code"@)) },
            )
        }),
        ({
            let o = dispatch::write_outcome(ctx, req, "setup/admin"@, Ok(fields), clock);
            &&& o.records == ctx.store@
            &&& o.answer == AnswerView::Ask(
                AskView::ClaimServer {
                    login: text::trimmed(json::text_or_empty(fields, "login"@)),
                    password: json::text_or_empty(fields, "password"@),
                },
            )
        }),
        ({
            let o = dispatch::write_outcome(ctx, req, "signin"@, Ok(fields), clock);
            &&& o.records == ctx.store@
            &&& if ctx.public matches Some(p) && p.mail {
                o.answer == AnswerView::Ask(
                    AskView::SendLink { email: json::text_or_empty(fields, "email"@) },
                )
            } else {
                o.answer matches AnswerView::Reply(res) && res.status == 503
            }
        }),
        ({
            let o = dispatch::write_outcome(ctx, req, "signin/password"@, Ok(fields), clock);
            let login = text::trimmed(json::text_or_empty(fields, "login"@));
            let password = json::text_or_empty(fields, "password"@);
            &&& o.records == ctx.store@
            &&& if login.len() > 0 && password.len() > 0 {
                o.answer == AnswerView::Ask(AskView::CheckPassword { login, password })
            } else {
                o.answer matches AnswerView::Reply(res) && res.status == 401
            }
        }),
        ({
            let o = dispatch::write_outcome(ctx, req, "signout"@, Ok(fields), clock);
            &&& o.records == ctx.store@
            &&& match req.cookie_token {
                Some(token) => o.answer == AnswerView::Ask(AskView::SignOut { token }),
                None => o.answer matches AnswerView::Reply(res) && res.status == 200
                    && res.set_cookie is Some,
            }
        }),
        ({
            let o = dispatch::write_outcome(ctx, req, "language"@, Ok(fields), clock);
            &&& o.records == ctx.store@
            &&& o.answer == AnswerView::Ask(
                AskView::Catalogue {
                    locale: if json::text_field(fields, "lang"@) == Some("fr"@) {
                        Locale::Fr
                    } else {
                        Locale::En
                    },
                    choose: true,
                },
            )
        }),
{
    lemma_the_ways_in_differ();
    lemma_the_writes_differ("setup/code"@);
    lemma_the_writes_differ("setup/admin"@);
    lemma_the_writes_differ("signin"@);
    lemma_the_writes_differ("signin/password"@);
    lemma_the_writes_differ("signout"@);
    lemma_the_writes_differ("language"@);
    reveal_strlit("fr");
    reveal_strlit("en");
    assert("fr"@[0] != "en"@[0]);
}

/// A body that is no JSON sets nothing up, signs nobody in and administers
/// nothing, and nothing is stored of it.
pub proof fn law_a_body_that_is_no_json_does_nothing(
    ctx: Ctx,
    req: ReqView,
    why: Seq<char>,
    clock: u64,
)
    requires
        text::trimmed(req.body).len() > 0,
    ensures
        ({
            let o = dispatch::write_outcome(ctx, req, "setup/code"@, Err(why), clock);
            &&& o.records == ctx.store@
            &&& o.answer matches AnswerView::Reply(res) && res.status == 400
        }),
        ({
            let o = dispatch::write_outcome(ctx, req, "setup/admin"@, Err(why), clock);
            &&& o.records == ctx.store@
            &&& o.answer matches AnswerView::Reply(res) && res.status == 400
        }),
        ({
            let o = dispatch::write_outcome(ctx, req, "signin/password"@, Err(why), clock);
            &&& o.records == ctx.store@
            &&& o.answer matches AnswerView::Reply(res) && res.status == 401
        }),
        ({
            let o = dispatch::write_outcome(ctx, req, "settings"@, Err(why), clock);
            &&& o.records == ctx.store@
            &&& o.answer matches AnswerView::Reply(res) && (res.status == 400 || res.status == 404)
        }),
{
    lemma_the_ways_in_differ();
    lemma_the_writes_differ("setup/code"@);
    lemma_the_writes_differ("setup/admin"@);
    lemma_the_writes_differ("signin/password"@);
    lemma_the_writes_differ("settings"@);
    lemma_the_lists_are_no_ways_in("settings"@);
    let none = Seq::<(Seq<char>, FieldView)>::empty();
    assert(json::field(none, "login"@) is None);
    assert(text::trimmed(Seq::<char>::empty()).len() == 0);
}

#[verifier::spinoff_prover]
proof fn lemma_the_lists_are_no_ways_in(rest: Seq<char>)
    requires
        rest == "settings"@ || rest == "owners"@ || rest == "repos"@ || rest == "daemons"@,
    ensures
        rest != "setup/code"@,
        rest != "setup/admin"@,
        rest != "signin"@,
        rest != "signin/password"@,
        rest != "signout"@,
        rest != "language"@,
        rest != "file"@,
        "settings"@ != "owners"@,
        "settings"@ != "repos"@,
        "settings"@ != "daemons"@,
        "owners"@ != "repos"@,
        "owners"@ != "daemons"@,
        "repos"@ != "daemons"@,
{
    reveal_strlit("setup/code");
    reveal_strlit("setup/admin");
    reveal_strlit("signin");
    reveal_strlit("signin/password");
    reveal_strlit("signout");
    reveal_strlit("language");
    reveal_strlit("file");
    reveal_strlit("settings");
    reveal_strlit("owners");
    reveal_strlit("repos");
    reveal_strlit("daemons");
    assert("settings"@[0] == 's' && "settings"@[1] == 'e' && "settings"@.len() == 8);
    assert("signout"@[1] == 'i' && "signin"@[1] == 'i' && "language"@[0] == 'l');
    assert("owners"@[0] == 'o' && "repos"@[0] == 'r' && "daemons"@[0] == 'd');
    assert("setup/code"@.len() == 10 && "setup/admin"@.len() == 11 && "signin/password"@.len() == 15);
    assert("setup/code"@[0] == 's' && "signin"@[0] == 's' && "signout"@[0] == 's' && "file"@[0] == 'f');
    assert("setup/admin"@[0] == 's' && "signin/password"@[0] == 's');
}

/// Whoever claimed the server administers it: an owner is named by the login that
/// was typed, with every repository that was asked for and is served and no
/// other; a repository by the name that was typed, regardless only where that was
/// asked for; a machine by its label, where that is letters, digits, dashes and
/// underscores, at least one and at most sixty-four.
pub proof fn law_administering_hands_on_what_was_typed(
    ctx: Ctx,
    req: ReqView,
    fields: Seq<(Seq<char>, FieldView)>,
    clock: u64,
    repo: Seq<char>,
)
    requires
        dispatch::who(ctx) matches Some(CallerView::Admin { .. }),
        text::trimmed(req.body).len() > 0,
    ensures
        ({
            let o = dispatch::write_outcome(ctx, req, "settings"@, Ok(fields), clock);
            o.records == ctx.store@ && o.answer == AnswerView::Ask(
                AskView::ChangeSettings { body: fields },
            )
        }),
        ({
            let o = dispatch::write_outcome(ctx, req, "owners"@, Ok(fields), clock);
            &&& o.records == ctx.store@
            &&& o.answer matches AnswerView::Ask(AskView::AddOwner { login, repos })
            &&& login == json::text_or_empty(fields, "login"@)
            &&& repos.contains(repo) <==> (ctx.public matches Some(p) && access::named_in(
                p.repos.names@,
                repo,
            ) && json::trimmed_list(fields, "repos"@).contains(repo))
        }),
        ({
            let o = dispatch::write_outcome(ctx, req, "repos"@, Ok(fields), clock);
            o.records == ctx.store@ && o.answer == AnswerView::Ask(
                AskView::EnableRepo {
                    name: json::text_or_empty(fields, "name"@),
                    anyway: json::field(fields, "anyway"@) == Some(FieldView::Flag(true)),
                },
            )
        }),
        ({
            let o = dispatch::write_outcome(ctx, req, "daemons"@, Ok(fields), clock);
            let label = json::text_or_empty(fields, "label"@);
            &&& o.records == ctx.store@
            &&& if 0 < label.len() && text::byte_len(label) <= 64 && (forall|i: int|
                0 <= i < label.len() ==> ('a' <= #[trigger] label[i] <= 'z' || 'A' <= label[i] <= 'Z'
                    || '0' <= label[i] <= '9' || label[i] == '-' || label[i] == '_')) {
                o.answer == AnswerView::Ask(AskView::MintDaemon { label })
            } else {
                o.answer matches AnswerView::Reply(res) && res.status == 400
            }
        }),
{
    broadcast use vstd::seq_lib::group_filter_ensures;

    lemma_the_lists_are_no_ways_in("settings"@);
    lemma_the_lists_are_no_ways_in("owners"@);
    lemma_the_lists_are_no_ways_in("repos"@);
    lemma_the_lists_are_no_ways_in("daemons"@);
    lemma_the_writes_differ("settings"@);
    lemma_the_writes_differ("owners"@);
    lemma_the_writes_differ("repos"@);
    lemma_the_writes_differ("daemons"@);
    let asked = json::trimmed_list(fields, "repos"@);
    if let Some(p) = ctx.public {
        let served = p.repos@;
        let keep = |r: Seq<char>| served.contains(r);
        let kept = asked.filter(keep);
        assert(served.contains(repo) == access::named_in(p.repos.names@, repo)) by {
            if served.contains(repo) {
                let k = choose|k: int| 0 <= k < served.len() && served[k] == repo;
                assert(p.repos.names@[k]@ == repo);
            }
            if access::named_in(p.repos.names@, repo) {
                let k = choose|k: int|
                    0 <= k < p.repos.names@.len() && (#[trigger] p.repos.names@[k])@ == repo;
                assert(served[k] == repo);
            }
        }
        if kept.contains(repo) {
            asked.lemma_filter_contains_rev(keep, repo);
            let i = choose|i: int| 0 <= i < kept.len() && kept[i] == repo;
            assert(keep(kept[i]));
        }
        if asked.contains(repo) && keep(repo) {
            let i = choose|i: int| 0 <= i < asked.len() && asked[i] == repo;
            assert(kept.contains(asked[i]));
        }
    }
    let label = json::text_or_empty(fields, "label"@);
    assert((forall|i: int| 0 <= i < label.len() ==> admin::label_char(#[trigger] label[i])) == (
    forall|i: int|
        0 <= i < label.len() ==> ('a' <= #[trigger] label[i] <= 'z' || 'A' <= label[i] <= 'Z' || '0'
            <= label[i] <= '9' || label[i] == '-' || label[i] == '_')));
}

// ---------------------------------------------------------------------------
// Daemons
// ---------------------------------------------------------------------------

/// A machine asks for work where it asks for work, and is answered with what
/// there is for it of what it declared; that it asked is noted under its own
/// name.
pub proof fn law_a_machine_asks_for_work(
    ctx: Ctx,
    req: ReqView,
    sent: json::Sent,
    clock: u64,
    label: Seq<char>,
)
    requires
        let_in(ctx),
        req.method == "GET"@,
        text::head(req.path, '?') == "/api/v1/work"@,
        dispatch::who(ctx) == Some(CallerView::Daemon { label }),
    ensures
        ({
            let o = dispatch::outcome_of(ctx, req, sent, clock);
            let declared = forms::declared_repos(req.path);
            let (found, after) = daemon::handed(ctx.store@, declared, label, clock);
            &&& o.records == after
            &&& o.minted == ctx.minted
            &&& o.answer == AnswerView::Polled {
                seen: SightingView { by: label, repos: declared },
                res: daemon::poll_res(found),
            }
        }),
{
    assert("/api/v1/work"@.is_prefix_of("/api/v1/work"@)) by {
        assert("/api/v1/work"@.take("/api/v1/work"@.len() as int) =~= "/api/v1/work"@);
    }
}

/// A machine reports under the id of what it reports on, as itself.
pub proof fn law_a_machine_reports_under_the_id(
    ctx: Ctx,
    req: ReqView,
    sent: json::Sent,
    clock: u64,
    label: Seq<char>,
    id: Seq<char>,
    kind: ReportKind,
)
    requires
        let_in(ctx),
        req.method == "POST"@,
        id.len() > 0,
        !id.contains('/'),
        text::head(req.path, '?') == "/api/v1/work/"@ + id + (match kind {
            ReportKind::Drafted => "/drafted"@,
            ReportKind::Failed => "/failed"@,
            ReportKind::Released => "/released"@,
        }),
        dispatch::who(ctx) == Some(CallerView::Daemon { label }),
    ensures
        dispatch::outcome_of(ctx, req, sent, clock).records == ctx.store@,
        dispatch::outcome_of(ctx, req, sent, clock).answer == AnswerView::Ask(
            AskView::Report { by: label, id, kind },
        ),
{
    reveal_strlit("GET");
    reveal_strlit("POST");
    assert("GET"@[0] != "POST"@[0]);
    reveal_strlit("/api/v1/work");
    reveal_strlit("/api/v1/work/");
    reveal_strlit("/drafted");
    reveal_strlit("/failed");
    reveal_strlit("/released");
    reveal_strlit("drafted");
    reveal_strlit("failed");
    reveal_strlit("released");
    let path = text::head(req.path, '?');
    let tail = match kind {
        ReportKind::Drafted => "/drafted"@,
        ReportKind::Failed => "/failed"@,
        ReportKind::Released => "/released"@,
    };
    let verb = match kind {
        ReportKind::Drafted => "drafted"@,
        ReportKind::Failed => "failed"@,
        ReportKind::Released => "released"@,
    };
    assert(tail.skip(1) =~= verb);
    assert(path.take(12) =~= "/api/v1/work"@);
    assert(path.take(13) =~= "/api/v1/work/"@);
    let rest = path.skip(13);
    assert(rest =~= id + tail);
    assert forall|j: int| 0 <= j < id.len() implies rest[j] != '/' by {
        assert(rest[j] == id[j]);
        assert(id.contains(id[j]));
    }
    assert(rest[id.len() as int] == '/');
    text::lemma_first_is(rest, '/', id.len() as int);
    assert(rest.take(id.len() as int) =~= id);
    assert(rest.skip(id.len() as int + 1) =~= verb);
    assert("drafted"@[0] == 'd' && "failed"@[0] == 'f' && "released"@[0] == 'r');
    assert(daemon::report_parts(path) == (id, verb));
}

/// What a machine asks for that is neither work nor a report is nowhere, and
/// changes nothing.
pub proof fn law_a_machine_asks_for_nothing_else(
    ctx: Ctx,
    req: ReqView,
    sent: json::Sent,
    clock: u64,
    label: Seq<char>,
    id: Seq<char>,
    verb: Seq<char>,
)
    requires
        let_in(ctx),
        dispatch::who(ctx) == Some(CallerView::Daemon { label }),
        !id.contains('/'),
        text::head(req.path, '?') == "/api/v1/work/"@ + id + "/"@ + verb,
        req.method != "POST"@ || id.len() == 0 || (verb != "drafted"@ && verb != "failed"@ && verb
            != "released"@),
    ensures
        ({
            let o = dispatch::outcome_of(ctx, req, sent, clock);
            &&& o.records == ctx.store@
            &&& o.minted == ctx.minted
            &&& o.answer matches AnswerView::Reply(res)
            &&& res.status == 404
        }),
{
    reveal_strlit("/api/v1/work");
    reveal_strlit("/api/v1/work/");
    reveal_strlit("/");
    let path = text::head(req.path, '?');
    assert(path.take(12) =~= "/api/v1/work"@);
    assert(path.take(13) =~= "/api/v1/work/"@);
    assert(path.len() > 12 && "/api/v1/work"@.len() == 12);
    let rest = path.skip(13);
    assert(rest =~= id + "/"@ + verb);
    assert forall|j: int| 0 <= j < id.len() implies rest[j] != '/' by {
        assert(rest[j] == id[j]);
        assert(id.contains(id[j]));
    }
    assert(rest[id.len() as int] == '/');
    text::lemma_first_is(rest, '/', id.len() as int);
    assert(rest.take(id.len() as int) =~= id);
    assert(rest.skip(id.len() as int + 1) =~= verb);
    assert(daemon::report_parts(path) == (id, verb));
}

/// Nobody but a machine reaches what machines do.
pub proof fn law_only_machines_draft(ctx: Ctx, req: ReqView, sent: json::Sent, clock: u64)
    requires
        let_in(ctx),
        "/api/v1/work"@.is_prefix_of(text::head(req.path, '?')),
        !(dispatch::who(ctx) matches Some(CallerView::Daemon { .. })),
    ensures
        dispatch::outcome_of(ctx, req, sent, clock).records == ctx.store@,
        dispatch::outcome_of(ctx, req, sent, clock).answer matches AnswerView::Reply(res)
            && res.status == 401,
{
}

/// A verb on a request is asked for by its address, as whoever asks.
pub proof fn law_a_verb_is_asked_for_by_address(
    ctx: Ctx,
    req: ReqView,
    sent: json::Sent,
    clock: u64,
    id: Seq<char>,
    verb: Seq<char>,
)
    requires
        !id.contains('/'),
    ensures
        ({
            let o = dispatch::write_outcome(ctx, req, "requests/"@ + id + "/"@ + verb, sent, clock);
            let (res, after) = review::verb_answer(
                ctx.store@,
                review::why_lost(ctx.unreadable@, id),
                dispatch::surface(&ctx.public),
                dispatch::who(ctx),
                http::req_locale(req),
                id,
                verb,
                if text::trimmed(req.body).len() == 0 {
                    Ok(Seq::<(Seq<char>, FieldView)>::empty())
                } else {
                    sent
                },
                ctx.now_ms,
            );
            o.records == after && o.answer == AnswerView::Reply(res) && o.minted == ctx.minted
        }),
{
    reveal_strlit("requests/");
    reveal_strlit("/");
    let rest = "requests/"@ + id + "/"@ + verb;
    assert(rest.take(9) =~= "requests/"@);
    let tail = rest.skip(9);
    assert(tail =~= id + "/"@ + verb);
    assert forall|j: int| 0 <= j < id.len() implies tail[j] != '/' by {
        assert(tail[j] == id[j]);
        assert(id.contains(id[j]));
    }
    assert(tail[id.len() as int] == '/');
    text::lemma_first_is(tail, '/', id.len() as int);
    assert(tail.take(id.len() as int) =~= id);
    assert(tail.skip(id.len() as int + 1) =~= verb);
}

/// What is left when nothing answers: a page that is not there to whoever reads,
/// and no authority to whoever writes.
pub proof fn law_an_address_that_is_nowhere(ctx: Ctx, req: ReqView, sent: json::Sent, clock: u64)
    requires
        let_in(ctx),
        text::head(req.path, '?').len() >= 2,
        text::head(req.path, '?')[0] == '/',
        text::head(req.path, '?')[1] == 'z',
    ensures
        ({
            let o = dispatch::outcome_of(ctx, req, sent, clock);
            &&& o.records == ctx.store@
            &&& o.answer matches AnswerView::Reply(res)
            &&& if req.method == "GET"@ {
                res.status == 404 && res.asset == Some(Asset::NotFound)
            } else {
                res.status == 401
            }
        }),
{
    let path = text::head(req.path, '?');
    reveal_strlit("/public/signin/");
    reveal_strlit("/public/request/");
    reveal_strlit("/public/signin");
    reveal_strlit("/public/signout");
    reveal_strlit("/public/language");
    reveal_strlit("/api/v1/work");
    reveal_strlit("/api/v1/ui/");
    reveal_strlit("/request/");
    reveal_strlit("/public");
    reveal_strlit("/");
    reveal_strlit("/review");
    reveal_strlit("/settings");
    reveal_strlit("/repos");
    reveal_strlit("/owners");
    reveal_strlit("/daemons");
    reveal_strlit("/accounts");
    reveal_strlit("/setup");
    reveal_strlit("/ui/app.js");
    reveal_strlit("/ui/app.css");
    reveal_strlit("/ui/body.woff2");
    reveal_strlit("/ui/display.woff2");
    assert("/api/v1/work"@[1] == 'a' && "/api/v1/ui/"@[1] == 'a' && "/request/"@[1] == 'r');
    assert("/public/signin/"@[1] == 'p' && "/public/request/"@[1] == 'p');
    assert("/public"@[1] == 'p' && "/public/signin"@[1] == 'p' && "/public/signout"@[1] == 'p');
    assert("/public/language"@[1] == 'p' && "/review"@[1] == 'r' && "/settings"@[1] == 's');
    assert("/repos"@[1] == 'r' && "/owners"@[1] == 'o' && "/daemons"@[1] == 'd');
    assert("/accounts"@[1] == 'a' && "/setup"@[1] == 's' && "/ui/app.js"@[1] == 'u');
    assert("/ui/app.css"@[1] == 'u' && "/ui/body.woff2"@[1] == 'u');
    assert("/ui/display.woff2"@[1] == 'u');
    assert("/"@.len() == 1);
}

} // verus!
