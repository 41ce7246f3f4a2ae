//! From a request to what is answered.

use vstd::prelude::*;
use vstd::string::*;

use crate::caller;
use crate::caller::{identify, Bucket, Caller, CallerView, Credentials};
use crate::config::PublicConfig;
use crate::i18n::Strings;
use crate::json;
use crate::json::Body;
use crate::request;
use crate::request::{IntakeKind, Request, RequestState, RequestView};
use crate::routes::admin;
use crate::routes::admin::{check_label, grant, revoked_from, AdminList};
use crate::routes::answer::{Answer, AnswerView, Ask, AskView};
use crate::routes::cookies;
use crate::routes::cookies::configured_base;
use crate::routes::daemon;
use crate::routes::daemon::{daemon_route, poll, DaemonCall, DaemonCallView, Sighting, SightingView};
use crate::routes::filing;
use crate::routes::filing::{check_length, file_now};
use crate::routes::forms;
use crate::routes::forms::poll_query;
use crate::routes::http;
use crate::routes::http::{error, Asset, Payload, PayloadView, Policy, Req, ReqView, Res, ResView};
use crate::routes::pages;
use crate::routes::pages::signin_confirm_page;
use crate::routes::paths;
use crate::routes::paths::{
    bucket_for, identity_of, is_public_path, wants_document, FONT_BODY_PATH, FONT_DISPLAY_PATH,
    PREFIX, SCRIPT_PATH, STYLE_PATH, WORK,
};
use crate::routes::public_route;
use crate::routes::review;
use crate::routes::review::{api_request, api_requests, api_verb, why_unreadable, Unreadable};
use crate::routes::signin;
use crate::routes::signin::{api_sign_out, has_mail};
use crate::routes::words;
use crate::routes::words::{asked_locale, choose_locale, set_language};
use crate::store;
use crate::store::{id_at, now_ms, Store};
use crate::text;
use crate::text::{
    has_prefix, head_of, owned, same, split_first, strip, strip_all, trim, trim_end_char,
    trim_start,
};

verus! {

/// Everything a route needs.
pub struct Ctx {
    /// The requests.
    pub store: Store,
    /// Those whose records could not be read.
    pub unreadable: Vec<Unreadable>,
    /// What the credentials on this request turned out to be.
    pub credentials: Credentials,
    /// Is there room in the budget that [`budget`] names?
    pub allowed: bool,
    /// Is a long poll that is already held being looked at again? That is the
    /// server's own doing, and counts against nobody.
    pub rechecking: bool,
    /// This request's clock.
    pub now_ms: u64,
    /// The public surface, where one is configured.
    pub public: Option<PublicConfig>,
    /// The words that answers need, in the language this request is answered in.
    pub strings: Strings,
    /// How many ids this process has handed out.
    pub minted: u64,
}

/// The public surface that a context has.
pub open spec fn surface<'a>(public: &'a Option<PublicConfig>) -> Option<&'a PublicConfig> {
    match public {
        Some(p) => Some(p),
        None => None,
    }
}

fn configured<'a>(public: &'a Option<PublicConfig>) -> (r: Option<&'a PublicConfig>)
    ensures
        r == surface(public),
{
    match public {
        Some(p) => Some(p),
        None => None,
    }
}

/// What a request leads to: what is answered, the records afterwards, and how
/// many ids have been handed out.
#[verifier::ext_equal]
pub struct Outcome {
    pub answer: AnswerView,
    pub records: Seq<RequestView>,
    pub minted: u64,
}

/// An answer that changes nothing.
pub open spec fn just(ctx: Ctx, answer: AnswerView) -> Outcome {
    Outcome { answer, records: ctx.store@, minted: ctx.minted }
}

/// A reply that changes nothing.
pub open spec fn reply(ctx: Ctx, r: ResView) -> Outcome {
    just(ctx, AnswerView::Reply(r))
}

/// A failure, which changes nothing.
pub open spec fn fails(ctx: Ctx, status: u16, msg: Seq<char>) -> Outcome {
    reply(ctx, http::error_res(status, msg))
}

/// What is left of a context.
pub open spec fn leaves(before: Ctx, after: Ctx, answer: Answer, o: Outcome) -> bool {
    &&& answer@ == o.answer
    &&& after.store.wf()
    &&& after.store@ == o.records
    &&& after.store.home() == before.store.home()
    &&& after.unreadable == before.unreadable
    &&& after.minted == o.minted
    &&& after.credentials == before.credentials
    &&& after.allowed == before.allowed
    &&& after.rechecking == before.rechecking
    &&& after.now_ms == before.now_ms
    &&& after.public == before.public
    &&& after.strings == before.strings
}

/// The path of a request, without its query.
pub open spec fn path_of(req: ReqView) -> Seq<char> {
    text::head(req.path, '?')
}

/// Who is calling.
pub open spec fn who(ctx: Ctx) -> Option<CallerView> {
    caller::identified(ctx.credentials, surface(&ctx.public))
}

/// The budget that a request is counted against, where it is counted, with the
/// digest of whoever is calling.
pub open spec fn budget_of(ctx: Ctx, digest: Seq<char>, req: ReqView) -> Option<
    caller::BucketView,
> {
    if ctx.rechecking {
        None
    } else {
        Some(paths::bucket_of(who(ctx), digest, path_of(req)))
    }
}

/// Who a request is counted as, for its digest to be taken: nobody where a
/// stranger sent it.
pub fn counted(ctx: &Ctx) -> (r: Option<String>)
    ensures
        text::opt_view(r) == (match who(*ctx) {
            Some(c) => Some(paths::counted_as(c)),
            None => None,
        }),
{
    match identify(&ctx.credentials, configured(&ctx.public)) {
        Some(c) => Some(owned(identity_of(&c))),
        None => None,
    }
}

/// The budget that a request is counted against, where it is counted. Looking at
/// a held poll again is not. `digest` is the digest of what [`counted`] gives.
pub fn budget(ctx: &Ctx, digest: &str, req: &Req) -> (r: Option<Bucket>)
    ensures
        match r {
            Some(b) => budget_of(*ctx, digest@, req@) == Some(b@),
            None => budget_of(*ctx, digest@, req@) is None,
        },
{
    if ctx.rechecking {
        return None;
    }
    let caller = identify(&ctx.credentials, configured(&ctx.public));
    Some(bucket_for(&caller, digest, head_of(req.path.as_str(), '?')))
}

// ---------------------------------------------------------------------------
// The interface's writes
// ---------------------------------------------------------------------------

/// Why a write is refused for where it came from, if it is: it must be JSON,
/// which no form can send, and from this server's own pages or from no page.
pub open spec fn origin_refusal(
    public: Option<&PublicConfig>,
    req: ReqView,
    rest: Seq<char>,
) -> Option<ResView> {
    let is_json = match req.content_type {
        Some(c) => "application/json"@.is_prefix_of(text::trim_front(c)),
        None => false,
    };
    let ours = cookies::base_of(public);
    if !is_json {
        Some(http::error_res(415, "this endpoint takes application/json"@))
    } else {
        match req.origin {
            None => None,
            Some(origin) => if ours.len() > 0 && text::trim_back_char(origin, '/')
                == text::trim_back_char(ours, '/') {
                None
            } else if ours.len() == 0 && "setup/"@.is_prefix_of(rest) {
                None
            } else {
                Some(http::error_res(403, "cross-origin"@))
            },
        }
    }
}

/// Refuse a write that did not come from this server's own page.
pub fn same_origin(public: Option<&PublicConfig>, req: &Req, rest: &str) -> (r: Result<(), Res>)
    ensures
        match r {
            Ok(_) => origin_refusal(public, req@, rest@) is None,
            Err(e) => origin_refusal(public, req@, rest@) == Some(e@),
        },
{
    let is_json = match &req.content_type {
        Some(c) => has_prefix(trim_start(c.as_str()), "application/json"),
        None => false,
    };
    if !is_json {
        return Err(error(415, "this endpoint takes application/json"));
    }
    let origin = match &req.origin {
        Some(o) => o,
        None => {
            return Ok(());
        },
    };
    let ours = configured_base(public);
    let blank = ours.as_str().is_empty();
    if !blank && same(trim_end_char(origin.as_str(), '/'), trim_end_char(ours.as_str(), '/')) {
        return Ok(());
    }
    // A server being set up has nothing to compare with.
    if blank && has_prefix(rest, "setup/") {
        return Ok(());
    }
    Err(error(403, "cross-origin"))
}

/// The kind of request a body names, or the default.
pub open spec fn kind_in(fields: Seq<(Seq<char>, json::FieldView)>) -> IntakeKind {
    match json::text_field(fields, "kind"@) {
        Some(slug) => match request::kind_of(slug) {
            Some(k) => k,
            None => IntakeKind::Feature,
        },
        None => IntakeKind::Feature,
    }
}

/// Why the administrator may not file this, if they may not.
pub open spec fn own_filing_refusal(said: Seq<char>, repo: Option<Seq<char>>) -> Option<Seq<char>> {
    if text::trimmed(said).len() == 0 {
        Some("a request needs some text"@)
    } else if repo is None || text::trimmed(repo.unwrap()).len() == 0 {
        Some("choose which repository this is about"@)
    } else {
        filing::length_problem(text::trimmed(said))
    }
}

/// What filing leads to. The administrator files against any repository and
/// without a ceiling; a filer within the rules for filers; nobody else at all.
pub open spec fn file_outcome(ctx: Ctx, req: ReqView, sent: json::Sent, clock: u64) -> Outcome {
    let fields = json::fields_in(sent);
    let said = json::text_or_empty(fields, "text"@);
    let repo = json::text_field(fields, "repo"@);
    let kind = kind_in(fields);
    let id = store::id_text(clock, ctx.minted);
    let public = surface(&ctx.public);
    match who(ctx) {
        Some(CallerView::Admin { .. }) => match own_filing_refusal(said, repo) {
            Some(msg) => fails(ctx, 400, msg),
            None => {
                let q = request::fresh(
                    id,
                    text::trimmed(said),
                    text::trimmed(repo.unwrap()),
                    kind,
                    RequestState::Queued,
                    None,
                    clock,
                );
                Outcome {
                    answer: AnswerView::Reply(
                        http::data_res(
                            PayloadView::Review { request: q, artifacts: true, coverage: false },
                        ),
                    ),
                    records: store::with_record(ctx.store@, q),
                    minted: ctx.minted.wrapping_add(1),
                }
            },
        },
        Some(CallerView::Account { id: account }) => match filing::filing_refusal(
            ctx.store@,
            public,
            account,
            repo,
            said,
            ctx.now_ms,
        ) {
            Some(e) => fails(
                ctx,
                filing::refused_status(e),
                filing::refused_message(e, ctx.strings),
            ),
            None => {
                let q = filing::filing(
                    public.unwrap(),
                    account,
                    repo,
                    said,
                    kind,
                    ctx.now_ms,
                    id,
                );
                Outcome {
                    answer: AnswerView::Reply(
                        http::data_res(
                            PayloadView::Filing {
                                request: q,
                                show_spec: review::spec_shown(public),
                                locale: http::req_locale(req),
                            },
                        ),
                    ),
                    records: store::with_record(ctx.store@, q),
                    minted: ctx.minted.wrapping_add(1),
                }
            },
        },
        _ => fails(ctx, 404, "no such endpoint"@),
    }
}

fn parse_kind(fields: &Body) -> (r: IntakeKind)
    ensures
        r == kind_in(fields@),
{
    match fields.text("kind") {
        Some(slug) => match IntakeKind::parse(slug) {
            Some(k) => k,
            None => IntakeKind::Feature,
        },
        None => IntakeKind::Feature,
    }
}

fn check_own_filing(said: &str, repo: Option<&str>) -> (r: Result<(), String>)
    ensures
        match r {
            Ok(_) => own_filing_refusal(said@, text::opt_str(repo)) is None,
            Err(e) => own_filing_refusal(said@, text::opt_str(repo)) == Some(e@),
        },
{
    let words = trim(said);
    if words.is_empty() {
        return Err("a request needs some text".to_owned());
    }
    let named = match repo {
        Some(r) => !trim(r).is_empty(),
        None => false,
    };
    if !named {
        return Err("choose which repository this is about".to_owned());
    }
    check_length(words)
}

/// File a request, from the interface.
fn api_file(
    ctx: &mut Ctx,
    req: &Req,
    caller: &Option<Caller>,
    sent: Result<Body, String>,
    clock: u64,
) -> (r: Answer)
    requires
        old(ctx).store.wf(),
        caller::caller_view(*caller) == who(*old(ctx)),
    ensures
        leaves(
            *old(ctx),
            *final(ctx),
            r,
            file_outcome(*old(ctx), req@, json::sent_view(sent), clock),
        ),
{
    let fields = Body::or_empty(sent);
    let said = fields.text_or_empty("text");
    let repo = fields.text("repo");
    let kind = parse_kind(&fields);
    let id = id_at(clock, ctx.minted);
    match caller {
        Some(Caller::Admin { .. }) => {
            if let Err(msg) = check_own_filing(said, repo) {
                return Answer::Reply(error(400, msg.as_str()));
            }
            let named = match repo {
                Some(r) => trim(r),
                None => "",
            };
            let q = Request::filed_at(id.as_str(), trim(said), named, kind, clock);
            ctx.store.put(&q);
            assert(store::cleaned(q@) =~= q@);
            ctx.minted = ctx.minted.wrapping_add(1);
            Answer::Reply(
                Res::data(Payload::Review { request: q, artifacts: true, coverage: false }),
            )
        },
        Some(Caller::Account { id: account }) => {
            let filed = file_now(
                &mut ctx.store,
                configured(&ctx.public),
                account.as_str(),
                repo,
                said,
                kind,
                ctx.now_ms,
                id.as_str(),
            );
            match filed {
                Ok(q) => {
                    ctx.minted = ctx.minted.wrapping_add(1);
                    let show_spec = match &ctx.public {
                        Some(p) => p.show_spec,
                        None => false,
                    };
                    Answer::Reply(
                        Res::data(
                            Payload::Filing { request: q, show_spec, locale: req.locale() },
                        ),
                    )
                },
                Err(e) => {
                    let msg = e.message(&ctx.strings);
                    Answer::Reply(error(e.status(), msg.as_str()))
                },
            }
        },
        _ => Answer::Reply(error(404, "no such endpoint")),
    }
}

/// What a write by somebody who need not administer the server leads to, if it
/// is one.
pub open spec fn open_write(
    ctx: Ctx,
    req: ReqView,
    rest: Seq<char>,
    sent: json::Sent,
    clock: u64,
) -> Option<Outcome> {
    let public = surface(&ctx.public);
    let fields = json::fields_in(sent);
    if rest == "setup/code"@ {
        Some(
            match sent {
                Err(e) => fails(ctx, 400, "that body is not JSON: "@ + e),
                Ok(f) => just(
                    ctx,
                    AnswerView::Ask(
                        AskView::SpendCode { code: text::trimmed(json::text_or_empty(f, "code"@)) },
                    ),
                ),
            },
        )
    } else if rest == "setup/admin"@ {
        Some(
            match sent {
                Err(e) => fails(ctx, 400, "that body is not JSON: "@ + e),
                Ok(f) => just(
                    ctx,
                    AnswerView::Ask(
                        AskView::ClaimServer {
                            login: text::trimmed(json::text_or_empty(f, "login"@)),
                            password: json::text_or_empty(f, "password"@),
                        },
                    ),
                ),
            },
        )
    } else if rest == "signin"@ {
        Some(
            if !signin::can_mail(public) {
                fails(ctx, 503, ctx.strings.signin_no_mail@)
            } else {
                just(
                    ctx,
                    AnswerView::Ask(
                        AskView::SendLink { email: json::text_or_empty(fields, "email"@) },
                    ),
                )
            },
        )
    } else if rest == "signin/password"@ {
        let login = text::trimmed(json::text_or_empty(fields, "login"@));
        let password = json::text_or_empty(fields, "password"@);
        Some(
            if login.len() == 0 || password.len() == 0 {
                fails(ctx, 401, ctx.strings.signin_wrong@)
            } else {
                just(ctx, AnswerView::Ask(AskView::CheckPassword { login, password }))
            },
        )
    } else if rest == "signout"@ {
        Some(
            match req.cookie_token {
                Some(token) => just(ctx, AnswerView::Ask(AskView::SignOut { token })),
                None => reply(ctx, signin::signed_out(public)),
            },
        )
    } else if rest == "language"@ {
        Some(
            just(
                ctx,
                AnswerView::Ask(
                    AskView::Catalogue { locale: words::chosen_locale(fields), choose: true },
                ),
            ),
        )
    } else if rest == "file"@ {
        Some(file_outcome(ctx, req, sent, clock))
    } else {
        None
    }
}

/// What a revocation leads to: `{list}/{id}/revoke`.
pub open spec fn revoke_outcome(ctx: Ctx, rest: Seq<char>) -> Outcome {
    match text::split_at_first(rest, '/') {
        None => fails(ctx, 404, "no such endpoint"@),
        Some((list, tail)) => match text::split_at_first(tail, '/') {
            None => fails(ctx, 404, "no such endpoint"@),
            Some((id, verb)) => if verb != "revoke"@ && verb != "disable"@ {
                fails(ctx, 404, "no such verb"@)
            } else {
                just(
                    ctx,
                    AnswerView::Ask(AskView::Revoke { list: admin::revocable(list), id }),
                )
            },
        },
    }
}

/// What a write by the administrator leads to.
pub open spec fn admin_write(ctx: Ctx, req: ReqView, rest: Seq<char>, sent: json::Sent) -> Outcome {
    match json::fields_unless_blank(req.body, sent) {
        Err(e) => fails(ctx, 400, "that body is not JSON: "@ + e),
        Ok(f) => if rest == "settings"@ {
            just(ctx, AnswerView::Ask(AskView::ChangeSettings { body: f }))
        } else if rest == "owners"@ {
            just(
                ctx,
                AnswerView::Ask(
                    AskView::AddOwner {
                        login: json::text_or_empty(f, "login"@),
                        repos: admin::granted(
                            surface(&ctx.public),
                            json::trimmed_list(f, "repos"@),
                        ),
                    },
                ),
            )
        } else if rest == "repos"@ {
            just(
                ctx,
                AnswerView::Ask(
                    AskView::EnableRepo {
                        name: json::text_or_empty(f, "name"@),
                        anyway: json::flag_field(f, "anyway"@) == Some(true),
                    },
                ),
            )
        } else if rest == "daemons"@ {
            let label = json::text_or_empty(f, "label"@);
            match admin::label_problem(label) {
                Some(msg) => fails(ctx, 400, msg),
                None => just(ctx, AnswerView::Ask(AskView::MintDaemon { label })),
            }
        } else {
            revoke_outcome(ctx, rest)
        },
    }
}

/// What a write to the interface's endpoints leads to. Whatever is left when the
/// ways in are told apart administers the server, and for anybody else does not
/// exist.
pub open spec fn write_outcome(
    ctx: Ctx,
    req: ReqView,
    rest: Seq<char>,
    sent: json::Sent,
    clock: u64,
) -> Outcome {
    match text::after_prefix(rest, "requests/"@) {
        Some(tail) => match text::split_at_first(tail, '/') {
            None => fails(ctx, 404, "no such endpoint"@),
            Some((id, verb)) => {
                let (res, records) = review::verb_answer(
                    ctx.store@,
                    review::why_lost(ctx.unreadable@, id),
                    surface(&ctx.public),
                    who(ctx),
                    http::req_locale(req),
                    id,
                    verb,
                    json::fields_unless_blank(req.body, sent),
                    ctx.now_ms,
                );
                Outcome { answer: AnswerView::Reply(res), records, minted: ctx.minted }
            },
        },
        None => match open_write(ctx, req, rest, sent, clock) {
            Some(o) => o,
            None => if who(ctx) matches Some(CallerView::Admin { .. }) {
                admin_write(ctx, req, rest, sent)
            } else {
                fails(ctx, 404, "no such endpoint"@)
            },
        },
    }
}

fn not_json(e: &str) -> (r: Answer)
    ensures
        r@ == AnswerView::Reply(http::error_res(400, "that body is not JSON: "@ + e@)),
{
    Answer::Reply(error(400, "that body is not JSON: ".to_owned().concat(e).as_str()))
}

fn setup_write(sent: Result<Body, String>, claims: bool) -> (r: Answer)
    ensures
        r@ == (match json::sent_view(sent) {
            Err(e) => AnswerView::Reply(http::error_res(400, "that body is not JSON: "@ + e)),
            Ok(f) => if claims {
                AnswerView::Ask(
                    AskView::ClaimServer {
                        login: text::trimmed(json::text_or_empty(f, "login"@)),
                        password: json::text_or_empty(f, "password"@),
                    },
                )
            } else {
                AnswerView::Ask(
                    AskView::SpendCode { code: text::trimmed(json::text_or_empty(f, "code"@)) },
                )
            },
        }),
{
    match sent {
        Err(e) => not_json(e.as_str()),
        Ok(f) => {
            if claims {
                Answer::Ask(
                    Ask::ClaimServer {
                        login: owned(trim(f.text_or_empty("login"))),
                        password: owned(f.text_or_empty("password")),
                    },
                )
            } else {
                Answer::Ask(Ask::SpendCode { code: owned(trim(f.text_or_empty("code"))) })
            }
        },
    }
}

fn api_request_link(ctx: &Ctx, fields: &Body) -> (r: Answer)
    ensures
        r@ == (if !signin::can_mail(surface(&ctx.public)) {
            AnswerView::Reply(http::error_res(503, ctx.strings.signin_no_mail@))
        } else {
            AnswerView::Ask(
                AskView::SendLink {
                    email: json::text_or_empty(fields@, "email"@),
                },
            )
        }),
{
    if !has_mail(configured(&ctx.public)) {
        return Answer::Reply(error(503, ctx.strings.signin_no_mail.as_str()));
    }
    Answer::Ask(Ask::SendLink { email: owned(fields.text_or_empty("email")) })
}

fn api_sign_in_with_password(ctx: &Ctx, fields: &Body) -> (r: Answer)
    ensures
        ({
            let login = text::trimmed(json::text_or_empty(fields@, "login"@));
            let password = json::text_or_empty(fields@, "password"@);
            r@ == (if login.len() == 0 || password.len() == 0 {
                AnswerView::Reply(http::error_res(401, ctx.strings.signin_wrong@))
            } else {
                AnswerView::Ask(AskView::CheckPassword { login, password })
            })
        }),
{
    let login = trim(fields.text_or_empty("login"));
    let password = fields.text_or_empty("password");
    if login.is_empty() || password.is_empty() {
        return Answer::Reply(error(401, ctx.strings.signin_wrong.as_str()));
    }
    Answer::Ask(Ask::CheckPassword { login: owned(login), password: owned(password) })
}

fn revoke_write(rest: &str) -> (r: Answer)
    ensures
        forall|ctx: Ctx| #[trigger] revoke_outcome(ctx, rest@) == just(ctx, r@),
{
    match split_first(rest, '/') {
        None => Answer::Reply(error(404, "no such endpoint")),
        Some((list, tail)) => match split_first(tail, '/') {
            None => Answer::Reply(error(404, "no such endpoint")),
            Some((id, verb)) => {
                if !same(verb, "revoke") && !same(verb, "disable") {
                    return Answer::Reply(error(404, "no such verb"));
                }
                Answer::Ask(Ask::Revoke { list: revoked_from(list), id: owned(id) })
            },
        },
    }
}

fn write_as_admin(ctx: &Ctx, req: &Req, rest: &str, sent: Result<Body, String>) -> (r: Answer)
    ensures
        admin_write(*ctx, req@, rest@, json::sent_view(sent)) == just(*ctx, r@),
{
    let body = match Body::unless_blank(req.body.as_str(), sent) {
        Ok(b) => b,
        Err(e) => {
            return not_json(e.as_str());
        },
    };
    if same(rest, "settings") {
        return Answer::Ask(Ask::ChangeSettings { body });
    }
    if same(rest, "owners") {
        let asked = body.trimmed_texts("repos");
        return Answer::Ask(
            Ask::AddOwner {
                login: owned(body.text_or_empty("login")),
                repos: grant(configured(&ctx.public), &asked),
            },
        );
    }
    if same(rest, "repos") {
        let anyway = match body.flag("anyway") {
            Some(b) => b,
            None => false,
        };
        return Answer::Ask(
            Ask::EnableRepo { name: owned(body.text_or_empty("name")), anyway },
        );
    }
    if same(rest, "daemons") {
        let label = body.text_or_empty("label");
        return match check_label(label) {
            Err(msg) => Answer::Reply(error(400, msg)),
            Ok(_) => Answer::Ask(Ask::MintDaemon { label: owned(label) }),
        };
    }
    revoke_write(rest)
}

/// The interface's writes.
fn api_write(
    ctx: &mut Ctx,
    req: &Req,
    caller: &Option<Caller>,
    rest: &str,
    sent: Result<Body, String>,
    clock: u64,
) -> (r: Answer)
    requires
        old(ctx).store.wf(),
        caller::caller_view(*caller) == who(*old(ctx)),
    ensures
        leaves(
            *old(ctx),
            *final(ctx),
            r,
            write_outcome(*old(ctx), req@, rest@, json::sent_view(sent), clock),
        ),
{
    if let Some(tail) = strip(rest, "requests/") {
        return match split_first(tail, '/') {
            None => Answer::Reply(error(404, "no such endpoint")),
            Some((id, verb)) => {
                let res = api_verb(
                    &mut ctx.store,
                    why_unreadable(&ctx.unreadable, id),
                    configured(&ctx.public),
                    caller,
                    req.locale(),
                    id,
                    verb,
                    Body::unless_blank(req.body.as_str(), sent),
                    ctx.now_ms,
                );
                Answer::Reply(res)
            },
        };
    }
    if same(rest, "setup/code") {
        return setup_write(sent, false);
    }
    if same(rest, "setup/admin") {
        return setup_write(sent, true);
    }
    if same(rest, "signin") {
        return api_request_link(ctx, &Body::or_empty(sent));
    }
    if same(rest, "signin/password") {
        return api_sign_in_with_password(ctx, &Body::or_empty(sent));
    }
    if same(rest, "signout") {
        return match &req.cookie_token {
            Some(token) => Answer::Ask(Ask::SignOut { token: token.clone() }),
            None => Answer::Reply(api_sign_out(configured(&ctx.public))),
        };
    }
    if same(rest, "language") {
        let fields = Body::or_empty(sent);
        return Answer::Ask(Ask::Catalogue { locale: choose_locale(&fields), choose: true });
    }
    if same(rest, "file") {
        return api_file(ctx, req, caller, sent, clock);
    }
    match caller {
        Some(Caller::Admin { .. }) => write_as_admin(ctx, req, rest, sent),
        _ => Answer::Reply(error(404, "no such endpoint")),
    }
}

// ---------------------------------------------------------------------------
// The interface's endpoints
// ---------------------------------------------------------------------------

/// The list that an address names.
pub open spec fn list_named(rest: Seq<char>) -> Option<AdminList> {
    if rest == "settings"@ {
        Some(AdminList::Settings)
    } else if rest == "owners"@ {
        Some(AdminList::Owners)
    } else if rest == "repos"@ {
        Some(AdminList::Repos)
    } else if rest == "daemons"@ {
        Some(AdminList::Daemons)
    } else if rest == "accounts"@ {
        Some(AdminList::Accounts)
    } else {
        None
    }
}

fn list_at(rest: &str) -> (r: Option<AdminList>)
    ensures
        r == list_named(rest@),
{
    if same(rest, "settings") {
        Some(AdminList::Settings)
    } else if same(rest, "owners") {
        Some(AdminList::Owners)
    } else if same(rest, "repos") {
        Some(AdminList::Repos)
    } else if same(rest, "daemons") {
        Some(AdminList::Daemons)
    } else if same(rest, "accounts") {
        Some(AdminList::Accounts)
    } else {
        None
    }
}

/// What there is to file against.
pub open spec fn offered(public: Option<&PublicConfig>) -> Seq<Seq<char>> {
    match public {
        Some(p) => p.repos@,
        None => Seq::empty(),
    }
}

fn offered_repos(public: Option<&PublicConfig>) -> (r: Vec<String>)
    ensures
        text::texts(r@) == offered(public),
{
    match public {
        Some(p) => p.repos.list(),
        None => {
            let none: Vec<String> = Vec::new();
            assert(text::texts(none@) =~= Seq::<Seq<char>>::empty());
            none
        },
    }
}

/// What reading one of the interface's endpoints leads to.
pub open spec fn read_answer(ctx: Ctx, req: ReqView, rest: Seq<char>) -> AnswerView {
    let public = surface(&ctx.public);
    let locale = http::req_locale(req);
    let nowhere = AnswerView::Reply(http::error_res(404, "no such endpoint"@));
    if rest == "me"@ {
        AnswerView::Reply(
            http::data_res(PayloadView::Me { caller: who(ctx), offered: offered(public) }),
        )
    } else if rest == "strings"@ {
        AnswerView::Ask(AskView::Catalogue { locale: words::words_locale(req), choose: false })
    } else if rest == "setup"@ {
        AnswerView::Ask(AskView::SetupState)
    } else if rest == "requests"@ {
        AnswerView::Reply(review::requests_answer(ctx.store@, public, who(ctx), locale))
    } else if "requests/"@.is_prefix_of(rest) {
        AnswerView::Reply(
            review::request_answer(
                ctx.store@,
                review::why_lost(ctx.unreadable@, text::without_prefixes(rest, "requests/"@)),
                public,
                who(ctx),
                locale,
                text::without_prefixes(rest, "requests/"@),
            ),
        )
    } else {
        match list_named(rest) {
            Some(list) => if who(ctx) matches Some(CallerView::Admin { .. }) {
                AnswerView::Ask(AskView::List(list))
            } else {
                nowhere
            },
            None => nowhere,
        }
    }
}

/// What one of the interface's endpoints leads to. Every write is asked first
/// where it came from.
pub open spec fn api_outcome(ctx: Ctx, req: ReqView, sent: json::Sent, clock: u64) -> Outcome {
    let rest = text::without_prefixes(path_of(req), PREFIX@);
    if req.method == "GET"@ {
        just(ctx, read_answer(ctx, req, rest))
    } else if req.method == "POST"@ {
        match origin_refusal(surface(&ctx.public), req, rest) {
            Some(res) => reply(ctx, res),
            None => write_outcome(ctx, req, rest, sent, clock),
        }
    } else {
        fails(ctx, 404, "no such endpoint"@)
    }
}

fn api_read(ctx: &Ctx, req: &Req, caller: &Option<Caller>, rest: &str) -> (r: Answer)
    requires
        ctx.store.wf(),
        caller::caller_view(*caller) == who(*ctx),
    ensures
        r@ == read_answer(*ctx, req@, rest@),
{
    let public = configured(&ctx.public);
    if same(rest, "me") {
        return Answer::Reply(
            Res::data(
                Payload::Me {
                    caller: caller::copy_caller(caller),
                    offered: offered_repos(public),
                },
            ),
        );
    }
    if same(rest, "strings") {
        return Answer::Ask(Ask::Catalogue { locale: asked_locale(req), choose: false });
    }
    if same(rest, "setup") {
        return Answer::Ask(Ask::SetupState);
    }
    if same(rest, "requests") {
        return Answer::Reply(api_requests(&ctx.store, public, caller, req.locale()));
    }
    if has_prefix(rest, "requests/") {
        proof {
            reveal_strlit("requests/");
        }
        let id = strip_all(rest, "requests/");
        let lost = why_unreadable(&ctx.unreadable, id);
        return Answer::Reply(api_request(&ctx.store, lost, public, caller, req.locale(), id));
    }
    match list_at(rest) {
        Some(list) => match caller {
            Some(Caller::Admin { .. }) => Answer::Ask(Ask::List(list)),
            _ => Answer::Reply(error(404, "no such endpoint")),
        },
        None => Answer::Reply(error(404, "no such endpoint")),
    }
}

/// The interface's endpoints.
fn api_route(
    ctx: &mut Ctx,
    req: &Req,
    path: &str,
    caller: &Option<Caller>,
    sent: Result<Body, String>,
    clock: u64,
) -> (r: Answer)
    requires
        old(ctx).store.wf(),
        caller::caller_view(*caller) == who(*old(ctx)),
        path@ == path_of(req@),
    ensures
        leaves(
            *old(ctx),
            *final(ctx),
            r,
            api_outcome(*old(ctx), req@, json::sent_view(sent), clock),
        ),
{
    proof {
        reveal_strlit("/api/v1/ui/");
    }
    let rest = strip_all(path, PREFIX);
    if same(req.method.as_str(), "GET") {
        return api_read(ctx, req, caller, rest);
    }
    if same(req.method.as_str(), "POST") {
        if let Err(res) = same_origin(configured(&ctx.public), req, rest) {
            return Answer::Reply(res);
        }
        return api_write(ctx, req, caller, rest, sent, clock);
    }
    Answer::Reply(error(404, "no such endpoint"))
}

// ---------------------------------------------------------------------------
// The rest
// ---------------------------------------------------------------------------

/// A file of the interface.
pub open spec fn file_res(content_type: Seq<char>, asset: Asset) -> ResView {
    ResView {
        asset: Some(asset),
        policy: Policy::PublicScript,
        ..http::plain_res(200, content_type, ""@)
    }
}

/// The file of the interface at a path, if there is one.
pub open spec fn file_at(path: Seq<char>) -> Option<ResView> {
    if path == SCRIPT_PATH@ {
        Some(file_res("text/javascript; charset=utf-8"@, Asset::Script))
    } else if path == STYLE_PATH@ {
        Some(file_res("text/css; charset=utf-8"@, Asset::Style))
    } else if path == FONT_BODY_PATH@ {
        Some(file_res("font/woff2"@, Asset::FontBody))
    } else if path == FONT_DISPLAY_PATH@ {
        Some(file_res("font/woff2"@, Asset::FontDisplay))
    } else {
        None
    }
}

fn ui_file(content_type: &'static str, asset: Asset) -> (r: Res)
    ensures
        r@ == file_res(content_type@, asset),
{
    let mut res = Res::page(200, asset).with_policy(Policy::PublicScript);
    res.content_type = content_type;
    res
}

fn find_file(path: &str) -> (r: Option<Res>)
    ensures
        match r {
            Some(res) => file_at(path@) == Some(res@),
            None => file_at(path@) is None,
        },
{
    if same(path, SCRIPT_PATH) {
        Some(ui_file("text/javascript; charset=utf-8", Asset::Script))
    } else if same(path, STYLE_PATH) {
        Some(ui_file("text/css; charset=utf-8", Asset::Style))
    } else if same(path, FONT_BODY_PATH) {
        Some(ui_file("font/woff2", Asset::FontBody))
    } else if same(path, FONT_DISPLAY_PATH) {
        Some(ui_file("font/woff2", Asset::FontDisplay))
    } else {
        None
    }
}

/// What a daemon's call leads to. Who it is comes from the key it presented,
/// never from anything it sent.
pub open spec fn daemon_outcome(ctx: Ctx, req: ReqView, clock: u64) -> Outcome {
    match who(ctx) {
        Some(CallerView::Daemon { label }) => match daemon::daemon_call(req.method, path_of(req)) {
            DaemonCallView::Poll => {
                let declared = forms::declared_repos(req.path);
                let (found, records) = daemon::handed(ctx.store@, declared, label, clock);
                Outcome {
                    answer: AnswerView::Polled {
                        seen: SightingView { by: label, repos: declared },
                        res: daemon::poll_res(found),
                    },
                    records,
                    minted: ctx.minted,
                }
            },
            DaemonCallView::Report { id, kind } => just(
                ctx,
                AnswerView::Ask(AskView::Report { by: label, id, kind }),
            ),
            DaemonCallView::Nowhere => fails(ctx, 404, "no such route"@),
        },
        _ => fails(ctx, 401, "unauthorized"@),
    }
}

fn daemon_calls(ctx: &mut Ctx, req: &Req, path: &str, caller: &Option<Caller>, clock: u64) -> (r:
    Answer)
    requires
        old(ctx).store.wf(),
        caller::caller_view(*caller) == who(*old(ctx)),
        path@ == path_of(req@),
    ensures
        leaves(*old(ctx), *final(ctx), r, daemon_outcome(*old(ctx), req@, clock)),
{
    let by = match caller {
        Some(Caller::Daemon { label }) => label,
        _ => {
            return Answer::Reply(error(401, "unauthorized"));
        },
    };
    match daemon_route(req.method.as_str(), path) {
        DaemonCall::Poll => {
            let declared = poll_query(req.path.as_str());
            let res = poll(&mut ctx.store, &declared, by.as_str(), clock);
            Answer::Polled { seen: Sighting { by: by.clone(), repos: declared }, res }
        },
        DaemonCall::Report { id, kind } => Answer::Ask(
            Ask::Report { by: by.clone(), id: owned(id), kind },
        ),
        DaemonCall::Nowhere => Answer::Reply(error(404, "no such route")),
    }
}

/// A reply under a policy.
pub open spec fn reply_under(r: ResView, policy: Policy) -> AnswerView {
    AnswerView::Reply(ResView { policy, ..r })
}

/// What an address that is not the interface's own leads to, on the public
/// surface. Reading a link changes nothing: whatever fetches every address in a
/// message must not spend it.
pub open spec fn landing_answer(ctx: Ctx, req: ReqView, policy: Policy) -> AnswerView {
    let path = path_of(req);
    let token = text::without_prefixes(path, public_route::SIGNIN_PREFIX@);
    if req.method == "POST"@ && path == public_route::LANGUAGE@ {
        reply_under(words::language_res(surface(&ctx.public), req.body), policy)
    } else if req.method == "GET"@ && public_route::SIGNIN_PREFIX@.is_prefix_of(path) {
        reply_under(
            http::html_res(
                200,
                pages::confirm_text(token, http::req_locale(req), ctx.strings),
            ),
            policy,
        )
    } else if req.method == "POST"@ && public_route::SIGNIN_PREFIX@.is_prefix_of(path) {
        AnswerView::Ask(AskView::SpendLink { token, policy })
    } else {
        reply_under(http::page_res(404, Asset::NotFound), policy)
    }
}

fn landing(ctx: &Ctx, req: &Req, path: &str, policy: Policy) -> (r: Answer)
    requires
        path@ == path_of(req@),
    ensures
        r@ == landing_answer(*ctx, req@, policy),
{
    proof {
        reveal_strlit("/public/signin/");
    }
    let method = req.method.as_str();
    if same(method, "POST") && same(path, public_route::LANGUAGE) {
        let res = set_language(configured(&ctx.public), req.body.as_str());
        return Answer::Reply(res.with_policy(policy));
    }
    if has_prefix(path, public_route::SIGNIN_PREFIX) {
        let token = strip_all(path, public_route::SIGNIN_PREFIX);
        if same(method, "GET") {
            let page = signin_confirm_page(token, req.locale(), &ctx.strings);
            return Answer::Reply(Res::html(200, page.as_str()).with_policy(policy));
        }
        if same(method, "POST") {
            return Answer::Ask(Ask::SpendLink { token: owned(token), policy });
        }
    }
    Answer::Reply(Res::page(404, Asset::NotFound).with_policy(policy))
}

/// What a public address is served with: an owner's pages show many authors'
/// text, and run no script.
pub open spec fn public_policy(caller: Option<CallerView>) -> Policy {
    if caller matches Some(CallerView::Owner { .. }) {
        Policy::Strict
    } else {
        Policy::PublicScript
    }
}

/// What a public address leads to. Without a public surface there is only the
/// landing of a link, which somebody reaches from outside holding nothing.
pub open spec fn public_answer(ctx: Ctx, req: ReqView) -> AnswerView {
    if ctx.public is Some {
        landing_answer(ctx, req, public_policy(who(ctx)))
    } else if public_route::SIGNIN_PREFIX@.is_prefix_of(path_of(req)) {
        landing_answer(ctx, req, Policy::PublicScript)
    } else {
        AnswerView::Reply(http::page_res(404, Asset::NotFound))
    }
}

fn public_calls(ctx: &Ctx, req: &Req, path: &str, caller: &Option<Caller>) -> (r: Answer)
    requires
        caller::caller_view(*caller) == who(*ctx),
        path@ == path_of(req@),
    ensures
        r@ == public_answer(*ctx, req@),
{
    if ctx.public.is_some() {
        let policy = match caller {
            Some(Caller::Owner { .. }) => Policy::Strict,
            _ => Policy::PublicScript,
        };
        return landing(ctx, req, path, policy);
    }
    if has_prefix(path, public_route::SIGNIN_PREFIX) {
        return landing(ctx, req, path, Policy::PublicScript);
    }
    Answer::Reply(Res::page(404, Asset::NotFound))
}

/// What a request leads to, by what its body was read as and by this machine's
/// clock.
pub open spec fn outcome_of(ctx: Ctx, req: ReqView, sent: json::Sent, clock: u64) -> Outcome {
    let path = path_of(req);
    let reads = req.method == "GET"@;
    if !ctx.rechecking && !ctx.allowed {
        fails(ctx, 429, "too many requests — wait a minute and try again"@)
    } else if WORK@.is_prefix_of(path) {
        daemon_outcome(ctx, req, clock)
    } else if PREFIX@.is_prefix_of(path) {
        api_outcome(ctx, req, sent, clock)
    } else if reads && paths::document_path(path) {
        just(ctx, reply_under(http::page_res(200, Asset::Index), Policy::PublicScript))
    } else if reads && file_at(path) is Some {
        reply(ctx, file_at(path).unwrap())
    } else if paths::public_path(path) {
        just(ctx, public_answer(ctx, req))
    } else if reads {
        reply(ctx, http::page_res(404, Asset::NotFound))
    } else {
        fails(ctx, 401, "unauthorized"@)
    }
}

/// What a request leads to, by this machine's clock.
pub open spec fn outcome(ctx: Ctx, req: ReqView, clock: u64) -> Outcome {
    outcome_of(ctx, req, json::json_fields(req.body), clock)
}

/// Route one request whose body was read, by a given reading of this machine's
/// clock.
pub fn handle_sent(ctx: &mut Ctx, req: &Req, sent: Result<Body, String>, clock: u64) -> (r: Answer)
    requires
        old(ctx).store.wf(),
    ensures
        leaves(
            *old(ctx),
            *final(ctx),
            r,
            outcome_of(*old(ctx), req@, json::sent_view(sent), clock),
        ),
{
    let caller = identify(&ctx.credentials, configured(&ctx.public));
    let path = head_of(req.path.as_str(), '?');
    // Counted before any record is read.
    if !ctx.rechecking && !ctx.allowed {
        return Answer::Reply(error(429, "too many requests — wait a minute and try again"));
    }
    if has_prefix(path, WORK) {
        return daemon_calls(ctx, req, path, &caller, clock);
    }
    if has_prefix(path, PREFIX) {
        return api_route(ctx, req, path, &caller, sent, clock);
    }
    let reads = same(req.method.as_str(), "GET");
    if reads && wants_document(path) {
        return Answer::Reply(Res::page(200, Asset::Index).with_policy(Policy::PublicScript));
    }
    if reads {
        if let Some(res) = find_file(path) {
            return Answer::Reply(res);
        }
    }
    if is_public_path(path) {
        return public_calls(ctx, req, path, &caller);
    }
    if reads {
        Answer::Reply(Res::page(404, Asset::NotFound))
    } else {
        Answer::Reply(error(401, "unauthorized"))
    }
}

/// Route one request, by a given reading of this machine's clock.
pub fn handle_at(ctx: &mut Ctx, req: &Req, clock: u64) -> (r: Answer)
    requires
        old(ctx).store.wf(),
    ensures
        leaves(*old(ctx), *final(ctx), r, outcome(*old(ctx), req@, clock)),
{
    let sent = Body::parse(req.body.as_str());
    handle_sent(ctx, req, sent, clock)
}

/// Route one request.
pub fn handle(ctx: &mut Ctx, req: &Req) -> (r: Answer)
    requires
        old(ctx).store.wf(),
    ensures
        exists|clock: u64| leaves(*old(ctx), *final(ctx), r, #[trigger] outcome(*old(ctx), req@, clock)),
{
    let clock = now_ms();
    handle_at(ctx, req, clock)
}

} // verus!
