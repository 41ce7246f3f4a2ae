//! A request and a response, reduced to what the routes use.

use vstd::prelude::*;
use vstd::string::*;

use crate::i18n;
use crate::i18n::{negotiate, Locale};
use crate::json;
use crate::json::error_json;
use crate::request::{IntakeKind, Request, RequestView};
use crate::caller;
use crate::caller::{Caller, CallerView};
use crate::store;
use crate::text;
use crate::text::{borrow_opt, owned};

verus! {

/// A request, reduced to what the routes use.
#[derive(Debug)]
pub struct Req {
    pub method: String,
    /// The path, with the query behind it where there is one.
    pub path: String,
    /// The bearer token: how a daemon says who it is.
    pub bearer: Option<String>,
    /// The session token from the cookie: how a browser does.
    pub cookie_token: Option<String>,
    /// The token of a browser part-way through claiming this server.
    pub cookie_setup: Option<String>,
    /// The language the reader chose.
    pub cookie_lang: Option<String>,
    /// What the browser says it reads.
    pub accept_language: Option<String>,
    /// The tag of what the client already holds.
    pub if_none_match: Option<String>,
    /// Where the page that sent this came from.
    pub origin: Option<String>,
    pub content_type: Option<String>,
    pub body: String,
}

/// A request, as contracts speak of it.
#[verifier::ext_equal]
pub struct ReqView {
    pub method: Seq<char>,
    pub path: Seq<char>,
    pub bearer: Option<Seq<char>>,
    pub cookie_token: Option<Seq<char>>,
    pub cookie_setup: Option<Seq<char>>,
    pub cookie_lang: Option<Seq<char>>,
    pub accept_language: Option<Seq<char>>,
    pub if_none_match: Option<Seq<char>>,
    pub origin: Option<Seq<char>>,
    pub content_type: Option<Seq<char>>,
    pub body: Seq<char>,
}

impl View for Req {
    type V = ReqView;

    open spec fn view(&self) -> ReqView {
        ReqView {
            method: self.method@,
            path: self.path@,
            bearer: text::opt_view(self.bearer),
            cookie_token: text::opt_view(self.cookie_token),
            cookie_setup: text::opt_view(self.cookie_setup),
            cookie_lang: text::opt_view(self.cookie_lang),
            accept_language: text::opt_view(self.accept_language),
            if_none_match: text::opt_view(self.if_none_match),
            origin: text::opt_view(self.origin),
            content_type: text::opt_view(self.content_type),
            body: self.body@,
        }
    }
}

/// A request that carries nothing but a method, a path and a body.
pub open spec fn bare(method: Seq<char>, path: Seq<char>, body: Seq<char>) -> ReqView {
    ReqView {
        method,
        path,
        bearer: None,
        cookie_token: None,
        cookie_setup: None,
        cookie_lang: None,
        accept_language: None,
        if_none_match: None,
        origin: None,
        content_type: None,
        body,
    }
}

/// The language a request is answered in.
pub open spec fn req_locale(r: ReqView) -> Locale {
    i18n::negotiated(r.cookie_lang, r.accept_language)
}

impl Req {
    fn plain(method: &str, path: &str, body: &str) -> (r: Req)
        ensures
            r@ == bare(method@, path@, body@),
    {
        Req {
            method: owned(method),
            path: owned(path),
            bearer: None,
            cookie_token: None,
            cookie_setup: None,
            cookie_lang: None,
            accept_language: None,
            if_none_match: None,
            origin: None,
            content_type: None,
            body: owned(body),
        }
    }

    /// A read.
    pub fn get(path: &str) -> (r: Req)
        ensures
            r@ == bare("GET"@, path@, ""@),
    {
        Req::plain("GET", path, "")
    }

    /// A write.
    pub fn post(path: &str, body: &str) -> (r: Req)
        ensures
            r@ == bare("POST"@, path@, body@),
    {
        Req::plain("POST", path, body)
    }

    /// A write with the content type that the interface's endpoints demand.
    pub fn post_json(path: &str, body: &str) -> (r: Req)
        ensures
            r@ == (ReqView {
                content_type: Some("application/json"@),
                ..bare("POST"@, path@, body@)
            }),
    {
        let mut req = Req::post(path, body);
        req.content_type = Some(owned("application/json"));
        req
    }

    /// The language this request is answered in.
    pub fn locale(&self) -> (r: Locale)
        ensures
            r == req_locale(self@),
    {
        negotiate(borrow_opt(&self.cookie_lang), borrow_opt(&self.accept_language))
    }

    /// The same request from a reader with these languages.
    pub fn with_lang(self, cookie: Option<&str>, accept: Option<&str>) -> (r: Req)
        ensures
            r@ == (ReqView {
                cookie_lang: text::opt_str(cookie),
                accept_language: text::opt_str(accept),
                ..self@
            }),
    {
        let mut req = self;
        req.cookie_lang = match cookie {
            Some(s) => Some(owned(s)),
            None => None,
        };
        req.accept_language = match accept {
            Some(s) => Some(owned(s)),
            None => None,
        };
        req
    }

    /// The same request with a bearer token.
    pub fn with_bearer(self, token: &str) -> (r: Req)
        ensures
            r@ == (ReqView { bearer: Some(token@), ..self@ }),
    {
        let mut req = self;
        req.bearer = Some(owned(token));
        req
    }

    /// The same request with a session.
    pub fn with_cookie(self, token: &str) -> (r: Req)
        ensures
            r@ == (ReqView { cookie_token: Some(token@), ..self@ }),
    {
        let mut req = self;
        req.cookie_token = Some(owned(token));
        req
    }

    /// The same request from a browser that is setting this server up.
    pub fn with_setup(self, token: &str) -> (r: Req)
        ensures
            r@ == (ReqView { cookie_setup: Some(token@), ..self@ }),
    {
        let mut req = self;
        req.cookie_setup = Some(owned(token));
        req
    }
}

// ---------------------------------------------------------------------------
// What a response is served with
// ---------------------------------------------------------------------------

/// What a response is served with: whether the page may run script.
///
/// The dividing line is how many authors' drafted text one page shows. A filer's
/// pages show their own; a page with several authors' has no such argument.
#[derive(Debug, Clone, Copy, PartialEq, Eq, Structural)]
pub enum Policy {
    /// No script at all.
    Strict,
    /// Script from this origin only.
    PublicScript,
}

impl Default for Policy {
    fn default() -> (r: Self)
        ensures
            r == Policy::Strict,
    {
        Policy::Strict
    }
}

/// The `Content-Security-Policy` of a policy.
pub open spec fn csp_text(p: Policy) -> Seq<char> {
    match p {
        Policy::Strict => "default-src 'none'; style-src 'unsafe-inline'; font-src 'self'; form-action 'self'; base-uri 'none'; frame-ancestors 'none'"@,
        Policy::PublicScript => "default-src 'none'; script-src 'self'; style-src 'self' 'unsafe-inline'; font-src 'self'; connect-src 'self'; form-action 'self'; base-uri 'none'; frame-ancestors 'none'"@,
    }
}

impl Policy {
    /// The `Content-Security-Policy` value. Nothing is permitted by default on
    /// either, and what is permitted again comes from this origin.
    pub fn csp(self) -> (r: &'static str)
        ensures
            r@ == csp_text(self),
    {
        match self {
            Policy::Strict => "default-src 'none'; style-src 'unsafe-inline'; font-src 'self'; form-action 'self'; base-uri 'none'; frame-ancestors 'none'",
            Policy::PublicScript => "default-src 'none'; script-src 'self'; style-src 'self' 'unsafe-inline'; font-src 'self'; connect-src 'self'; form-action 'self'; base-uri 'none'; frame-ancestors 'none'",
        }
    }
}

/// Headers, as contracts speak of them.
pub open spec fn header_views(h: Seq<(&'static str, &'static str)>) -> Seq<(Seq<char>, Seq<char>)> {
    h.map_values(|p: (&'static str, &'static str)| (p.0@, p.1@))
}

/// The headers on every response.
pub open spec fn headers_of(p: Policy) -> Seq<(Seq<char>, Seq<char>)> {
    seq![
        ("Referrer-Policy"@, "no-referrer"@),
        ("Cache-Control"@, "no-store"@),
        ("Content-Security-Policy"@, csp_text(p)),
        ("X-Content-Type-Options"@, "nosniff"@),
        ("X-Frame-Options"@, "DENY"@),
    ]
}

/// The headers on every response, without exception.
pub fn security_headers(policy: Policy) -> (r: [(&'static str, &'static str); 5])
    ensures
        header_views(r@) == headers_of(policy),
{
    let r = [
        ("Referrer-Policy", "no-referrer"),
        ("Cache-Control", "no-store"),
        ("Content-Security-Policy", policy.csp()),
        ("X-Content-Type-Options", "nosniff"),
        ("X-Frame-Options", "DENY"),
    ];
    assert(header_views(r@) =~= headers_of(policy));
    r
}

/// Whatever a response is served with, it carries the same headers under the
/// same names, and only the content policy differs.
pub proof fn law_every_response_carries_the_same_headers(p: Policy, q: Policy, i: int)
    requires
        0 <= i < 5,
    ensures
        headers_of(p).len() == 5,
        headers_of(p)[i].0 == headers_of(q)[i].0,
        i != 2 ==> headers_of(p)[i] == headers_of(q)[i],
{
}

/// Every policy starts by permitting nothing.
pub proof fn law_nothing_is_permitted_by_default(p: Policy)
    ensures
        "default-src 'none'; "@.is_prefix_of(csp_text(p)),
{
    reveal_strlit("default-src 'none'; ");
    reveal_strlit(
        "default-src 'none'; style-src 'unsafe-inline'; font-src 'self'; form-action 'self'; base-uri 'none'; frame-ancestors 'none'",
    );
    reveal_strlit(
        "default-src 'none'; script-src 'self'; style-src 'self' 'unsafe-inline'; font-src 'self'; connect-src 'self'; form-action 'self'; base-uri 'none'; frame-ancestors 'none'",
    );
}

// ---------------------------------------------------------------------------
// What a response carries
// ---------------------------------------------------------------------------

/// Something that is part of the build rather than of any request.
#[derive(Debug, Clone, Copy, PartialEq, Eq, Structural)]
pub enum Asset {
    /// The interface's document.
    Index,
    /// The interface's script.
    Script,
    /// The interface's stylesheet.
    Style,
    /// The two faces that the stylesheet names.
    FontBody,
    FontDisplay,
    /// The page that says there is nothing here.
    NotFound,
}

/// One request, as the daemon that drafts it is handed it.
pub struct WorkItem {
    pub id: String,
    pub text: String,
    pub repo: String,
    pub kind: IntakeKind,
    pub send_back_note: Option<String>,
}

/// One request, as the daemon is handed it, as contracts speak of it.
#[verifier::ext_equal]
pub struct WorkItemView {
    pub id: Seq<char>,
    pub text: Seq<char>,
    pub repo: Seq<char>,
    pub kind: IntakeKind,
    pub send_back_note: Option<Seq<char>>,
}

impl View for WorkItem {
    type V = WorkItemView;

    open spec fn view(&self) -> WorkItemView {
        WorkItemView {
            id: self.id@,
            text: self.text@,
            repo: self.repo@,
            kind: self.kind,
            send_back_note: text::opt_view(self.send_back_note),
        }
    }
}

/// The values that a body is written from.
pub enum Payload {
    /// Who is asking, and what there is to file against.
    Me { caller: Option<Caller>, offered: Vec<String> },
    /// Requests, as whoever reviews them sees them. `artifacts` is whether the
    /// paths on the administrator's own machine are among it.
    Reviewed { requests: Vec<Request>, artifacts: bool },
    /// One request, as whoever reviews it sees it, with whether anything
    /// currently offers to draft for it where `coverage` is set.
    Review { request: Request, artifacts: bool, coverage: bool },
    /// Requests, as whoever filed them sees them.
    Filings { requests: Vec<Request>, show_spec: bool, locale: Locale },
    /// One request, as whoever filed it sees it.
    Filing { request: Request, show_spec: bool, locale: Locale },
    /// Something to draft.
    Work { item: WorkItem },
    /// Nothing to draft.
    Idle,
}

/// The values that a body is written from, as contracts speak of them.
pub enum PayloadView {
    Me { caller: Option<CallerView>, offered: Seq<Seq<char>> },
    Reviewed { requests: Seq<RequestView>, artifacts: bool },
    Review { request: RequestView, artifacts: bool, coverage: bool },
    Filings { requests: Seq<RequestView>, show_spec: bool, locale: Locale },
    Filing { request: RequestView, show_spec: bool, locale: Locale },
    Work { item: WorkItemView },
    Idle,
}

impl View for Payload {
    type V = PayloadView;

    open spec fn view(&self) -> PayloadView {
        match self {
            Payload::Me { caller, offered } => PayloadView::Me {
                caller: caller::caller_view(*caller),
                offered: text::texts(offered@),
            },
            Payload::Reviewed { requests, artifacts } => PayloadView::Reviewed {
                requests: store::views(requests@),
                artifacts: *artifacts,
            },
            Payload::Review { request, artifacts, coverage } => PayloadView::Review {
                request: request@,
                artifacts: *artifacts,
                coverage: *coverage,
            },
            Payload::Filings { requests, show_spec, locale } => PayloadView::Filings {
                requests: store::views(requests@),
                show_spec: *show_spec,
                locale: *locale,
            },
            Payload::Filing { request, show_spec, locale } => PayloadView::Filing {
                request: request@,
                show_spec: *show_spec,
                locale: *locale,
            },
            Payload::Work { item } => PayloadView::Work { item: item@ },
            Payload::Idle => PayloadView::Idle,
        }
    }
}

/// A response, ready to be written.
pub struct Res {
    pub status: u16,
    pub content_type: &'static str,
    pub body: String,
    /// Set in place of `body` where the answer is part of the build.
    pub asset: Option<Asset>,
    /// Set in place of `body` where the answer is values to be written as JSON.
    pub payload: Option<Payload>,
    pub set_cookie: Option<String>,
    /// A tag for the body, on the one answer that has a cheap one.
    pub etag: Option<String>,
    /// Set where the connection is to be held open and the question asked again.
    pub hold_for_work: bool,
    pub policy: Policy,
}

/// A response, as contracts speak of it.
#[verifier::ext_equal]
pub struct ResView {
    pub status: u16,
    pub content_type: Seq<char>,
    pub body: Seq<char>,
    pub asset: Option<Asset>,
    pub payload: Option<PayloadView>,
    pub set_cookie: Option<Seq<char>>,
    pub etag: Option<Seq<char>>,
    pub hold_for_work: bool,
    pub policy: Policy,
}

impl View for Res {
    type V = ResView;

    open spec fn view(&self) -> ResView {
        ResView {
            status: self.status,
            content_type: self.content_type@,
            body: self.body@,
            asset: self.asset,
            payload: match self.payload {
                Some(p) => Some(p@),
                None => None,
            },
            set_cookie: text::opt_view(self.set_cookie),
            etag: text::opt_view(self.etag),
            hold_for_work: self.hold_for_work,
            policy: self.policy,
        }
    }
}

/// A response with a body and nothing else.
pub open spec fn plain_res(status: u16, content_type: Seq<char>, body: Seq<char>) -> ResView {
    ResView {
        status,
        content_type,
        body,
        asset: None,
        payload: None,
        set_cookie: None,
        etag: None,
        hold_for_work: false,
        policy: Policy::Strict,
    }
}

/// A JSON response.
pub open spec fn json_res(status: u16, body: Seq<char>) -> ResView {
    plain_res(status, "application/json"@, body)
}

/// A document.
pub open spec fn html_res(status: u16, body: Seq<char>) -> ResView {
    plain_res(status, "text/html; charset=utf-8"@, body)
}

/// A document that is part of the build.
pub open spec fn page_res(status: u16, asset: Asset) -> ResView {
    ResView { asset: Some(asset), ..html_res(status, ""@) }
}

/// A JSON response written from values.
pub open spec fn data_res(p: PayloadView) -> ResView {
    ResView { payload: Some(p), ..json_res(200, ""@) }
}

/// The response that says what went wrong.
pub open spec fn error_res(status: u16, msg: Seq<char>) -> ResView {
    json_res(status, json::error_body(msg))
}

impl Res {
    /// A JSON response.
    pub fn json(status: u16, body: &str) -> (r: Res)
        ensures
            r@ == json_res(status, body@),
    {
        Res {
            status,
            content_type: "application/json",
            body: owned(body),
            asset: None,
            payload: None,
            set_cookie: None,
            etag: None,
            hold_for_work: false,
            policy: Policy::Strict,
        }
    }

    /// A document.
    pub fn html(status: u16, body: &str) -> (r: Res)
        ensures
            r@ == html_res(status, body@),
    {
        Res {
            status,
            content_type: "text/html; charset=utf-8",
            body: owned(body),
            asset: None,
            payload: None,
            set_cookie: None,
            etag: None,
            hold_for_work: false,
            policy: Policy::Strict,
        }
    }

    /// A document that is part of the build.
    pub fn page(status: u16, asset: Asset) -> (r: Res)
        ensures
            r@ == page_res(status, asset),
    {
        let mut r = Res::html(status, "");
        r.asset = Some(asset);
        r
    }

    /// A JSON response written from values.
    pub fn data(payload: Payload) -> (r: Res)
        ensures
            r@ == data_res(payload@),
    {
        let mut r = Res::json(200, "");
        r.payload = Some(payload);
        r
    }

    /// The same response under a policy.
    pub fn with_policy(self, policy: Policy) -> (r: Res)
        ensures
            r@ == (ResView { policy, ..self@ }),
    {
        let mut r = self;
        r.policy = policy;
        r
    }

    /// The same response with a cookie.
    pub fn with_set_cookie(self, cookie: String) -> (r: Res)
        ensures
            r@ == (ResView { set_cookie: Some(cookie@), ..self@ }),
    {
        let mut r = self;
        r.set_cookie = Some(cookie);
        r
    }
}

/// The response that says what went wrong. Every failure has this shape.
pub fn error(status: u16, msg: &str) -> (r: Res)
    ensures
        r@ == error_res(status, msg@),
{
    let body = error_json(msg);
    Res::json(status, body.as_str())
}

} // verus!
