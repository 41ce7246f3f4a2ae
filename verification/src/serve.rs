//! Around the routes: what is read off the wire and written back, and what runs
//! beside them.

use vstd::prelude::*;
use vstd::string::*;

use crate::config;
use crate::config::{secure_for, GithubConfig, PublicConfig, Repos};
use crate::request::{Request, RequestState, RequestView};
use crate::routes::http;
use crate::routes::http::{security_headers, Req, ReqView, Res, ResView};
use crate::routes::paths::{COOKIE, LANG_COOKIE, SETUP_COOKIE, WORK};
use crate::routes::private_route;
use crate::routes::public_route;
use crate::screen::{reason_for, Screener, Verdict};
use crate::screen_eval;
use crate::seal;
use crate::seal::{hex, random_bytes, usable, SealKey, Sealed};
use crate::settings;
use crate::settings::{Seed, Settings};
use crate::store;
use crate::store::Store;
use crate::text;
use crate::text::{has_prefix, head_of, owned, same, split_all, split_first, strip, to_lower, trim};

verus! {

/// How long a held poll sleeps before looking for work again.
pub const POLL_TICK_MS: u64 = 250;

/// How long a poll is held before it is answered with nothing.
pub const POLL_TIMEOUT_MS: u64 = 30_000;

/// How often the screening sweep looks for new filings.
pub const SCREEN_TICK_MS: u64 = 2000;

/// How many filings one sweep screens.
pub const SCREEN_BATCH: usize = 4;

/// The largest body accepted, before anything is read into memory.
pub const MAX_BODY: usize = 1024 * 1024;

// ---------------------------------------------------------------------------
// Labels for the log
// ---------------------------------------------------------------------------

/// Every label there is.
pub open spec fn labels() -> Seq<Seq<char>> {
    seq![
        "/"@,
        "/public"@,
        "/public/signin"@,
        "/public/signout"@,
        "/public/language"@,
        "/public/app.js"@,
        "/public/font"@,
        "/public/signin/:token"@,
        "/public/request/:id"@,
        "/api/v1/work"@,
        "/review"@,
        "/review/:rest"@,
        "/setup"@,
        "other"@,
    ]
}

/// The label of a path, as its place among the labels.
pub open spec fn label_index(path: Seq<char>) -> int {
    if path == public_route::LANDING@ {
        0
    } else if path == public_route::FILE@ {
        1
    } else if path == public_route::SIGNIN@ {
        2
    } else if path == public_route::SIGNOUT@ {
        3
    } else if path == public_route::LANGUAGE@ {
        4
    } else if path == public_route::SCRIPT@ {
        5
    } else if path == public_route::FONT_BODY@ || path == public_route::FONT_DISPLAY@ {
        6
    } else if path == private_route::REVIEW@ {
        10
    } else if path == private_route::SETUP@ {
        12
    } else if public_route::SIGNIN_PREFIX@.is_prefix_of(path) {
        7
    } else if public_route::REQUEST_PREFIX@.is_prefix_of(path) {
        8
    } else if WORK@.is_prefix_of(path) {
        9
    } else if "/review/"@.is_prefix_of(path) {
        11
    } else {
        13
    }
}

/// Which route a request hit, as a label and never the address it sent: that
/// carries credentials. Every path becomes one of a fixed set of texts.
pub fn route_label(path: &str) -> (r: &'static str)
    ensures
        r@ == labels()[label_index(text::head(path@, '?'))],
{
    let p = head_of(path, '?');
    if same(p, public_route::LANDING) {
        "/"
    } else if same(p, public_route::FILE) {
        "/public"
    } else if same(p, public_route::SIGNIN) {
        "/public/signin"
    } else if same(p, public_route::SIGNOUT) {
        "/public/signout"
    } else if same(p, public_route::LANGUAGE) {
        "/public/language"
    } else if same(p, public_route::SCRIPT) {
        "/public/app.js"
    } else if same(p, public_route::FONT_BODY) || same(p, public_route::FONT_DISPLAY) {
        "/public/font"
    } else if same(p, private_route::REVIEW) {
        "/review"
    } else if same(p, private_route::SETUP) {
        "/setup"
    } else if has_prefix(p, public_route::SIGNIN_PREFIX) {
        "/public/signin/:token"
    } else if has_prefix(p, public_route::REQUEST_PREFIX) {
        "/public/request/:id"
    } else if has_prefix(p, WORK) {
        "/api/v1/work"
    } else if has_prefix(p, "/review/") {
        "/review/:rest"
    } else {
        "other"
    }
}

/// Whatever address was sent, its label is one of those there are: nothing of a
/// request reaches the log.
pub proof fn law_a_label_carries_no_request_data(path: Seq<char>)
    ensures
        0 <= label_index(path) < labels().len(),
        labels().contains(labels()[label_index(path)]),
{
    assert(labels().len() == 14);
    assert(labels().contains(labels()[label_index(path)]));
}

/// A query changes no label, whatever address it is put behind.
pub proof fn law_a_query_never_survives(path: Seq<char>, query: Seq<char>)
    ensures
        labels()[label_index(text::head(path + seq!['?'] + query, '?'))]
            == labels()[label_index(text::head(path, '?'))],
{
    let whole = path + seq!['?'] + query;
    assert(whole[path.len() as int] == '?');
    path.index_of_first_ensures('?');
    if path.contains('?') {
        let k = path.index_of_first('?').unwrap();
        assert forall|i: int| 0 <= i < k implies whole[i] != '?' by {
            assert(whole[i] == path[i]);
        }
        text::lemma_first_is(whole, '?', k);
        assert(whole.take(k) =~= path.take(k));
    } else {
        assert forall|i: int| 0 <= i < path.len() implies whole[i] != '?' by {
            assert(whole[i] == path[i]);
            assert(path.contains(path[i]));
        }
        text::lemma_first_is(whole, '?', path.len() as int);
        text::lemma_first_is_none(path, '?');
        assert(text::head(whole, '?') =~= path);
    }
}

// ---------------------------------------------------------------------------
// Ids for the log
// ---------------------------------------------------------------------------

/// The id that four random bytes make, or one that says there were none.
pub open spec fn id_words(bytes: Option<Seq<u8>>) -> Seq<char> {
    match bytes {
        Some(b) => seal::hexed(b),
        None => "????????"@,
    }
}

/// Bytes that may not have been had.
pub open spec fn drawn_view(bytes: Option<Vec<u8>>) -> Option<Seq<u8>> {
    match bytes {
        Some(b) => Some(b@),
        None => None,
    }
}

/// The id that random bytes make. One that repeats costs an ambiguous search, so
/// no randomness is no reason to refuse.
pub fn id_from(bytes: Option<Vec<u8>>) -> (r: String)
    ensures
        r@ == id_words(drawn_view(bytes)),
{
    match bytes {
        Some(b) => hex(b.as_slice()),
        None => "????????".to_owned(),
    }
}

/// A short id for one request, to find its lines in a log.
pub fn request_id() -> (r: String)
    ensures
        exists|bytes: Option<Seq<u8>>|
            r@ == #[trigger] id_words(bytes) && (bytes matches Some(b) ==> b.len() == 4),
{
    let bytes = random_bytes(4);
    let ghost drawn = drawn_view(bytes);
    let r = id_from(bytes);
    assert(r@ == id_words(drawn));
    r
}

// ---------------------------------------------------------------------------
// Reading
// ---------------------------------------------------------------------------

/// What one part of a `Cookie` header holds for a name.
pub open spec fn cookie_in(part: Seq<char>, name: Seq<char>) -> Option<Seq<char>> {
    match text::split_at_first(text::trimmed(part), '=') {
        Some((k, v)) => if text::trimmed(k) == name {
            Some(text::trimmed(v))
        } else {
            None
        },
        None => None,
    }
}

/// What the first of these parts that names a cookie holds for it.
pub open spec fn first_cookie(parts: Seq<Seq<char>>, name: Seq<char>) -> Option<Seq<char>>
    decreases parts.len(),
{
    if parts.len() == 0 {
        None
    } else {
        match cookie_in(parts[0], name) {
            Some(v) => Some(v),
            None => first_cookie(parts.skip(1), name),
        }
    }
}

/// One cookie's value in a `Cookie` header.
pub open spec fn cookie_of(header: Seq<char>, name: Seq<char>) -> Option<Seq<char>> {
    first_cookie(text::pieces(header, ';'), name)
}

/// Pull one cookie's value out of a `Cookie` header.
pub fn cookie_value(header: &str, name: &str) -> (r: Option<String>)
    ensures
        text::opt_view(r) == cookie_of(header@, name@),
{
    let parts = split_all(header, ';');
    let ghost all = text::texts(parts@);
    let mut i: usize = 0;
    assert(all.skip(0) =~= all);
    while i < parts.len()
        invariant
            i <= parts@.len(),
            all == text::texts(parts@),
            all == text::pieces(header@, ';'),
            first_cookie(all.skip(i as int), name@) == first_cookie(all, name@),
        decreases parts@.len() - i,
    {
        assert(all.skip(i as int)[0] == parts@[i as int]@);
        assert(all.skip(i as int).skip(1) =~= all.skip(i + 1));
        if let Some((k, v)) = split_first(trim(parts[i].as_str()), '=') {
            if same(trim(k), name) {
                return Some(owned(trim(v)));
            }
        }
        i = i + 1;
    }
    assert(first_cookie(all.skip(i as int), name@) is None);
    None
}

/// A cookie that was set reads back, where it stands alone in its header.
pub proof fn law_a_cookie_reads_back(name: Seq<char>, value: Seq<char>)
    requires
        name.len() > 0,
        text::trimmed(name) == name,
        text::trimmed(value) == value,
        !name.contains('='),
        !name.contains(';'),
        !value.contains(';'),
    ensures
        cookie_of(name + seq!['='] + value, name) == Some(value),
{
    let header = name + seq!['='] + value;
    text::lemma_trimmed_again(name);
    assert(header[0] == name[0]);
    if value.len() > 0 {
        text::lemma_trimmed_again(value);
        assert(header.last() == value.last());
    } else {
        assert(header.last() == '=');
    }
    text::lemma_bare_ends_stay(header);
    assert forall|i: int| 0 <= i < header.len() implies header[i] != ';' by {
        if i < name.len() {
            assert(header[i] == name[i]);
            assert(name.contains(name[i]));
        } else if i > name.len() {
            assert(header[i] == value[i - name.len() - 1]);
            assert(value.contains(value[i - name.len() - 1]));
        }
    }
    text::lemma_first_is_none(header, ';');
    assert(text::pieces(header, ';') =~= seq![header]);
    assert forall|i: int| 0 <= i < name.len() implies header[i] != '=' by {
        assert(header[i] == name[i]);
        assert(name.contains(name[i]));
    }
    text::lemma_first_is(header, '=', name.len() as int);
    assert(header.take(name.len() as int) =~= name);
    assert(header.skip(name.len() as int + 1) =~= value);
    assert(cookie_in(header, name) == Some(value));
}

/// Headers, as contracts speak of them.
pub open spec fn pairs(h: Seq<(String, String)>) -> Seq<(Seq<char>, Seq<char>)> {
    h.map_values(|p: (String, String)| (p.0@, p.1@))
}

/// The bearer token in an `Authorization` header.
pub open spec fn bearer_in(value: Seq<char>) -> Option<Seq<char>> {
    match text::after_prefix(value, "Bearer "@) {
        Some(t) => Some(text::trimmed(t)),
        None => match text::after_prefix(value, "bearer "@) {
            Some(t) => Some(text::trimmed(t)),
            None => None,
        },
    }
}

/// A request after one more of its headers.
pub open spec fn with_header(r: ReqView, name: Seq<char>, value: Seq<char>) -> ReqView {
    let n = text::lower(name);
    if n == "authorization"@ {
        ReqView { bearer: bearer_in(value), ..r }
    } else if n == "cookie"@ {
        ReqView {
            cookie_token: cookie_of(value, COOKIE@),
            cookie_setup: cookie_of(value, SETUP_COOKIE@),
            cookie_lang: cookie_of(value, LANG_COOKIE@),
            ..r
        }
    } else if n == "accept-language"@ {
        ReqView { accept_language: Some(value), ..r }
    } else if n == "if-none-match"@ {
        ReqView { if_none_match: Some(value), ..r }
    } else if n == "origin"@ {
        ReqView { origin: Some(value), ..r }
    } else if n == "content-type"@ {
        ReqView { content_type: Some(value), ..r }
    } else {
        r
    }
}

/// A request after its headers, in the order they came.
pub open spec fn with_headers(r: ReqView, h: Seq<(Seq<char>, Seq<char>)>) -> ReqView
    decreases h.len(),
{
    if h.len() == 0 {
        r
    } else {
        with_header(with_headers(r, h.drop_last()), h.last().0, h.last().1)
    }
}

fn bearer_of(value: &str) -> (r: Option<String>)
    ensures
        text::opt_view(r) == bearer_in(value@),
{
    match strip(value, "Bearer ") {
        Some(t) => Some(owned(trim(t))),
        None => match strip(value, "bearer ") {
            Some(t) => Some(owned(trim(t))),
            None => None,
        },
    }
}

fn take_header(req: Req, name: &str, value: &str) -> (r: Req)
    ensures
        r@ == with_header(req@, name@, value@),
{
    let mut out = req;
    let n = to_lower(name);
    let n = n.as_str();
    if same(n, "authorization") {
        out.bearer = bearer_of(value);
    } else if same(n, "cookie") {
        out.cookie_token = cookie_value(value, COOKIE);
        out.cookie_setup = cookie_value(value, SETUP_COOKIE);
        out.cookie_lang = cookie_value(value, LANG_COOKIE);
    } else if same(n, "accept-language") {
        out.accept_language = Some(owned(value));
    } else if same(n, "if-none-match") {
        out.if_none_match = Some(owned(value));
    } else if same(n, "origin") {
        out.origin = Some(owned(value));
    } else if same(n, "content-type") {
        out.content_type = Some(owned(value));
    }
    out
}

/// A request, from what came off the wire. Only what the routes use is kept.
pub fn read(method: &str, path: &str, headers: &Vec<(String, String)>, body: &str) -> (r: Req)
    ensures
        r@ == with_headers(http::bare(method@, path@, body@), pairs(headers@)),
{
    let mut req = Req::get(path);
    req.method = owned(method);
    req.body = owned(body);
    let ghost base = http::bare(method@, path@, body@);
    let ghost all = pairs(headers@);
    let mut i: usize = 0;
    assert(all.take(0) =~= Seq::<(Seq<char>, Seq<char>)>::empty());
    while i < headers.len()
        invariant
            i <= headers@.len(),
            all == pairs(headers@),
            req@ == with_headers(base, all.take(i as int)),
        decreases headers@.len() - i,
    {
        assert(all.take(i + 1).drop_last() =~= all.take(i as int));
        assert(all.take(i + 1).last() == (headers@[i as int].0@, headers@[i as int].1@));
        req = take_header(req, headers[i].0.as_str(), headers[i].1.as_str());
        i = i + 1;
    }
    assert(all.take(i as int) =~= all);
    req
}

/// How much of a body of this declared length is read: nothing of one that is
/// too long, so that it is never held.
pub open spec fn body_share(declared: Option<usize>) -> usize {
    match declared {
        Some(n) => if n > MAX_BODY || n == 0 {
            0
        } else {
            MAX_BODY
        },
        None => 0,
    }
}

/// How much of a body of this declared length is read, at the most.
pub fn body_limit(declared: Option<usize>) -> (r: usize)
    ensures
        r == body_share(declared),
{
    match declared {
        Some(n) => {
            if n > MAX_BODY || n == 0 {
                0
            } else {
                MAX_BODY
            }
        },
        None => 0,
    }
}

// ---------------------------------------------------------------------------
// The long poll
// ---------------------------------------------------------------------------

/// Is this a daemon asking for work?
pub open spec fn polls(r: ReqView) -> bool {
    r.method == "GET"@ && text::head(r.path, '?') == WORK@
}

/// Is this a daemon asking for work?
pub fn is_poll(req: &Req) -> (r: bool)
    ensures
        r == polls(req@),
{
    same(req.method.as_str(), "GET") && same(head_of(req.path.as_str(), '?'), WORK)
}

/// Is the connection held for another tick? It is for a poll that found nothing,
/// until it has been held for as long as polls are.
pub fn keeps_holding(req: &Req, res: &Res, held_ms: u64) -> (r: bool)
    ensures
        r == (polls(req@) && res@.hold_for_work && held_ms < POLL_TIMEOUT_MS),
{
    is_poll(req) && res.hold_for_work && held_ms < POLL_TIMEOUT_MS
}

// ---------------------------------------------------------------------------
// Writing
// ---------------------------------------------------------------------------

/// The headers that a response is written with.
pub open spec fn written_headers(r: ResView) -> Seq<(Seq<char>, Seq<char>)> {
    let fixed = seq![("Content-Type"@, r.content_type)] + http::headers_of(r.policy);
    let cookie = match r.set_cookie {
        Some(c) => seq![("Set-Cookie"@, c)],
        None => Seq::empty(),
    };
    let tag = match r.etag {
        Some(t) => seq![("ETag"@, t)],
        None => Seq::empty(),
    };
    fixed + cookie + tag
}

/// The headers that a response is written with. Every response carries the same
/// ones, whatever route it came from.
pub fn write_headers(res: &Res) -> (r: Vec<(String, String)>)
    ensures
        pairs(r@) == written_headers(res@),
{
    let mut out: Vec<(String, String)> = Vec::new();
    out.push((owned("Content-Type"), owned(res.content_type)));
    let fixed = security_headers(res.policy);
    let ghost first = seq![("Content-Type"@, res@.content_type)];
    let ghost views = http::headers_of(res.policy);
    assert(pairs(out@) =~= first + views.take(0));
    let mut i: usize = 0;
    while i < 5
        invariant
            i <= 5,
            http::header_views(fixed@) == views,
            views.len() == 5,
            pairs(out@) == first + views.take(i as int),
        decreases 5 - i,
    {
        let ghost before = out@;
        let (name, value) = fixed[i];
        assert(http::header_views(fixed@)[i as int] == (name@, value@));
        out.push((owned(name), owned(value)));
        assert(pairs(out@) =~= pairs(before).push((name@, value@)));
        assert(views.take(i + 1) =~= views.take(i as int).push(views[i as int]));
        i = i + 1;
        assert(pairs(out@) =~= first + views.take(i as int));
    }
    assert(views.take(5) =~= views);
    let ghost fixed_view = first + views;
    if let Some(c) = &res.set_cookie {
        let ghost before = out@;
        out.push((owned("Set-Cookie"), c.clone()));
        assert(pairs(out@) =~= pairs(before).push(("Set-Cookie"@, c@)));
    }
    if let Some(t) = &res.etag {
        let ghost before = out@;
        out.push((owned("ETag"), t.clone()));
        assert(pairs(out@) =~= pairs(before).push(("ETag"@, t@)));
    }
    assert(pairs(out@) =~= written_headers(res@));
    out
}

/// Every response is written with the five headers, in one order, right behind
/// its content type.
pub proof fn law_every_response_is_written_with_the_headers(r: ResView, i: int)
    requires
        0 <= i < 5,
    ensures
        written_headers(r).len() >= 6,
        written_headers(r)[i + 1] == http::headers_of(r.policy)[i],
{
}

// ---------------------------------------------------------------------------
// The public surface, as it is configured right now
// ---------------------------------------------------------------------------

/// The ceilings where none is set.
#[derive(Debug, Clone, Copy, PartialEq, Eq, Structural)]
pub struct Defaults {
    pub max_daily_filings: usize,
    pub max_daily_drafts: usize,
    pub max_accounts: usize,
    pub max_outstanding_links: usize,
}

/// A ceiling, or the default where none is set.
pub open spec fn ceiling(set: Option<usize>, default: usize) -> usize {
    match set {
        Some(n) => n,
        None => default,
    }
}

fn or_default(set: Option<usize>, default: usize) -> (r: usize)
    ensures
        r == ceiling(set, default),
{
    match set {
        Some(n) => n,
        None => default,
    }
}

/// The rest of what a public surface is made of, as it is set.
pub struct Site {
    /// The address this server answers on.
    pub base_url: String,
    /// What its pages are headed, where somebody said so.
    pub name: String,
    /// What the address alone would head them with.
    pub host_label: String,
    /// Whether a mail provider is configured.
    pub mail: bool,
    /// Whether a screener is configured.
    pub screen: bool,
    /// Whether signing in through GitHub is set up.
    pub has_github: bool,
    pub github_client_id: String,
    /// What the sealed client secret opens to, where it opens.
    pub github_client_secret: Option<String>,
}

/// What the pages are headed: the name that is set, or else the label of the
/// address. A heading is no reason to refuse to serve.
pub open spec fn heading(site: Site) -> Seq<char> {
    if site.name@.len() == 0 {
        site.host_label@
    } else {
        site.name@
    }
}

/// The client and its secret for GitHub: only where they are set up and the
/// secret opens.
pub open spec fn github_of(site: Site) -> Option<(Seq<char>, Seq<char>)> {
    if !site.has_github {
        None
    } else {
        match site.github_client_secret {
            Some(secret) => Some((site.github_client_id@, secret@)),
            None => None,
        }
    }
}

/// A configuration for GitHub, as the client and its secret.
pub open spec fn github_view(g: Option<GithubConfig>) -> Option<(Seq<char>, Seq<char>)> {
    match g {
        Some(g) => Some((g.client_id@, g.client_secret@)),
        None => None,
    }
}

fn github_now(site: &Site) -> (r: Option<GithubConfig>)
    ensures
        github_view(r) == github_of(*site),
{
    if !site.has_github {
        return None;
    }
    match &site.github_client_secret {
        Some(secret) => Some(
            GithubConfig {
                client_id: site.github_client_id.clone(),
                client_secret: secret.clone(),
            },
        ),
        None => None,
    }
}

/// The public surface as it is configured right now. There is none where it is
/// switched off, so that no public route exists.
pub fn public_now(
    settings: &Settings,
    repos: Vec<String>,
    site: &Site,
    defaults: &Defaults,
) -> (r: Option<PublicConfig>)
    ensures
        r is Some == settings.public,
        r matches Some(p) ==> {
            &&& p.repos@ == text::texts(repos@)
            &&& p.site_name@ == heading(*site)
            &&& p.base_url@ == site.base_url@
            &&& p.secure_cookies == config::secure_address(site.base_url@)
            &&& p.mail == site.mail
            &&& p.screen == site.screen
            &&& p.show_spec == (settings.show_spec != Some(false))
            &&& p.max_daily_filings == ceiling(
                settings.max_daily_filings,
                defaults.max_daily_filings,
            )
            &&& p.max_daily_drafts == ceiling(settings.max_daily_drafts, defaults.max_daily_drafts)
            &&& p.max_accounts == ceiling(settings.max_accounts, defaults.max_accounts)
            &&& p.max_outstanding_links == ceiling(
                settings.max_outstanding_links,
                defaults.max_outstanding_links,
            )
            &&& github_view(p.github) == github_of(*site)
        },
{
    if !settings.public {
        return None;
    }
    Some(
        PublicConfig {
            repos: Repos { names: repos },
            site_name: if site.name.as_str().is_empty() {
                site.host_label.clone()
            } else {
                site.name.clone()
            },
            base_url: site.base_url.clone(),
            // It follows from the address, so the two cannot drift apart.
            secure_cookies: secure_for(site.base_url.as_str()),
            mail: site.mail,
            screen: site.screen,
            show_spec: match settings.show_spec {
                Some(b) => b,
                None => true,
            },
            max_daily_filings: or_default(settings.max_daily_filings, defaults.max_daily_filings),
            max_daily_drafts: or_default(settings.max_daily_drafts, defaults.max_daily_drafts),
            max_accounts: or_default(settings.max_accounts, defaults.max_accounts),
            max_outstanding_links: or_default(
                settings.max_outstanding_links,
                defaults.max_outstanding_links,
            ),
            github: github_now(site),
        },
    )
}

/// What an environment with this surface offers at first boot.
pub open spec fn seed_of(public: Option<&PublicConfig>) -> Seed {
    match public {
        Some(p) => Seed {
            public: true,
            show_spec: Some(p.show_spec),
            max_daily_filings: Some(p.max_daily_filings),
            max_daily_drafts: Some(p.max_daily_drafts),
            max_accounts: Some(p.max_accounts),
            max_outstanding_links: Some(p.max_outstanding_links),
        },
        None => Seed {
            public: false,
            show_spec: None,
            max_daily_filings: None,
            max_daily_drafts: None,
            max_accounts: None,
            max_outstanding_links: None,
        },
    }
}

/// Apply the environment to the settings once, on a fresh volume. `true` where
/// they are to be written.
pub fn seed_settings(s: &mut Settings, public: Option<&PublicConfig>) -> (r: bool)
    ensures
        *final(s) == settings::seeded_from(*old(s), seed_of(public)),
        r == !old(s).seeded,
{
    let seed = match public {
        Some(p) => Seed {
            public: true,
            show_spec: Some(p.show_spec),
            max_daily_filings: Some(p.max_daily_filings),
            max_daily_drafts: Some(p.max_daily_drafts),
            max_accounts: Some(p.max_accounts),
            max_outstanding_links: Some(p.max_outstanding_links),
        },
        None => Seed::default(),
    };
    s.seed(seed)
}

/// How sign-in links are sent.
#[derive(Debug, Clone, Copy, PartialEq, Eq, Structural)]
pub enum MailRoute {
    /// Printed to the console.
    Console,
    /// By the provider that is configured.
    Provider,
    /// Not at all, and loudly.
    Unconfigured,
}

/// How sign-in links are sent, as the settings describe it now. The console comes
/// first.
pub fn mailer_for(to_console: bool, public: Option<&PublicConfig>) -> (r: MailRoute)
    ensures
        r == (if to_console {
            MailRoute::Console
        } else if public matches Some(p) && p.mail {
            MailRoute::Provider
        } else {
            MailRoute::Unconfigured
        }),
{
    if to_console {
        return MailRoute::Console;
    }
    match public {
        Some(p) => {
            if p.mail {
                MailRoute::Provider
            } else {
                MailRoute::Unconfigured
            }
        },
        None => MailRoute::Unconfigured,
    }
}

// ---------------------------------------------------------------------------
// Claim codes
// ---------------------------------------------------------------------------

/// What arming a claim code needs done.
#[derive(Debug, Clone, Copy, PartialEq, Eq, Structural)]
pub enum ArmAction {
    /// Read who claimed this server.
    ReadClaim,
    /// Mint a code, and arm it.
    Arm,
    WriteClaim,
}

/// What has come back so far.
pub struct ArmFacts {
    pub claimed: Option<Result<bool, String>>,
    /// The code that was minted.
    pub code: Option<String>,
    pub written: Option<Result<(), String>>,
}

/// What arming a claim code does next, or what it ends with.
pub enum ArmStep {
    Do(ArmAction),
    /// The code to print, or none on a server that is claimed.
    Armed(Option<String>),
    Failed(String),
}

/// What arming a claim code does next, as contracts speak of it.
pub enum ArmStepView {
    Do(ArmAction),
    Armed(Option<Seq<char>>),
    Failed(Seq<char>),
}

impl View for ArmStep {
    type V = ArmStepView;

    open spec fn view(&self) -> ArmStepView {
        match self {
            ArmStep::Do(a) => ArmStepView::Do(*a),
            ArmStep::Armed(c) => ArmStepView::Armed(text::opt_view(*c)),
            ArmStep::Failed(e) => ArmStepView::Failed(e@),
        }
    }
}

/// What arming a claim code does next.
pub open spec fn arm_next(f: ArmFacts) -> ArmStepView {
    match f.claimed {
        None => ArmStepView::Do(ArmAction::ReadClaim),
        Some(Err(e)) => ArmStepView::Failed(e@),
        Some(Ok(true)) => ArmStepView::Armed(None),
        Some(Ok(false)) => match f.code {
            None => ArmStepView::Do(ArmAction::Arm),
            Some(code) => match f.written {
                None => ArmStepView::Do(ArmAction::WriteClaim),
                Some(Err(e)) => ArmStepView::Failed(e@),
                Some(Ok(_)) => ArmStepView::Armed(Some(code@)),
            },
        },
    }
}

/// Arm a claim code on a server that nobody owns yet.
pub fn arm_claim(f: &ArmFacts) -> (r: ArmStep)
    ensures
        r@ == arm_next(*f),
{
    match &f.claimed {
        None => {
            return ArmStep::Do(ArmAction::ReadClaim);
        },
        Some(Err(e)) => {
            return ArmStep::Failed(e.clone());
        },
        Some(Ok(claimed)) => {
            if *claimed {
                return ArmStep::Armed(None);
            }
        },
    }
    let code = match &f.code {
        None => {
            return ArmStep::Do(ArmAction::Arm);
        },
        Some(code) => code,
    };
    match &f.written {
        None => ArmStep::Do(ArmAction::WriteClaim),
        Some(Err(e)) => ArmStep::Failed(e.clone()),
        Some(Ok(_)) => ArmStep::Armed(Some(code.clone())),
    }
}

/// A claimed server never arms a code, however often it restarts.
pub proof fn law_a_claimed_server_is_never_armed(f: ArmFacts)
    requires
        f.claimed matches Some(Ok(true)),
    ensures
        arm_next(f) == ArmStepView::Armed(None),
{
}

// ---------------------------------------------------------------------------
// Starting
// ---------------------------------------------------------------------------

/// What seeding a file from the environment needs done.
#[derive(Debug, Clone, Copy, PartialEq, Eq, Structural)]
pub enum SeedAction {
    Read,
    /// Apply the environment to what was read.
    Apply,
    Write,
}

/// What has come back so far.
pub struct SeedFacts {
    pub read: Option<Result<(), String>>,
    /// Was this the first time?
    pub applied: Option<bool>,
    pub written: Option<Result<(), String>>,
}

/// What seeding does next, or how it ended.
pub enum SeedStep {
    Do(SeedAction),
    /// Done; `true` where the environment was taken, and `false` where the file
    /// had been administered before and what the environment says was ignored.
    Seeded(bool),
    Failed(String),
}

/// What seeding does next, as contracts speak of it.
pub enum SeedStepView {
    Do(SeedAction),
    Seeded(bool),
    Failed(Seq<char>),
}

impl View for SeedStep {
    type V = SeedStepView;

    open spec fn view(&self) -> SeedStepView {
        match self {
            SeedStep::Do(a) => SeedStepView::Do(*a),
            SeedStep::Seeded(b) => SeedStepView::Seeded(*b),
            SeedStep::Failed(e) => SeedStepView::Failed(e@),
        }
    }
}

/// What seeding does next. A file that was seeded before is not written.
pub open spec fn seed_next(f: SeedFacts) -> SeedStepView {
    match f.read {
        None => SeedStepView::Do(SeedAction::Read),
        Some(Err(e)) => SeedStepView::Failed(e@),
        Some(Ok(_)) => match f.applied {
            None => SeedStepView::Do(SeedAction::Apply),
            Some(false) => SeedStepView::Seeded(false),
            Some(true) => match f.written {
                None => SeedStepView::Do(SeedAction::Write),
                Some(Err(e)) => SeedStepView::Failed(e@),
                Some(Ok(_)) => SeedStepView::Seeded(true),
            },
        },
    }
}

/// Apply what the environment says of owners, repositories and machines once, the
/// first time a volume is used: doing it at every start would bring back whoever
/// was revoked.
pub fn seed_roster(f: &SeedFacts) -> (r: SeedStep)
    ensures
        r@ == seed_next(*f),
{
    match &f.read {
        None => {
            return SeedStep::Do(SeedAction::Read);
        },
        Some(Err(e)) => {
            return SeedStep::Failed(e.clone());
        },
        Some(Ok(_)) => {},
    }
    match f.applied {
        None => {
            return SeedStep::Do(SeedAction::Apply);
        },
        Some(applied) => {
            if !applied {
                return SeedStep::Seeded(false);
            }
        },
    }
    match &f.written {
        None => SeedStep::Do(SeedAction::Write),
        Some(Err(e)) => SeedStep::Failed(e.clone()),
        Some(Ok(_)) => SeedStep::Seeded(true),
    }
}

/// What starting the server needs done.
#[derive(Debug, Clone, Copy, PartialEq, Eq, Structural)]
pub enum StartAction {
    OpenStore,
    ArmClaim,
    /// Read what is sealed on the volume.
    ReadSealed,
    SeedRoster,
    SeedSettings,
    /// Listen.
    Bind,
}

/// What has come back so far.
pub struct StartFacts {
    pub opened: Option<Result<(), String>>,
    pub armed: Option<Result<(), String>>,
    pub sealed: Option<Result<Sealed, String>>,
    pub roster: Option<Result<(), String>>,
    pub settings: Option<Result<(), String>>,
    pub bound: Option<Result<(), String>>,
}

/// What starting the server does next, or how it ended.
pub enum StartStep {
    Do(StartAction),
    /// Serve.
    Serve,
    Failed(String),
}

/// What starting the server does next, as contracts speak of it.
pub enum StartStepView {
    Do(StartAction),
    Serve,
    Failed(Seq<char>),
}

impl View for StartStep {
    type V = StartStepView;

    open spec fn view(&self) -> StartStepView {
        match self {
            StartStep::Do(a) => StartStepView::Do(*a),
            StartStep::Serve => StartStepView::Serve,
            StartStep::Failed(e) => StartStepView::Failed(e@),
        }
    }
}

/// What starting does next, once the key is known to fit what is sealed.
pub open spec fn start_end(f: StartFacts) -> StartStepView {
    match f.roster {
        None => StartStepView::Do(StartAction::SeedRoster),
        Some(Err(e)) => StartStepView::Failed(e@),
        Some(Ok(_)) => match f.settings {
            None => StartStepView::Do(StartAction::SeedSettings),
            Some(Err(e)) => StartStepView::Failed(e@),
            Some(Ok(_)) => match f.bound {
                None => StartStepView::Do(StartAction::Bind),
                Some(Err(e)) => StartStepView::Failed(e@),
                Some(Ok(_)) => StartStepView::Serve,
            },
        },
    }
}

/// What starting the server does next. The key is checked before any setting is
/// taken: with the wrong one a server would start as if nothing were configured.
pub open spec fn start_next(f: StartFacts, key: Option<&SealKey>) -> StartStepView {
    match f.opened {
        None => StartStepView::Do(StartAction::OpenStore),
        Some(Err(e)) => StartStepView::Failed(e@),
        Some(Ok(_)) => match f.armed {
            None => StartStepView::Do(StartAction::ArmClaim),
            Some(Err(e)) => StartStepView::Failed(e@),
            Some(Ok(_)) => match f.sealed {
                None => StartStepView::Do(StartAction::ReadSealed),
                Some(Err(e)) => StartStepView::Failed(e@),
                Some(Ok(sealed)) => match seal::key_problem(key, Some(&sealed)) {
                    Some(e) => StartStepView::Failed(e),
                    None => start_end(f),
                },
            },
        },
    }
}

fn finish_start(f: &StartFacts) -> (r: StartStep)
    ensures
        r@ == start_end(*f),
{
    match &f.roster {
        None => {
            return StartStep::Do(StartAction::SeedRoster);
        },
        Some(Err(e)) => {
            return StartStep::Failed(e.clone());
        },
        Some(Ok(_)) => {},
    }
    match &f.settings {
        None => {
            return StartStep::Do(StartAction::SeedSettings);
        },
        Some(Err(e)) => {
            return StartStep::Failed(e.clone());
        },
        Some(Ok(_)) => {},
    }
    match &f.bound {
        None => StartStep::Do(StartAction::Bind),
        Some(Err(e)) => StartStep::Failed(e.clone()),
        Some(Ok(_)) => StartStep::Serve,
    }
}

/// No server serves, and none takes a setting from its environment, with a key
/// that does not open what its volume holds.
pub proof fn law_the_key_is_checked_first(f: StartFacts, key: Option<&SealKey>, sealed: Sealed)
    requires
        f.sealed == Some(Ok::<Sealed, String>(sealed)),
        seal::key_problem(key, Some(&sealed)) is Some,
    ensures
        start_next(f, key) != StartStepView::Serve,
        start_next(f, key) != StartStepView::Do(StartAction::SeedRoster),
        start_next(f, key) != StartStepView::Do(StartAction::SeedSettings),
{
}

/// Start the server.
pub fn run(f: &StartFacts, key: Option<&SealKey>) -> (r: StartStep)
    ensures
        r@ == start_next(*f, key),
{
    match &f.opened {
        None => {
            return StartStep::Do(StartAction::OpenStore);
        },
        Some(Err(e)) => {
            return StartStep::Failed(e.clone());
        },
        Some(Ok(_)) => {},
    }
    match &f.armed {
        None => {
            return StartStep::Do(StartAction::ArmClaim);
        },
        Some(Err(e)) => {
            return StartStep::Failed(e.clone());
        },
        Some(Ok(_)) => {},
    }
    match &f.sealed {
        None => {
            return StartStep::Do(StartAction::ReadSealed);
        },
        Some(Err(e)) => {
            return StartStep::Failed(e.clone());
        },
        Some(Ok(sealed)) => {
            if let Err(e) = usable(key, Some(sealed)) {
                return StartStep::Failed(e);
            }
        },
    }
    finish_start(f)
}

// ---------------------------------------------------------------------------
// Screening
// ---------------------------------------------------------------------------

/// How a screener is reached.
pub struct ScreenConfig {
    pub api_key: String,
    pub url: String,
    pub model: String,
}

/// What a sweep does about its screener.
#[derive(Debug, Clone, Copy, PartialEq, Eq, Structural)]
pub enum ScreenPlan {
    /// Screening is off: drop the screener, and skip the sweep.
    Off,
    /// Sweep with the screener there is.
    Keep,
    /// Build one anew, and sweep.
    Build,
}

/// Do these describe the same screener?
pub open spec fn same_screener(a: ScreenConfig, b: ScreenConfig) -> bool {
    a.api_key@ == b.api_key@ && a.url@ == b.url@ && a.model@ == b.model@
}

/// What a sweep does about its screener: one is built only where what describes
/// it has changed, and turning screening off is never for good.
pub fn plan_screening(built: Option<&ScreenConfig>, wanted: Option<&ScreenConfig>) -> (r: ScreenPlan)
    ensures
        r == (match wanted {
            None => ScreenPlan::Off,
            Some(w) => if built matches Some(b) && same_screener(*b, *w) {
                ScreenPlan::Keep
            } else {
                ScreenPlan::Build
            },
        }),
{
    let w = match wanted {
        None => {
            return ScreenPlan::Off;
        },
        Some(w) => w,
    };
    match built {
        Some(b) => {
            if same(b.api_key.as_str(), w.api_key.as_str()) && same(b.url.as_str(), w.url.as_str())
                && same(b.model.as_str(), w.model.as_str()) {
                ScreenPlan::Keep
            } else {
                ScreenPlan::Build
            }
        },
        None => ScreenPlan::Build,
    }
}

/// The filings that one sweep screens: the oldest that wait.
pub open spec fn batch(s: Seq<RequestView>) -> Seq<RequestView> {
    let waiting = s.filter(|q: RequestView| q.state == RequestState::Screening);
    if waiting.len() > SCREEN_BATCH {
        waiting.take(SCREEN_BATCH as int)
    } else {
        waiting
    }
}

/// The filings that one sweep screens.
pub fn screen_batch(store: &Store) -> (r: Vec<Request>)
    ensures
        store::views(r@) == batch(store@),
{
    let mut waiting = store.pending_screening();
    let ghost all = store::views(waiting@);
    if waiting.len() > SCREEN_BATCH {
        waiting.truncate(SCREEN_BATCH);
        assert(store::views(waiting@) =~= all.take(SCREEN_BATCH as int));
    }
    waiting
}

/// What is noted on a request that a verdict holds.
pub open spec fn held_note(v: Verdict) -> Option<Seq<char>> {
    match v {
        Verdict::Quarantine => Some(Verdict::REASON@),
        Verdict::Admit => None,
    }
}

/// The records after one verdict. A request that somebody has already released
/// keeps what they decided.
pub open spec fn after_verdict(s: Seq<RequestView>, id: Seq<char>, v: Verdict) -> Seq<RequestView> {
    match store::verdict_refusal(s, id) {
        Some(_) => s,
        None => {
            let i = store::position(s, id).unwrap();
            s.update(i, store::cleaned(store::screened(s[i], held_note(v))))
        },
    }
}

/// The records after these verdicts on these requests, one after another.
pub open spec fn after_verdicts(
    s: Seq<RequestView>,
    judged: Seq<RequestView>,
    verdicts: Seq<Verdict>,
) -> Seq<RequestView>
    decreases verdicts.len(),
{
    if verdicts.len() == 0 || judged.len() < verdicts.len() {
        s
    } else {
        after_verdict(
            after_verdicts(s, judged.take(verdicts.len() - 1), verdicts.drop_last()),
            judged[verdicts.len() - 1].id,
            verdicts.last(),
        )
    }
}

/// Take a screener's verdict on a request.
pub fn take_verdict(store: &mut Store, id: &str, verdict: Verdict)
    requires
        old(store).wf(),
    ensures
        final(store).wf(),
        final(store).home() == old(store).home(),
        final(store)@ == after_verdict(old(store)@, id@, verdict),
{
    let _ = store.finish_screening(id, reason_for(verdict));
}

/// Did the screener give these verdicts on these requests?
pub open spec fn screened_as<S: Screener + ?Sized>(
    screener: &S,
    judged: Seq<RequestView>,
    verdicts: Seq<Verdict>,
) -> bool {
    &&& verdicts.len() == judged.len()
    &&& forall|i: int|
        0 <= i < judged.len() ==> screen_eval::may_say(
            screener,
            judged[i].text,
            #[trigger] verdicts[i],
        )
}

/// Screen the filings of one sweep, and take each verdict.
pub fn screen_pending<S: Screener + ?Sized>(store: &mut Store, screener: &S)
    requires
        old(store).wf(),
    ensures
        final(store).wf(),
        final(store).home() == old(store).home(),
        exists|verdicts: Seq<Verdict>|
            {
                &&& #[trigger] screened_as(screener, batch(old(store)@), verdicts)
                &&& final(store)@ == after_verdicts(
                    old(store)@,
                    batch(old(store)@),
                    verdicts,
                )
            },
{
    let waiting = screen_batch(store);
    let ghost judged = batch(store@);
    let ghost mut verdicts: Seq<Verdict> = Seq::empty();
    let mut i: usize = 0;
    assert(judged.take(0) =~= Seq::<RequestView>::empty());
    while i < waiting.len()
        invariant
            i <= waiting@.len(),
            store::views(waiting@) == judged,
            judged == batch(old(store)@),
            store.wf(),
            store.home() == old(store).home(),
            verdicts.len() == i,
            forall|k: int|
                0 <= k < i ==> screen_eval::may_say(
                    screener,
                    judged[k].text,
                    #[trigger] verdicts[k],
                ),
            store@ == after_verdicts(old(store)@, judged.take(i as int), verdicts),
        decreases waiting@.len() - i,
    {
        assert(judged[i as int] == waiting@[i as int]@);
        let t = waiting[i].text.as_str();
        let v = screener.screen(t);
        assert(screen_eval::may_say(screener, judged[i as int].text, v)) by {
            assert(t@ == judged[i as int].text);
        }
        take_verdict(store, waiting[i].id.as_str(), v);
        proof {
            let before = verdicts;
            verdicts = verdicts.push(v);
            assert(verdicts.drop_last() =~= before);
            assert(judged.take(i + 1).take(i as int) =~= judged.take(i as int));
            assert(judged.take(i + 1)[i as int] == judged[i as int]);
        }
        i = i + 1;
    }
    assert(judged.take(i as int) =~= judged);
    assert(screened_as(screener, judged, verdicts));
}

/// A verdict never touches a request that is not being screened.
pub proof fn law_a_verdict_settles_only_what_waits(
    s: Seq<RequestView>,
    id: Seq<char>,
    v: Verdict,
    i: int,
)
    requires
        0 <= i < s.len(),
        s[i].state != RequestState::Screening,
    ensures
        after_verdict(s, id, v).len() == s.len(),
        after_verdict(s, id, v)[i] == s[i],
{
}

} // verus!
