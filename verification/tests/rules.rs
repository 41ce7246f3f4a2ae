//! What holds of the routes, on chosen values.

use sc_server::caller::{
    identify, keep_served, Bucket, Caller, Credentials, DaemonKey, OwnerRecord, SessionAccount,
};
use sc_server::config::{PublicConfig, Repos};
use sc_server::i18n::{negotiate, Locale, Strings};
use sc_server::json::{Body, Field};
use sc_server::request::{Draft, IntakeKind, Request, RequestState};
use sc_server::routes::admin::{
    api_add_owner, api_add_repo, api_admin, api_mint_daemon, api_revoke, api_settings, check_label,
    check_login, grant, minted_json, revoked_from, AdminList, ChangeAction, ChangeFacts,
};
use sc_server::routes::answer::{Answer, Ask};
use sc_server::routes::cookies::{
    claim_cookie, ended_cookie, language_cookie, session_cookie, setup_cookie,
};
use sc_server::routes::daemon::{
    daemon_route, poll, take_report, DaemonCall, Received, Report, ReportKind,
};
use sc_server::routes::dispatch::{budget, counted, handle_at, handle_sent, same_origin, Ctx};
use sc_server::routes::filing::{check_length, choose_repo, file_now, FilingRefused, MAX_BYTES};
use sc_server::routes::forms::{form_fields, percent_decode, poll_query};
use sc_server::routes::http::{error, Asset, Payload, Policy, Req, Res};
use sc_server::routes::listing::listing_order;
use sc_server::routes::pages::{esc, signin_confirm_page, signin_failed_page};
use sc_server::routes::paths::{bucket_for, identity_of, is_public_path, OWNER_VERBS, REVIEW_VERBS};
use sc_server::routes::review::{
    api_request, api_verb, drafting_budget, verb_of, Unreadable, Verb,
};
use sc_server::routes::setup::{
    api_claim, api_setup_state, api_spend_code, ClaimAction, ClaimFacts, ClaimState, CodeAction,
    CodeFacts,
};
use sc_server::routes::signin::{
    api_sign_out, check_password_for_session, complete_sign_in, link_url, sign_out_step,
    try_send_link, AccountState, LinkAction, LinkError, LinkFacts, PasswordAction, PasswordFacts,
    SignOutAction, SignOutFacts, SpendAction, SpendFacts,
};
use sc_server::routes::step::Next;
use sc_server::routes::words::{
    api_set_language, api_ui_strings, asked_locale, choose_locale, set_language,
};
use sc_server::screen::build_prompt;
use sc_server::settings::Settings;
use sc_server::store::{now_ms, Store};

fn names(v: &[&str]) -> Vec<String> {
    v.iter().map(|s| s.to_string()).collect()
}

fn surface(repos: &[&str]) -> PublicConfig {
    PublicConfig {
        repos: Repos { names: names(repos) },
        site_name: "intake".to_string(),
        base_url: "https://specs.example.test".to_string(),
        secure_cookies: true,
        mail: true,
        screen: false,
        show_spec: true,
        max_daily_filings: 2,
        max_daily_drafts: 3,
        max_accounts: 2,
        max_outstanding_links: 2,
        github: None,
    }
}

fn words() -> Strings {
    Strings {
        signin_no_mail: "no mail".to_string(),
        signin_wrong: "wrong".to_string(),
        file_repo_unknown: "unknown".to_string(),
        error_empty: "empty".to_string(),
        confirm_title: "T".to_string(),
        confirm_intro: "I".to_string(),
        confirm_submit: "S".to_string(),
        confirm_not_you: "N".to_string(),
        link_already_used: "used ".to_string(),
        link_already_used_link: "go on".to_string(),
        link_expired: "expired".to_string(),
        link_failed_title: "F".to_string(),
        link_ask_again: "again".to_string(),
    }
}

fn nobody() -> Credentials {
    Credentials {
        bearer_hash: None,
        daemon_keys: Vec::new(),
        session: None,
        is_admin: Some(false),
        owner: Some(None),
    }
}

fn account(id: &str, login: Option<&str>) -> Option<SessionAccount> {
    Some(SessionAccount { id: id.to_string(), login: login.map(str::to_string) })
}

fn administrator() -> Credentials {
    Credentials { session: account("a-1", Some("Ada@x.com")), is_admin: Some(true), ..nobody() }
}

fn filer() -> Credentials {
    Credentials { session: account("a-2", None), ..nobody() }
}

fn ctx(credentials: Credentials, public: Option<PublicConfig>) -> Ctx {
    Ctx {
        store: Store::open("/data"),
        unreadable: Vec::new(),
        credentials,
        allowed: true,
        rechecking: false,
        now_ms: 5_000,
        public,
        strings: words(),
        minted: 7,
    }
}

fn replied(a: Answer) -> Res {
    match a {
        Answer::Reply(res) => res,
        _ => panic!("not a reply"),
    }
}

fn asked(a: Answer) -> Ask {
    match a {
        Answer::Ask(ask) => ask,
        Answer::Reply(res) => panic!("a reply: {} {}", res.status, res.body),
        Answer::Polled { .. } => panic!("a poll"),
    }
}

fn reply_of<A>(n: Next<A>) -> Res {
    match n {
        Next::Reply(res) => res,
        Next::Do(_) => panic!("there is something left to do"),
    }
}

fn step_of<A>(n: Next<A>) -> A {
    match n {
        Next::Do(a) => a,
        Next::Reply(res) => panic!("answered: {} {}", res.status, res.body),
    }
}

fn filed(id: &str, repo: &str, state: RequestState) -> Request {
    let mut r = Request::filed_at(id, "a thing", repo, IntakeKind::Bug, 1);
    r.state = state;
    r
}

// -- languages ------------------------------------------------------------------

#[test]
fn a_chosen_language_outranks_the_browser() {
    assert_eq!(negotiate(Some("fr"), Some("en")), Locale::Fr);
    assert_eq!(negotiate(Some("de"), Some("fr-CA;q=0.8, en")), Locale::Fr);
    assert_eq!(negotiate(None, Some("de, FR")), Locale::Fr);
    assert_eq!(negotiate(None, Some("de")), Locale::En);
    assert_eq!(negotiate(None, None), Locale::En);
    for l in [Locale::En, Locale::Fr] {
        assert_eq!(Locale::parse(l.code()), Some(l));
    }
    assert_eq!(Locale::parse("FR"), None);
}

#[test]
fn an_address_names_the_language_of_the_words() {
    let req = Req::get("/api/v1/ui/strings?x=1&lang=fr&lang=en");
    assert_eq!(asked_locale(&req), Locale::Fr);
    let unknown = Req::get("/api/v1/ui/strings?lang=de").with_lang(Some("fr"), None);
    assert_eq!(asked_locale(&unknown), Locale::Fr);
}

#[test]
fn words_are_sent_unless_the_client_holds_them() {
    let fresh = api_ui_strings("{}", "abc", Some("abc"));
    assert_eq!((fresh.status, fresh.body.as_str()), (200, "{}"));
    assert_eq!(fresh.etag.as_deref(), Some("\"abc\""));
    let held = api_ui_strings("{}", "abc", Some("\"abc\""));
    assert_eq!((held.status, held.body.as_str()), (304, ""));
    assert_eq!(held.etag.as_deref(), Some("\"abc\""));
}

#[test]
fn choosing_a_language_sets_its_cookie() {
    let p = surface(&["intake"]);
    let fields = Body::parse("{\"lang\":\"fr\"}").unwrap();
    assert_eq!(choose_locale(&fields), Locale::Fr);
    assert_eq!(choose_locale(&Body::empty()), Locale::En);
    let res = api_set_language(Some(&p), Locale::Fr, "{}", "d");
    assert_eq!(
        res.set_cookie.as_deref(),
        Some("sc_lang=fr; Path=/; SameSite=Lax; Secure; Max-Age=31536000")
    );
    assert_eq!(res.etag.as_deref(), Some("\"d\""));
    let form = set_language(Some(&p), "lang=fr");
    assert_eq!(form.asset, Some(Asset::Index));
    assert_eq!(form.policy, Policy::PublicScript);
    assert_eq!(form.set_cookie, Some(language_cookie(Some(&p), Locale::Fr)));
}

// -- who is calling -------------------------------------------------------------

#[test]
fn whoever_claimed_the_server_is_found_before_the_roster() {
    let p = surface(&["intake"]);
    let c = Credentials {
        owner: Some(Some(OwnerRecord {
            login: "ada@x.com".to_string(),
            repos: names(&["intake"]),
        })),
        ..administrator()
    };
    assert!(matches!(
        identify(&c, Some(&p)),
        Some(Caller::Admin { login }) if login == "ada@x.com"
    ));
}

#[test]
fn an_owner_is_given_what_the_surface_serves() {
    let p = surface(&["intake"]);
    let owner = |repos: &[&str]| Credentials {
        session: account("a-3", Some("o@x.com")),
        owner: Some(Some(OwnerRecord { login: "o@x.com".to_string(), repos: names(repos) })),
        ..nobody()
    };
    match identify(&owner(&["gone", "intake"]), Some(&p)) {
        Some(Caller::Owner { login, repos }) => {
            assert_eq!(login, "o@x.com");
            assert_eq!(repos, names(&["intake"]));
        }
        _ => panic!("an owner"),
    }
    assert!(matches!(identify(&owner(&["gone"]), Some(&p)), Some(Caller::Account { .. })));
    assert!(matches!(identify(&owner(&["intake"]), None), Some(Caller::Account { .. })));
    assert_eq!(keep_served(&names(&["b", "a", "b"]), &names(&["b"])), names(&["b", "b"]));
}

#[test]
fn a_claim_or_a_roster_that_cannot_be_read_identifies_nobody() {
    let p = surface(&["intake"]);
    let c = Credentials { session: account("a-1", Some("x@x.com")), is_admin: None, ..nobody() };
    assert!(identify(&c, Some(&p)).is_none());
    let c = Credentials { session: account("a-1", Some("x@x.com")), owner: None, ..nobody() };
    assert!(identify(&c, Some(&p)).is_none());
    assert!(identify(&c, None).is_some(), "the roster is not asked");
    let c = Credentials { is_admin: None, owner: None, ..filer() };
    assert!(matches!(identify(&c, Some(&p)), Some(Caller::Account { id }) if id == "a-2"));
}

#[test]
fn the_first_key_that_matches_names_the_daemon() {
    let key = |label: &str, hash: &str| DaemonKey {
        label: label.to_string(),
        key_hash: hash.to_string(),
    };
    let c = Credentials {
        bearer_hash: Some("h2".to_string()),
        daemon_keys: vec![key("one", "h1"), key("two", "h2"), key("three", "h2")],
        ..administrator()
    };
    assert!(matches!(identify(&c, None), Some(Caller::Daemon { label }) if label == "two"));
    let c = Credentials { bearer_hash: Some("h9".to_string()), ..c };
    assert!(matches!(identify(&c, None), Some(Caller::Admin { .. })));
}

// -- budgets --------------------------------------------------------------------

#[test]
fn guessing_a_password_is_counted_apart_from_reading() {
    assert_eq!(bucket_for(&None, "d", "/api/v1/ui/signin/password"), Bucket::AnonPrivate);
    assert_eq!(bucket_for(&None, "d", "/public/signin/password"), Bucket::AnonPrivate);
    assert_eq!(bucket_for(&None, "d", "/api/v1/ui/signin"), Bucket::PublicWrite);
    assert_eq!(bucket_for(&None, "d", "/api/v1/ui/me"), Bucket::PublicRead);
    assert_eq!(bucket_for(&None, "d", "/"), Bucket::PublicRead);
    assert_eq!(bucket_for(&None, "d", "/ui/body.woff2"), Bucket::AnonPrivate);
    let known = Some(Caller::Account { id: "a-2".to_string() });
    assert_eq!(
        bucket_for(&known, "d", "/api/v1/ui/signin/password"),
        Bucket::Credential("d".to_string()),
        "the digest alone decides, whatever is asked for"
    );
    assert_eq!(
        bucket_for(&known, "d", "/api/v1/ui/me"),
        bucket_for(&Some(Caller::Daemon { label: "m".to_string() }), "d", "/x")
    );
    assert_ne!(bucket_for(&known, "d", "/"), bucket_for(&known, "e", "/"));
    assert_eq!(identity_of(known.as_ref().unwrap()), "a-2");
}

#[test]
fn a_request_over_its_budget_is_refused_before_anything_is_read() {
    let mut c = ctx(administrator(), None);
    c.allowed = false;
    let req = Req::post_json("/api/v1/ui/file", "{\"text\":\"x\",\"repo\":\"r\"}");
    let res = replied(handle_at(&mut c, &req, 9));
    assert_eq!(res.status, 429);
    assert!(c.store.all().is_empty());
    assert_eq!(c.minted, 7);
    assert_eq!(counted(&c).as_deref(), Some("ada@x.com"));
    assert_eq!(budget(&c, "9f86", &req), Some(Bucket::Credential("9f86".to_string())));
    c.rechecking = true;
    assert_eq!(budget(&c, "9f86", &req), None, "looking again counts against nobody");
    assert_eq!(replied(handle_at(&mut c, &req, 9)).status, 200);
}

#[test]
fn a_public_path_is_no_prefix() {
    assert!(is_public_path("/public"));
    assert!(!is_public_path("/publicity"));
    assert!(is_public_path("/public/signin/x"));
}

// -- where a write comes from -----------------------------------------------------

#[test]
fn a_write_has_to_come_from_this_servers_own_page() {
    let p = surface(&["intake"]);
    let mut req = Req::post_json("/api/v1/ui/file", "{}");
    assert!(same_origin(Some(&p), &req, "file").is_ok(), "no page sent it");
    req.origin = Some("https://specs.example.test/".to_string());
    assert!(same_origin(Some(&p), &req, "file").is_ok());
    req.origin = Some("https://specs.example.test.evil".to_string());
    let refused = same_origin(Some(&p), &req, "file").err().unwrap();
    assert_eq!((refused.status, refused.body.as_str()), (403, "{\"error\":\"cross-origin\"}"));
    assert_eq!(same_origin(None, &req, "file").err().unwrap().status, 403);
    assert!(same_origin(None, &req, "setup/code").is_ok(), "nothing to compare with yet");
    req.content_type = Some("text/plain".to_string());
    assert_eq!(same_origin(Some(&p), &req, "file").err().unwrap().status, 415);
    req.content_type = Some(" application/json; charset=utf-8".to_string());
    req.origin = None;
    assert!(same_origin(Some(&p), &req, "file").is_ok());
}

// -- routing ----------------------------------------------------------------------

#[test]
fn the_administrators_filing_reads_back() {
    let mut c = ctx(administrator(), None);
    let req = Req::post_json(
        "/api/v1/ui/file",
        "{\"text\":\"  a thing \",\"repo\":\" r \",\"kind\":\"bug\"}",
    );
    let res = replied(handle_at(&mut c, &req, 1_700_000_000_123));
    assert_eq!(res.status, 200);
    assert_eq!(c.minted, 8);
    let all = c.store.all();
    assert_eq!(all.len(), 1);
    assert_eq!(all[0].id, "1700000000123-0007");
    assert_eq!(all[0].text, "a thing");
    assert_eq!(all[0].repo, "r");
    assert_eq!(all[0].kind, IntakeKind::Bug);
    assert_eq!(all[0].filed_ms, 1_700_000_000_123);
    assert_eq!(all[0].account_id, None);
    match res.payload {
        Some(Payload::Review { request, artifacts, coverage }) => {
            assert_eq!(request.id, all[0].id);
            assert!(artifacts);
            assert!(!coverage);
        }
        _ => panic!("what was filed"),
    }
}

#[test]
fn a_body_that_was_read_is_all_a_write_goes_by() {
    let mut c = ctx(administrator(), None);
    let sent = Body {
        fields: vec![
            ("text".to_string(), Field::Text("words".to_string())),
            ("repo".to_string(), Field::Text("r".to_string())),
            ("kind".to_string(), Field::Null),
        ],
    };
    let req = Req::post_json("/api/v1/ui/file", "ignored");
    let res = replied(handle_sent(&mut c, &req, Ok(sent), 3));
    assert_eq!(res.status, 200);
    assert_eq!(c.store.all()[0].text, "words");
    assert_eq!(c.store.all()[0].kind, IntakeKind::Feature);
    let refused = replied(handle_sent(
        &mut c,
        &Req::post_json("/api/v1/ui/settings", "{"),
        Err("nonsense".to_string()),
        3,
    ));
    assert_eq!(refused.status, 400);
    assert_eq!(refused.body, "{\"error\":\"that body is not JSON: nonsense\"}");
}

#[test]
fn what_the_administrator_may_not_file_is_said() {
    let mut c = ctx(administrator(), None);
    for (body, why) in [
        ("{}", "a request needs some text"),
        ("{\"text\":\"x\"}", "choose which repository this is about"),
        ("{\"text\":\"x\",\"repo\":\" \"}", "choose which repository this is about"),
    ] {
        let res = replied(handle_at(&mut c, &Req::post_json("/api/v1/ui/file", body), 1));
        assert_eq!((res.status, res.body), (400, format!("{{\"error\":\"{why}\"}}")));
    }
}

#[test]
fn each_address_asks_for_what_it_is_about() {
    let p = || Some(surface(&["intake"]));
    let ask = |c: Credentials, req: &Req| asked(handle_at(&mut ctx(c, p()), req, 1));
    let post = |rest: &str, body: &str| Req::post_json(&format!("/api/v1/ui/{rest}"), body);
    assert!(matches!(
        ask(nobody(), &post("setup/code", "{\"code\":\" A-1 \"}")),
        Ask::SpendCode { code } if code == "A-1"
    ));
    assert!(matches!(
        ask(nobody(), &post("setup/admin", "{\"login\":\" l \",\"password\":\" p \"}")),
        Ask::ClaimServer { login, password } if login == "l" && password == " p "
    ));
    assert!(matches!(
        ask(nobody(), &post("signin", "{\"email\":\"e\"}")),
        Ask::SendLink { email } if email == "e"
    ));
    assert!(matches!(
        ask(nobody(), &post("signin/password", "{\"login\":\"l\",\"password\":\"p\"}")),
        Ask::CheckPassword { login, password } if login == "l" && password == "p"
    ));
    assert!(matches!(
        ask(nobody(), &post("signout", "").with_cookie("t")),
        Ask::SignOut { token } if token == "t"
    ));
    assert!(matches!(
        ask(nobody(), &post("language", "{\"lang\":\"fr\"}")),
        Ask::Catalogue { locale: Locale::Fr, choose: true }
    ));
    assert!(matches!(
        ask(administrator(), &post("owners", "{\"login\":\"o\",\"repos\":[\" intake \",\"gone\",3]}")),
        Ask::AddOwner { login, repos } if login == "o" && repos == names(&["intake"])
    ));
    assert!(matches!(
        ask(administrator(), &post("repos", "{\"name\":\"n\",\"anyway\":true}")),
        Ask::EnableRepo { name, anyway: true } if name == "n"
    ));
    assert!(matches!(
        ask(administrator(), &post("daemons", "{\"label\":\"m-1\"}")),
        Ask::MintDaemon { label } if label == "m-1"
    ));
    assert!(matches!(
        ask(administrator(), &post("accounts/a-9/revoke", "")),
        Ask::Revoke { list: Some(AdminList::Accounts), id } if id == "a-9"
    ));
    assert!(matches!(
        ask(administrator(), &Req::get("/api/v1/ui/owners")),
        Ask::List(AdminList::Owners)
    ));
    assert!(matches!(
        ask(nobody(), &Req::post("/public/signin/tok", "")),
        Ask::SpendLink { token, policy: Policy::PublicScript } if token == "tok"
    ));
}

#[test]
fn what_administers_the_server_does_not_exist_for_anybody_else() {
    for rest in ["settings", "owners", "repos", "daemons", "owners/x/revoke"] {
        for who in [nobody(), filer()] {
            let mut c = ctx(who, Some(surface(&["intake"])));
            let res =
                replied(handle_at(&mut c, &Req::post_json(&format!("/api/v1/ui/{rest}"), "{}"), 1));
            assert_eq!((res.status, res.body.as_str()), (404, "{\"error\":\"no such endpoint\"}"));
        }
    }
    let mut c = ctx(administrator(), None);
    let res = replied(handle_at(&mut c, &Req::post_json("/api/v1/ui/owners/x/promote", ""), 1));
    assert_eq!((res.status, res.body.as_str()), (404, "{\"error\":\"no such verb\"}"));
}

#[test]
fn signing_in_needs_both_words_and_a_mailer() {
    let mut c = ctx(nobody(), Some(surface(&["intake"])));
    for body in ["{}", "{\"login\":\"l\"}", "{\"login\":\" \",\"password\":\"p\"}", "nonsense"] {
        let req = Req::post_json("/api/v1/ui/signin/password", body);
        let res = replied(handle_at(&mut c, &req, 1));
        assert_eq!((res.status, res.body.as_str()), (401, "{\"error\":\"wrong\"}"));
    }
    let req = Req::post_json("/api/v1/ui/signin", "{\"email\":\"e@x.com\"}");
    let mut c = ctx(nobody(), None);
    let res = replied(handle_at(&mut c, &req, 1));
    assert_eq!((res.status, res.body.as_str()), (503, "{\"error\":\"no mail\"}"));
}

#[test]
fn reading_a_link_does_not_spend_it() {
    let mut c = ctx(nobody(), None);
    let res = replied(handle_at(&mut c, &Req::get("/public/signin/tok"), 1));
    assert_eq!(res.status, 200);
    assert_eq!(res.policy, Policy::PublicScript);
    assert!(res.body.contains("action=\"/public/signin/tok\""));
}

#[test]
fn without_a_surface_a_public_address_does_not_exist() {
    let mut c = ctx(nobody(), None);
    let res = replied(handle_at(&mut c, &Req::post("/public/language", "lang=fr"), 1));
    assert_eq!((res.status, res.asset, res.policy), (404, Some(Asset::NotFound), Policy::Strict));
    let res = replied(handle_at(&mut c, &Req::get("/nowhere"), 1));
    assert_eq!((res.status, res.asset), (404, Some(Asset::NotFound)));
    let res = replied(handle_at(&mut c, &Req::post("/nowhere", ""), 1));
    assert_eq!((res.status, res.body.as_str()), (401, "{\"error\":\"unauthorized\"}"));
    let res = replied(handle_at(&mut c, &Req::get("/api/v1/work"), 1));
    assert_eq!(res.status, 401);
}

#[test]
fn the_interface_answers_in_json_and_at_once() {
    for req in [
        Req::get("/api/v1/ui/me"),
        Req::get("/api/v1/ui/requests"),
        Req::get("/api/v1/ui/nowhere"),
        Req::post("/api/v1/ui/file", "text=x"),
        Req::post_json("/api/v1/ui/owners", "{}"),
    ] {
        let res = replied(handle_at(&mut ctx(nobody(), Some(surface(&["intake"]))), &req, 1));
        assert_eq!(res.content_type, "application/json", "{}", req.path);
        assert_eq!(res.policy, Policy::Strict, "{}", req.path);
        assert!(!res.hold_for_work && res.etag.is_none(), "{}", req.path);
    }
}

#[test]
fn a_mailed_link_spends_its_token() {
    let p = surface(&["intake"]);
    let url = link_url(&p, "tok-1");
    let path = url.strip_prefix("https://specs.example.test").unwrap();
    let mut c = ctx(nobody(), Some(p));
    let page = replied(handle_at(&mut c, &Req::get(path), 1));
    assert!(page.body.contains(&format!("action=\"{path}\"")));
    let ask = asked(handle_at(&mut c, &Req::post(path, ""), 1));
    assert!(matches!(ask, Ask::SpendLink { token, .. } if token == "tok-1"));
}

// -- cookies and pages --------------------------------------------------------------

#[test]
fn each_cookie_is_spelled_out() {
    let p = surface(&["intake"]);
    let mut plain = surface(&["intake"]);
    plain.secure_cookies = false;
    plain.base_url = "http://localhost:8420".to_string();
    assert_eq!(
        session_cookie(Some(&p), "s"),
        "sc_device=s; Path=/; HttpOnly; SameSite=Strict; Secure; Max-Age=31536000"
    );
    assert_eq!(
        session_cookie(Some(&plain), "s"),
        "sc_device=s; Path=/; HttpOnly; SameSite=Strict; Max-Age=31536000"
    );
    assert_eq!(claim_cookie(Some(&plain), "s"), session_cookie(Some(&plain), "s"));
    assert_eq!(
        ended_cookie(None),
        "sc_device=; Path=/; HttpOnly; SameSite=Strict; Secure; Max-Age=0"
    );
    assert_eq!(
        setup_cookie(Some(&p), "t", 900),
        "sc_setup=t; Path=/; HttpOnly; SameSite=Lax; Secure; Max-Age=900"
    );
}

#[test]
fn escaped_text_holds_no_markup() {
    assert_eq!(esc("<a href=\"x\">&'é"), "&lt;a href=&quot;x&quot;&gt;&amp;&#39;é");
    let page = signin_confirm_page("\"><script>", Locale::Fr, &words());
    assert!(!page.contains("<script>"));
    assert!(page.contains("<html lang=\"fr\""));
}

#[test]
fn a_failed_link_says_whether_it_was_used() {
    let used = signin_failed_page(true, Locale::En, &words());
    assert!(used.contains("<p>used <a href=\"/public\">go on</a>.</p>"), "{used}");
    let expired = signin_failed_page(false, Locale::En, &words());
    assert!(expired.contains("<p>expired</p>"), "{expired}");
    assert!(expired.contains("<a href=\"/public/signin\">again</a>"), "{expired}");
}

// -- forms ----------------------------------------------------------------------------

#[test]
fn what_spells_no_text_is_replaced() {
    assert_eq!(percent_decode("%ff"), "\u{fffd}");
    assert_eq!(percent_decode("%C3%A9+%2B"), "é +");
    assert_eq!(percent_decode("%c3%a9+%2b"), "é +");
    assert_eq!(percent_decode("%c3%A9%2F%2f"), "é//", "the case of a digit is no matter");
    assert_eq!(percent_decode("%4"), "%4");
    assert_eq!(percent_decode("%zz"), "%zz");
    let fields = form_fields("a=1&b&&a=2&%63=x%3Dy");
    assert_eq!(fields.get("a").map(String::as_str), Some("2"));
    assert_eq!(fields.get("b").map(String::as_str), Some(""));
    assert_eq!(fields.get("c").map(String::as_str), Some("x=y"));
    assert!(fields.get("d").is_none());
}

#[test]
fn a_poll_declares_what_it_serves() {
    assert_eq!(poll_query("/api/v1/work"), names(&[]));
    assert_eq!(poll_query("/api/v1/work?repo=a&repo=b"), names(&["a", "b"]));
}

#[test]
fn a_body_is_read_field_by_field() {
    let b = Body::parse(
        "{\"t\":\"x\",\"f\":true,\"n\":3,\"m\":-1,\"l\":[\" a \",1],\"o\":{},\"z\":null}",
    )
    .unwrap();
    assert_eq!(b.text("t"), Some("x"));
    assert_eq!(b.flag("f"), Some(true));
    assert_eq!(b.number("n"), Some(3));
    assert_eq!(b.number("m"), None);
    assert!(b.has("m"));
    assert_eq!(b.trimmed_texts("l"), names(&["a"]));
    assert!(b.has("o") && b.has("z") && !b.has("y"));
    assert_eq!(b.text("f"), None);
    assert!(!Body::parse("[1]").unwrap().has("t"), "a list has no fields");
    assert!(Body::parse("{").is_err());
    assert_eq!(error(400, "a \"b\"").body, "{\"error\":\"a \\\"b\\\"\"}");
    assert_eq!(
        error(400, "\u{8}\u{c}\n\r\t\u{1}\u{1f}\\/\u{7f}é").body,
        "{\"error\":\"\\b\\f\\n\\r\\t\\u0001\\u001f\\\\/\u{7f}é\"}"
    );
}

// -- filing ---------------------------------------------------------------------------

#[test]
fn each_refused_filing_has_its_status_and_its_words() {
    let s = words();
    for (e, status, says) in [
        (FilingRefused::NoSurface, 404, "no such page"),
        (FilingRefused::Repo, 400, "unknown"),
        (FilingRefused::Empty, 400, "empty"),
        (FilingRefused::Text("long".to_string()), 400, "long"),
        (FilingRefused::Store("disk".to_string()), 500, "disk"),
    ] {
        assert_eq!(e.status(), status);
        assert_eq!(e.message(&s), says);
    }
    let e = FilingRefused::TooMany(3);
    assert_eq!(e.status(), 429);
    assert!(e.message(&s).starts_with("That is 3 requests in a day, which is the limit."));
}

#[test]
fn a_name_selects_a_repository_and_never_introduces_one() {
    let one = surface(&["intake"]);
    let two = surface(&["a", "b"]);
    assert_eq!(choose_repo(&one, None).as_deref(), Some("intake"));
    assert_eq!(choose_repo(&one, Some(" ")).as_deref(), Some("intake"));
    assert_eq!(choose_repo(&two, Some(" b ")).as_deref(), Some("b"));
    assert_eq!(choose_repo(&two, None), None);
    assert_eq!(choose_repo(&two, Some("c")), None);
    assert_eq!(choose_repo(&surface(&[]), None), None);
}

#[test]
fn a_filing_is_counted_and_screened() {
    let mut p = surface(&["intake"]);
    p.screen = true;
    let mut store = Store::open("/data");
    let mut file = |store: &mut Store, id: &str| {
        file_now(store, Some(&p), "a-2", None, " x ", IntakeKind::Bug, 9, id)
    };
    let q = file(&mut store, "r-1").ok().unwrap();
    assert_eq!(q.state, RequestState::Screening);
    assert_eq!((q.text.as_str(), q.repo.as_str(), q.filed_ms), ("x", "intake", 9));
    assert_eq!(q.account_id.as_deref(), Some("a-2"));
    assert!(store.get("r-1").is_some());
    assert!(file(&mut store, "r-2").is_ok());
    assert!(matches!(file(&mut store, "r-3"), Err(FilingRefused::TooMany(2))));
    assert_eq!(store.all().len(), 2);
    assert!(matches!(
        file_now(&mut store, None, "a-2", None, "x", IntakeKind::Bug, 9, "r-4"),
        Err(FilingRefused::NoSurface)
    ));
}

#[test]
fn both_lengths_are_said_exactly() {
    assert!(check_length(&"w ".repeat(500)).is_ok());
    assert_eq!(
        check_length(&"w ".repeat(501)).unwrap_err(),
        "That is 501 words; the limit is 500. Say the essential part — a spec is drafted from \
         your request, not copied from it."
    );
    assert_eq!(
        check_length(&"x".repeat(MAX_BYTES + 1)).unwrap_err(),
        "That is 8193 characters, which is over the 8192 limit even though it is under 500 words."
    );
}

#[test]
fn a_screener_is_sent_the_whole_of_a_filing() {
    let text = "é".repeat(MAX_BYTES / 2);
    assert!(check_length(&text).is_ok());
    let (_, prompt) = build_prompt(&text, "n");
    assert!(prompt.contains(&format!(">>>\n{text}\n<<<")));
}

// -- reviewing --------------------------------------------------------------------------

#[test]
fn forbidden_and_absent_are_one_answer() {
    let mut store = Store::open("/data");
    store.put(&filed("r-1", "theirs", RequestState::Queued));
    let owner = Some(Caller::Owner { login: "o".to_string(), repos: names(&["mine"]) });
    let theirs = api_request(&store, None, None, &owner, Locale::En, "r-1");
    let absent = api_request(&store, None, None, &owner, Locale::En, "r-2");
    assert_eq!((theirs.status, theirs.body), (absent.status, absent.body));
}

#[test]
fn a_record_that_cannot_be_read_is_not_passed_off_as_absent() {
    let lost = || {
        vec![Unreadable {
            id: "r-1".to_string(),
            why: "request r-1 is unreadable: eof".to_string(),
        }]
    };
    let said = "{\"error\":\"request r-1 is unreadable: eof\"}";
    let go = |credentials: Credentials, req: &Req| {
        let mut c = ctx(credentials, Some(surface(&["mine"])));
        c.unreadable = lost();
        let res = replied(handle_at(&mut c, req, 9));
        assert!(c.store.all().is_empty());
        (res.status, res.body)
    };
    let read = Req::get("/api/v1/ui/requests/r-1");
    for who in [administrator(), filer(), nobody()] {
        assert_eq!(go(who, &read), (500, said.to_string()));
    }
    assert_eq!(go(administrator(), &Req::get("/api/v1/ui/requests/r-2")).0, 404);

    let mut store = Store::open("/data");
    let why = Some("request r-1 is unreadable: eof");
    let owner = Some(Caller::Owner { login: "o".to_string(), repos: names(&["mine"]) });
    let admin = Some(Caller::Admin { login: "a".to_string() });
    let mut act = |who: &Option<Caller>, verb: &str, body: &str| {
        let sent = Body::unless_blank(body, Body::parse(body));
        let res = api_verb(&mut store, why, None, who, Locale::En, "r-1", verb, sent, 5);
        (res.status, res.body)
    };
    assert_eq!(act(&admin, "release", ""), (400, said.to_string()));
    assert_eq!(act(&admin, "accept", "{\"digest\":\"d\"}"), (400, said.to_string()));
    assert_eq!(act(&admin, "praise", "").0, 404);
    assert_eq!(act(&owner, "release", ""), (500, said.to_string()));
    assert_eq!(act(&None, "release", "").0, 404);
    let received = Received::Read(Report::Failed { reason: "x".to_string() });
    let res = take_report(&mut store, why, "r-1", "m", received, 5);
    assert_eq!((res.status, res.body), (404, said.to_string()));
}

#[test]
fn no_owner_approves_and_an_approval_names_its_text() {
    let mut store = Store::open("/data");
    let mut r = filed("r-1", "mine", RequestState::AwaitingReview);
    r.spec = Some(Draft { text: "# S".to_string(), digest: "d".to_string() });
    store.put(&r);
    let owner = Some(Caller::Owner { login: "o".to_string(), repos: names(&["mine"]) });
    let admin = Some(Caller::Admin { login: "a".to_string() });
    let mut act = |who: &Option<Caller>, verb: &str, body: &str| {
        let sent = Body::unless_blank(body, Body::parse(body));
        let res = api_verb(&mut store, None, None, who, Locale::En, "r-1", verb, sent, 5);
        (res.status, res.body)
    };
    assert_eq!(act(&owner, "accept", "{\"digest\":\"d\"}").0, 404);
    assert_eq!(act(&admin, "accept", "").0, 400);
    assert_eq!(act(&admin, "accept", "{\"digest\":\"e\"}").0, 400);
    assert_eq!(act(&admin, "praise", "").0, 404);
    assert_eq!(act(&None, "discard", "").0, 404);
    assert_eq!(act(&admin, "accept", "{\"digest\":\"d\"}").0, 200);
    assert_eq!(act(&owner, "discard", "").0, 400, "it is settled");
    assert_eq!(store.all()[0].state, RequestState::Accepted);
    assert_eq!(verb_of("send-back"), Some(Verb::SendBack));
    assert_eq!(verb_of("Accept"), None);
}

#[test]
fn the_verbs_are_those_that_are_listed() {
    for name in REVIEW_VERBS {
        let verb = verb_of(name).unwrap();
        assert_eq!(OWNER_VERBS.contains(&name), verb != Verb::Accept);
    }
    assert!(OWNER_VERBS.iter().all(|name| verb_of(name).is_some()));
}

#[test]
fn the_drafting_budget_is_counted_by_repository() {
    let p = surface(&["intake"]);
    let mut store = Store::open("/data");
    let mut r = filed("r-1", "intake", RequestState::Queued);
    r.drafts = vec![1, 2, 3];
    store.put(&r);
    let refused = drafting_budget(&store, Some(&p), "intake", 10).err().unwrap();
    assert_eq!(refused.status, 429);
    assert!(refused.body.contains("intake has been drafted 3 times today, which is the limit."));
    assert!(drafting_budget(&store, Some(&p), "other", 10).is_ok());
    assert!(drafting_budget(&store, None, "intake", 10).is_ok());
    let day: u64 = 24 * 60 * 60 * 1000;
    assert!(drafting_budget(&store, Some(&p), "intake", day + 10).is_ok(), "the window rolls");
}

#[test]
fn a_list_puts_what_needs_a_human_first_and_the_newest_of_those() {
    let mut rows = vec![
        filed("r-1", "a", RequestState::Discarded),
        filed("r-2", "a", RequestState::AwaitingReview),
        filed("r-3", "a", RequestState::Queued),
        filed("r-4", "a", RequestState::AwaitingReview),
        filed("r-5", "a", RequestState::Queued),
    ];
    rows[3].filed_ms = 9;
    let ids: Vec<String> = listing_order(rows).into_iter().map(|r| r.id).collect();
    assert_eq!(ids, names(&["r-4", "r-2", "r-3", "r-5", "r-1"]));
}

// -- daemons ------------------------------------------------------------------------------

#[test]
fn a_daemons_address_is_read_exactly() {
    assert!(matches!(daemon_route("GET", "/api/v1/work"), DaemonCall::Poll));
    assert!(matches!(
        daemon_route("POST", "/api/v1/work/r-1/drafted"),
        DaemonCall::Report { id: "r-1", kind: ReportKind::Drafted }
    ));
    for (method, path) in [
        ("GET", "/api/v1/work/r-1/drafted"),
        ("POST", "/api/v1/work"),
        ("POST", "/api/v1/work//drafted"),
        ("POST", "/api/v1/work/r-1"),
        ("POST", "/api/v1/work/r-1/drafted/x"),
        ("POST", "/api/v1/workers/r-1/drafted"),
    ] {
        assert!(matches!(daemon_route(method, path), DaemonCall::Nowhere), "{method} {path}");
    }
}

#[test]
fn a_poll_waits_only_for_want_of_work() {
    let mut store = Store::open("/data");
    store.put(&filed("r-1", "a", RequestState::Queued));
    let idle = poll(&mut store, &names(&["b"]), "m", 5);
    assert!(idle.hold_for_work);
    assert!(matches!(idle.payload, Some(Payload::Idle)));
    let work = poll(&mut store, &names(&["a"]), "m", 5);
    assert!(!work.hold_for_work);
    assert!(matches!(work.payload, Some(Payload::Work { item }) if item.id == "r-1"));
    assert_eq!(store.all()[0].claimed_by.as_deref(), Some("m"));
    assert_eq!(store.all()[0].drafts, vec![5]);
}

#[test]
fn a_refused_report_changes_nothing() {
    let mut store = Store::open("/data");
    store.put(&filed("r-1", "a", RequestState::Queued));
    let mut tell = |received: Received| {
        let res = take_report(&mut store, None, "r-1", "m", received, 5);
        (res.status, res.body, store.all()[0].state)
    };
    let queued = RequestState::Queued;
    assert_eq!(
        tell(Received::Unreadable("eof".to_string())),
        (400, "{\"error\":\"unreadable payload: eof\"}".to_string(), queued)
    );
    assert_eq!(
        tell(Received::Foreign("older".to_string())),
        (400, "{\"error\":\"older\"}".to_string(), queued)
    );
    let (status, _, state) = tell(Received::Read(Report::Failed { reason: "x".to_string() }));
    assert_eq!((status, state), (404, queued), "it was not claimed");
}

#[test]
fn an_absent_request_is_named_in_quotes() {
    let mut store = Store::open("/data");
    let received = Received::Read(Report::Released { reason: "x".to_string() });
    let res = take_report(&mut store, None, "r\"9", "m", received, 5);
    assert_eq!(res.status, 404);
    assert_eq!(res.body, "{\"error\":\"no request \\\"r\\\\\\\"9\\\"\"}");
}

// -- setting up ---------------------------------------------------------------------------

fn code_facts() -> CodeFacts {
    CodeFacts { claimed: None, token: None, written: None }
}

#[test]
fn a_code_is_spent_and_written_before_it_buys_anything() {
    let p = surface(&["intake"]);
    let mut f = code_facts();
    assert_eq!(step_of(api_spend_code(&f, Some(&p), 900)), CodeAction::ReadClaim);
    f.claimed = Some(Err("disk".to_string()));
    assert_eq!(reply_of(api_spend_code(&f, Some(&p), 900)).status, 500);
    f.claimed = Some(Ok(true));
    assert_eq!(reply_of(api_spend_code(&f, Some(&p), 900)).status, 404);
    f.claimed = Some(Ok(false));
    assert_eq!(step_of(api_spend_code(&f, Some(&p), 900)), CodeAction::Spend);
    f.token = Some(None);
    let refused = reply_of(api_spend_code(&f, Some(&p), 900));
    assert_eq!(refused.body, "{\"error\":\"that code was not accepted\"}");
    f.token = Some(Some("t".to_string()));
    assert_eq!(step_of(api_spend_code(&f, Some(&p), 900)), CodeAction::WriteClaim);
    f.written = Some(Err("disk".to_string()));
    assert_eq!(reply_of(api_spend_code(&f, Some(&p), 900)).status, 500);
    f.written = Some(Ok(()));
    let res = reply_of(api_spend_code(&f, Some(&p), 900));
    assert_eq!((res.status, res.body.as_str()), (200, "{\"step\":\"admin\"}"));
    assert_eq!(res.set_cookie, Some(setup_cookie(Some(&p), "t", 900)));
}

#[test]
fn a_claim_goes_step_by_step_and_is_written_last_but_one() {
    let state = |claimed, setting_up| Some(Ok(ClaimState { claimed, setting_up }));
    let mut f = ClaimFacts {
        state: None,
        valid: None,
        accounts: None,
        session: None,
        accounts_written: None,
        claim_written: None,
        settings: None,
        settings_written: None,
    };
    let no = || Err("disk".to_string());
    assert_eq!(step_of(api_claim(&f, None)), ClaimAction::ReadClaim);
    f.state = Some(Err("disk".to_string()));
    assert_eq!(reply_of(api_claim(&f, None)).status, 500);
    f.state = state(true, true);
    assert_eq!(reply_of(api_claim(&f, None)).status, 404);
    f.state = state(false, false);
    assert!(reply_of(api_claim(&f, None)).body.contains("start again from the claim code"));
    f.state = state(false, true);
    assert_eq!(step_of(api_claim(&f, None)), ClaimAction::CheckLogin);
    f.valid = Some(false);
    let res = reply_of(api_claim(&f, None));
    assert_eq!(res.body, "{\"error\":\"that is not an email address\"}");
    f.valid = Some(true);
    assert_eq!(step_of(api_claim(&f, None)), ClaimAction::ReadAccounts);
    f.accounts = Some(no());
    assert_eq!(reply_of(api_claim(&f, None)).status, 500);
    f.accounts = Some(Ok(()));
    assert_eq!(step_of(api_claim(&f, None)), ClaimAction::CreateLogin);
    f.session = Some(Err("too short".to_string()));
    let res = reply_of(api_claim(&f, None));
    assert_eq!((res.status, res.body.as_str()), (400, "{\"error\":\"too short\"}"));
    f.session = Some(Ok("s".to_string()));
    assert_eq!(step_of(api_claim(&f, None)), ClaimAction::WriteAccounts);
    f.accounts_written = Some(no());
    assert_eq!(reply_of(api_claim(&f, None)).status, 500);
    f.accounts_written = Some(Ok(()));
    assert_eq!(step_of(api_claim(&f, None)), ClaimAction::WriteClaim);
    f.claim_written = Some(no());
    assert_eq!(reply_of(api_claim(&f, None)).status, 500);
    f.claim_written = Some(Ok(()));
    assert_eq!(step_of(api_claim(&f, None)), ClaimAction::ReadSettings);
    f.settings = Some(Err("disk".to_string()));
    assert_eq!(reply_of(api_claim(&f, None)).status, 500);
    let found = Settings { public: true, max_accounts: Some(4), ..Settings::default() };
    f.settings = Some(Ok(found));
    assert_eq!(
        step_of(api_claim(&f, None)),
        ClaimAction::WriteSettings { settings: Settings { seeded: true, ..found } }
    );
    f.settings_written = Some(no());
    assert_eq!(reply_of(api_claim(&f, None)).status, 500);
    f.settings_written = Some(Ok(()));
    let res = reply_of(api_claim(&f, None));
    assert_eq!((res.status, res.body.as_str()), (200, "{\"claimed\":true}"));
    assert_eq!(res.set_cookie, Some(claim_cookie(None, "s")));
}

#[test]
fn where_the_setup_stands_is_said_outright() {
    let p = surface(&["intake"]);
    let state = |setting_up| Ok(ClaimState { claimed: false, setting_up });
    assert_eq!(
        api_setup_state(state(false), Some(&p), 12).body,
        "{\"base_url\":\"https://specs.example.test\",\"min_password\":12,\"step\":\"code\"}"
    );
    assert!(api_setup_state(state(true), None, 12).body.ends_with("\"step\":\"admin\"}"));
    assert_eq!(api_setup_state(Err("disk".to_string()), None, 12).status, 500);
    let claimed = Ok(ClaimState { claimed: true, setting_up: true });
    assert_eq!(api_setup_state(claimed, None, 12).status, 404);
}

// -- signing in ---------------------------------------------------------------------------

#[test]
fn asking_for_a_link_is_answered_alike_whatever_came_of_it() {
    let p = surface(&["intake"]);
    let facts = || LinkFacts {
        valid: None,
        revoked: None,
        outstanding: None,
        issued: None,
        written: None,
        mailed: None,
    };
    let sent = |f: &LinkFacts, p: Option<&PublicConfig>| {
        let res = reply_of(try_send_link(f, p));
        assert_eq!((res.status, res.body.as_str()), (200, "{\"sent\":true}"));
    };
    let mut f = facts();
    sent(&f, None);
    assert_eq!(step_of(try_send_link(&f, Some(&p))), LinkAction::CheckAddress);
    f.valid = Some(false);
    sent(&f, Some(&p));
    f.valid = Some(true);
    assert_eq!(step_of(try_send_link(&f, Some(&p))), LinkAction::FindAccount);
    f.revoked = Some(Ok(true));
    sent(&f, Some(&p));
    f.revoked = Some(Err("disk".to_string()));
    sent(&f, Some(&p));
    f.revoked = Some(Ok(false));
    assert_eq!(step_of(try_send_link(&f, Some(&p))), LinkAction::CountLinks);
    f.outstanding = Some(Ok(2));
    sent(&f, Some(&p));
    f.outstanding = Some(Ok(1));
    assert_eq!(step_of(try_send_link(&f, Some(&p))), LinkAction::Issue);
    f.issued = Some(());
    assert_eq!(step_of(try_send_link(&f, Some(&p))), LinkAction::WriteLinks);
    f.written = Some(Err("disk".to_string()));
    sent(&f, Some(&p));
    f.written = Some(Ok(()));
    assert_eq!(step_of(try_send_link(&f, Some(&p))), LinkAction::Mail);
    f.mailed = Some(false);
    sent(&f, Some(&p));
    assert_eq!(link_url(&p, "tok"), "https://specs.example.test/public/signin/tok");
}

#[test]
fn a_link_is_spent_before_a_session_is_opened() {
    let p = surface(&["intake"]);
    let w = words();
    let mut f = SpendFacts {
        links: None,
        spent: None,
        links_written: None,
        account: None,
        session: None,
        accounts_written: None,
    };
    let next = |f: &SpendFacts| complete_sign_in(f, Some(&p), Locale::En, &w, Policy::Strict);
    assert_eq!(step_of(next(&f)), SpendAction::ReadLinks);
    f.links = Some(Err("disk".to_string()));
    let res = reply_of(next(&f));
    assert_eq!((res.status, res.policy), (500, Policy::Strict));
    f.links = Some(Ok(()));
    assert_eq!(step_of(next(&f)), SpendAction::Spend);
    for (e, used) in [(LinkError::AlreadyUsed, true), (LinkError::Invalid, false)] {
        f.spent = Some(Err(e));
        let res = reply_of(next(&f));
        assert_eq!(res.status, 200);
        assert_eq!(res.body, signin_failed_page(used, Locale::En, &w));
    }
    f.spent = Some(Ok(()));
    assert_eq!(step_of(next(&f)), SpendAction::WriteLinks);
    f.links_written = Some(Ok(()));
    assert_eq!(step_of(next(&f)), SpendAction::FindAccount);
    let state = |revoked, exists, accounts| Some(Ok(AccountState { revoked, exists, accounts }));
    f.account = state(true, true, 1);
    assert_eq!(reply_of(next(&f)).body, signin_failed_page(false, Locale::En, &w));
    f.account = state(false, false, 2);
    assert_eq!(
        reply_of(next(&f)).body,
        signin_failed_page(false, Locale::En, &w),
        "there is no room"
    );
    f.account = state(false, true, 2);
    assert_eq!(step_of(next(&f)), SpendAction::OpenSession { create: false });
    f.account = state(false, false, 1);
    assert_eq!(step_of(next(&f)), SpendAction::OpenSession { create: true });
    f.session = Some("s".to_string());
    assert_eq!(step_of(next(&f)), SpendAction::WriteAccounts);
    f.accounts_written = Some(Err("disk".to_string()));
    assert_eq!(reply_of(next(&f)).status, 500);
    f.accounts_written = Some(Ok(()));
    let res = reply_of(next(&f));
    assert_eq!((res.status, res.asset, res.policy), (200, Some(Asset::Index), Policy::Strict));
    assert_eq!(res.set_cookie, Some(session_cookie(Some(&p), "s")));
}

/// One attempt to sign in on a volume that answers like this.
fn attempt(volume: &SpendFacts) -> (Vec<SpendAction>, Res) {
    let p = surface(&["intake"]);
    let w = words();
    let mut f = SpendFacts {
        links: None,
        spent: None,
        links_written: None,
        account: None,
        session: None,
        accounts_written: None,
    };
    let mut done = Vec::new();
    loop {
        match complete_sign_in(&f, Some(&p), Locale::En, &w, Policy::Strict) {
            Next::Reply(res) => return (done, res),
            Next::Do(a) => {
                done.push(a);
                match a {
                    SpendAction::ReadLinks => f.links = volume.links.clone(),
                    SpendAction::Spend => f.spent = volume.spent,
                    SpendAction::WriteLinks => f.links_written = volume.links_written.clone(),
                    SpendAction::FindAccount => f.account = volume.account.clone(),
                    SpendAction::OpenSession { .. } => f.session = volume.session.clone(),
                    SpendAction::WriteAccounts => {
                        f.accounts_written = volume.accounts_written.clone()
                    }
                }
            }
        }
    }
}

#[test]
fn a_link_signs_in_once_and_then_writes_nothing() {
    let mut volume = SpendFacts {
        links: Some(Ok(())),
        spent: Some(Ok(())),
        links_written: Some(Ok(())),
        account: Some(Ok(AccountState { revoked: false, exists: false, accounts: 0 })),
        session: Some("s".to_string()),
        accounts_written: Some(Ok(())),
    };
    let (done, res) = attempt(&volume);
    assert!(res.set_cookie.is_some());
    assert_eq!(
        done,
        vec![
            SpendAction::ReadLinks,
            SpendAction::Spend,
            SpendAction::WriteLinks,
            SpendAction::FindAccount,
            SpendAction::OpenSession { create: true },
            SpendAction::WriteAccounts,
        ]
    );
    volume.spent = Some(Err(LinkError::AlreadyUsed));
    let (done, res) = attempt(&volume);
    assert_eq!((res.status, res.set_cookie), (200, None));
    assert_eq!(done, vec![SpendAction::ReadLinks, SpendAction::Spend]);
}

#[test]
fn a_link_that_is_refused_opens_nothing_whatever_else_came_back() {
    let p = surface(&["intake"]);
    let w = words();
    let mut f = SpendFacts {
        links: Some(Ok(())),
        spent: Some(Ok(())),
        links_written: Some(Ok(())),
        account: Some(Ok(AccountState { revoked: false, exists: true, accounts: 1 })),
        session: Some("s".to_string()),
        accounts_written: Some(Ok(())),
    };
    let next = |f: &SpendFacts| complete_sign_in(f, Some(&p), Locale::En, &w, Policy::Strict);
    assert!(reply_of(next(&f)).set_cookie.is_some());
    f.spent = Some(Err(LinkError::AlreadyUsed));
    let res = reply_of(next(&f));
    assert_eq!((res.status, res.set_cookie), (200, None));
    f.spent = None;
    assert_eq!(step_of(next(&f)), SpendAction::Spend);
}

#[test]
fn signing_out_writes_only_where_a_session_ended() {
    let p = surface(&["intake"]);
    let next = |accounts, ended, written| {
        sign_out_step(&SignOutFacts { accounts, ended, written }, Some(&p))
    };
    assert_eq!(step_of(next(None, None, None)), SignOutAction::ReadAccounts);
    assert_eq!(step_of(next(Some(true), None, None)), SignOutAction::EndSession);
    assert_eq!(step_of(next(Some(true), Some(true), None)), SignOutAction::WriteAccounts);
    for done in [
        next(Some(false), None, None),
        next(Some(true), Some(false), None),
        next(Some(true), Some(true), Some(true)),
        next(Some(true), Some(true), Some(false)),
    ] {
        let res = reply_of(done);
        assert_eq!((res.status, res.body.as_str()), (200, "{\"signed_out\":true}"));
        assert_eq!(res.set_cookie, api_sign_out(Some(&p)).set_cookie);
        assert!(res.set_cookie.unwrap().ends_with("Max-Age=0"));
    }
}

#[test]
fn a_password_is_judged_only_once_the_attempt_is_written() {
    let p = surface(&["intake"]);
    let w = words();
    let mut f = PasswordFacts {
        accounts: None,
        accepted: None,
        attempt_written: None,
        refreshed: None,
        opened: None,
        session_written: None,
    };
    let next =
        |f: &PasswordFacts, cookie| check_password_for_session(f, cookie, Some(&p), &w);
    let wrong = |f: &PasswordFacts| {
        let res = reply_of(next(f, None));
        assert_eq!((res.status, res.body.as_str()), (401, "{\"error\":\"wrong\"}"));
        assert!(res.set_cookie.is_none());
    };
    assert_eq!(step_of(next(&f, None)), PasswordAction::ReadAccounts);
    f.accounts = Some(false);
    wrong(&f);
    f.accounts = Some(true);
    assert_eq!(step_of(next(&f, None)), PasswordAction::Check);
    f.accepted = Some(true);
    assert_eq!(step_of(next(&f, None)), PasswordAction::WriteAttempt);
    f.attempt_written = Some(false);
    wrong(&f);
    f.attempt_written = Some(true);
    f.accepted = Some(false);
    wrong(&f);
    f.accepted = Some(true);
    assert_eq!(step_of(next(&f, None)), PasswordAction::Open);
    assert_eq!(step_of(next(&f, Some("old"))), PasswordAction::Refresh);
    f.refreshed = Some(true);
    assert_eq!(step_of(next(&f, Some("old"))), PasswordAction::WriteSession);
    f.refreshed = Some(false);
    assert_eq!(step_of(next(&f, Some("old"))), PasswordAction::Open);
    f.opened = Some("new".to_string());
    assert_eq!(step_of(next(&f, Some("old"))), PasswordAction::WriteSession);
    f.session_written = Some(false);
    wrong(&f);
    f.session_written = Some(true);
    let res = reply_of(next(&f, Some("old")));
    assert_eq!((res.status, res.body.as_str()), (200, "{\"signed_in\":true}"));
    assert_eq!(res.set_cookie, Some(session_cookie(Some(&p), "new")));
    f.refreshed = Some(true);
    assert_eq!(reply_of(next(&f, Some("old"))).set_cookie, Some(session_cookie(Some(&p), "old")));
}

// -- administering ------------------------------------------------------------------------

fn change_facts() -> ChangeFacts {
    ChangeFacts { read: None, changed: None, written: None, rendered: None }
}

#[test]
fn a_change_to_the_settings_leaves_the_rest_alone() {
    let before = Settings { max_accounts: Some(3), show_spec: Some(true), ..Settings::default() };
    let set = |body: &str| api_settings(Ok(before), &Body::parse(body).unwrap());
    assert_eq!(
        set("{\"public\":true,\"max_daily_filings\":9}").ok().unwrap(),
        Settings { public: true, max_daily_filings: Some(9), ..before }
    );
    assert_eq!(
        set("{\"max_accounts\":null}").ok().unwrap(),
        Settings { max_accounts: None, ..before },
        "cleared, and so the default again"
    );
    assert_eq!(set("{}").ok().unwrap(), before);
    for gone in
        ["base_url", "site_name", "mail_provider", "mail_from", "mail_from_name", "mail_key"]
    {
        let res = set(&format!("{{\"{gone}\":null}}")).err().unwrap();
        assert_eq!(res.status, 400);
        assert_eq!(
            res.body,
            format!(
                "{{\"error\":\"{gone} is set in the environment - change it in the stack and \
                 redeploy\"}}"
            )
        );
    }
    let res = api_settings(Err("disk".to_string()), &Body::empty()).err().unwrap();
    assert_eq!((res.status, res.body.as_str()), (500, "{\"error\":\"disk\"}"));
}

#[test]
fn naming_an_owner_needs_an_address_and_something_to_own() {
    let p = surface(&["a", "b"]);
    assert_eq!(grant(Some(&p), &names(&["b", "c"])), names(&["b"]));
    assert_eq!(grant(None, &names(&["b"])), names(&[]));
    assert_eq!(check_login(false).unwrap_err(), "that is not an email address");
    let mut f = change_facts();
    assert_eq!(reply_of(api_add_owner(false, &names(&["b"]), &f)).status, 400);
    assert_eq!(
        reply_of(api_add_owner(true, &names(&[]), &f)).body,
        "{\"error\":\"pick at least one repository this server serves\"}"
    );
    assert_eq!(step_of(api_add_owner(true, &names(&["b"]), &f)), ChangeAction::Read);
    f.read = Some(Ok(()));
    assert_eq!(step_of(api_add_owner(true, &names(&["b"]), &f)), ChangeAction::Change { administered: true });
    for changed in [true, false] {
        f.changed = Some(changed);
        assert_eq!(
            step_of(api_add_owner(true, &names(&["b"]), &f)),
            ChangeAction::Write,
            "the mark is written whatever else changed"
        );
    }
    f.written = Some(Err("disk".to_string()));
    assert_eq!(reply_of(api_add_owner(true, &names(&["b"]), &f)).status, 500);
    f.written = Some(Ok(()));
    assert_eq!(step_of(api_add_owner(true, &names(&["b"]), &f)), ChangeAction::Render);
    f.rendered = Some(Ok("[]".to_string()));
    assert_eq!(reply_of(api_add_owner(true, &names(&["b"]), &f)).body, "[]");
}

#[test]
fn a_repository_nobody_offered_is_enabled_only_by_insisting() {
    let mut f = change_facts();
    assert_eq!(step_of(api_add_repo(false, false, &f)), ChangeAction::Read);
    f.read = Some(Ok(()));
    assert_eq!(reply_of(api_add_repo(false, false, &f)).status, 409);
    assert_eq!(step_of(api_add_repo(false, true, &f)), ChangeAction::Change { administered: true });
    assert_eq!(step_of(api_add_repo(true, false, &f)), ChangeAction::Change { administered: true });
    for changed in [true, false] {
        f.changed = Some(changed);
        assert_eq!(step_of(api_add_repo(true, false, &f)), ChangeAction::Write);
    }
    f.written = Some(Ok(()));
    assert_eq!(step_of(api_add_repo(true, false, &f)), ChangeAction::Render);
}

#[test]
fn a_key_is_handed_over_once_it_is_known() {
    assert_eq!(minted_json("m", "k"), "{\"key\":\"k\",\"label\":\"m\"}");
    assert_eq!(check_label(""), Err("a machine needs a name"));
    assert_eq!(check_label(&"x".repeat(65)), Err("a machine needs a name"));
    assert_eq!(check_label("a b"), Err("letters, numbers, dashes and underscores"));
    assert_eq!(check_label("a-B_9"), Ok(()));
    let mut f = change_facts();
    assert_eq!(step_of(api_mint_daemon("m", "k", &f)), ChangeAction::Read);
    f.read = Some(Ok(()));
    assert_eq!(step_of(api_mint_daemon("m", "k", &f)), ChangeAction::Change { administered: true });
    f.changed = Some(true);
    assert_eq!(step_of(api_mint_daemon("m", "k", &f)), ChangeAction::Write);
    f.written = Some(Err("disk".to_string()));
    let res = reply_of(api_mint_daemon("m", "k", &f));
    assert_eq!((res.status, res.body.as_str()), (500, "{\"error\":\"disk\"}"));
    f.written = Some(Ok(()));
    assert_eq!(reply_of(api_mint_daemon("m", "k", &f)).body, minted_json("m", "k"));
}

#[test]
fn revoking_twice_is_no_error_and_writes_nothing() {
    assert_eq!(revoked_from("repos"), Some(AdminList::Repos));
    assert_eq!(revoked_from("settings"), None);
    let mut f = change_facts();
    f.read = Some(Ok(()));
    assert_eq!(reply_of(api_revoke(None, &f)).status, 404);
    let list = Some(AdminList::Owners);
    assert_eq!(step_of(api_revoke(list, &f)), ChangeAction::Change { administered: false });
    f.changed = Some(true);
    assert_eq!(step_of(api_revoke(list, &f)), ChangeAction::Write);
    f.changed = Some(false);
    assert_eq!(step_of(api_revoke(list, &f)), ChangeAction::Render);
    f.rendered = Some(Ok("[1]".to_string()));
    let res = reply_of(api_revoke(list, &f));
    assert_eq!((res.status, res.body.as_str()), (200, "[1]"));
    assert_eq!(api_admin(Ok("{}".to_string())).body, "{}");
    assert_eq!(api_admin(Err("disk".to_string())).status, 500);
}

#[test]
fn the_clock_runs() {
    let first = now_ms();
    assert!(first > 1_600_000_000_000);
    assert!(now_ms() >= first);
}
