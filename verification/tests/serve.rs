//! What is read off the wire and written back, and what runs beside the routes.

use sc_server::config::{PublicConfig, Repos};
use sc_server::request::{IntakeKind, Request, RequestState};
use sc_server::routes::http::{Asset, Policy, Req, Res};
use sc_server::routes::paths::{COOKIE, WORK};
use sc_server::routes::{private_route, public_route};
use sc_server::screen::{Screener, Verdict};
use sc_server::seal::{seal, SealKey, Sealed};
use sc_server::serve::{
    arm_claim, body_limit, cookie_value, id_from, is_poll, keeps_holding, mailer_for,
    plan_screening, public_now, read, request_id, route_label, run, screen_batch, screen_pending,
    seed_roster, seed_settings, take_verdict, write_headers, ArmAction, ArmFacts, ArmStep,
    Defaults, MailRoute, ScreenConfig, ScreenPlan, SeedAction, SeedFacts, SeedStep, Site,
    StartAction, StartFacts, StartStep, MAX_BODY, POLL_TICK_MS, POLL_TIMEOUT_MS,
};
use sc_server::settings::Settings;
use sc_server::store::Store;

const LABELS: [&str; 14] = [
    "/",
    "/public",
    "/public/signin",
    "/public/signout",
    "/public/language",
    "/public/app.js",
    "/public/font",
    "/public/signin/:token",
    "/public/request/:id",
    "/api/v1/work",
    "/review",
    "/review/:rest",
    "/setup",
    "other",
];

#[test]
fn a_route_label_never_carries_request_data() {
    const SECRET: &str = "s3cr3ttokenvalue";
    let hostile = [
        format!("/public/signin/{SECRET}"),
        format!("/public/request/{SECRET}"),
        format!("/public?email=someone@example.com&t={SECRET}"),
        format!("/api/v1/work/{SECRET}/drafted"),
        format!("/review/{SECRET}/approve"),
        format!("/{SECRET}"),
        format!("/public/../../{SECRET}"),
        format!("/PUBLIC/SIGNIN/{SECRET}"),
        format!("/public/signin/{}", "A".repeat(4096)),
        String::new(),
        "?".to_string(),
        "/public?".to_string(),
    ];

    for path in &hostile {
        let label = route_label(path);
        assert!(
            LABELS.contains(&label),
            "{path} produced an unknown label {label}"
        );
        assert!(
            !label.contains(SECRET) && !label.contains('@') && !label.contains("AAA"),
            "{path} leaked request data as {label}"
        );
    }
}

#[test]
fn the_known_routes_classify_to_themselves() {
    assert_eq!(route_label(public_route::LANDING), "/");
    assert_eq!(route_label(public_route::FILE), "/public");
    assert_eq!(route_label(public_route::SIGNIN), "/public/signin");
    assert_eq!(route_label(public_route::SIGNOUT), "/public/signout");
    assert_eq!(route_label(public_route::LANGUAGE), "/public/language");
    assert_eq!(route_label(public_route::SCRIPT), "/public/app.js");
    assert_eq!(route_label(public_route::FONT_BODY), "/public/font");
    assert_eq!(route_label(public_route::FONT_DISPLAY), "/public/font");
    assert_eq!(route_label(private_route::REVIEW), "/review");
    assert_eq!(route_label(private_route::SETUP), "/setup");
    assert_eq!(route_label(WORK), "/api/v1/work");
    assert_eq!(route_label("/api/v1/work/srv-1/drafted"), "/api/v1/work");
    assert_eq!(route_label("/public/signin/abc"), "/public/signin/:token");
    assert_eq!(route_label("/public/request/xyz"), "/public/request/:id");
    assert_eq!(route_label("/review/abc"), "/review/:rest");
}

#[test]
fn a_query_string_never_survives_classification() {
    assert_eq!(route_label("/public?email=a@b.com"), "/public");
    assert_eq!(
        route_label(&format!("{}?next=/review", public_route::SIGNIN)),
        "/public/signin"
    );
}

#[test]
fn a_query_behind_a_query_changes_no_label() {
    assert_eq!(route_label("/review?a=1?b=2"), route_label("/review?a=1"));
    assert_eq!(route_label("?"), "other");
}

#[test]
fn an_unknown_path_is_not_reflected() {
    assert_eq!(route_label("/wp-admin.php"), "other");
    assert_eq!(route_label("/publicXYZ"), "other");
    assert_eq!(route_label("/../etc/passwd"), "other");
}

#[test]
fn a_request_id_is_short_and_hex() {
    let id = request_id();
    assert_eq!(id.len(), 8, "{id}");
    assert!(id.chars().all(|c| c.is_ascii_hexdigit()), "{id}");
    assert_eq!(id_from(Some(vec![0, 1, 254, 255])), "0001feff");
    assert_eq!(id_from(None), "????????");
}

#[test]
fn a_cookie_is_found_among_others() {
    let header = "other=1; sc_device=abc123; another=2";
    assert_eq!(cookie_value(header, COOKIE).as_deref(), Some("abc123"));
    assert_eq!(cookie_value(header, "missing"), None);
}

#[test]
fn a_malformed_cookie_header_does_not_panic() {
    for header in ["", ";", "=", "a", "a=;b", "===", "sc_device"] {
        let _ = cookie_value(header, COOKIE);
    }
    assert_eq!(cookie_value("sc_device", COOKIE), None);
    assert_eq!(cookie_value(" sc_device = a=b ;sc_device=c", COOKIE).as_deref(), Some("a=b"));
}

#[test]
fn the_poll_tick_is_well_inside_the_hold() {
    assert!(POLL_TICK_MS * 20 < POLL_TIMEOUT_MS);
}

#[test]
fn the_body_limit_is_above_a_real_spec_and_far_below_a_denial_of_service() {
    const {
        assert!(MAX_BODY >= 256 * 1024, "a long spec must still fit");
        assert!(MAX_BODY <= 4 * 1024 * 1024, "and no more than that");
    }
    assert_eq!(body_limit(None), 0);
    assert_eq!(body_limit(Some(0)), 0);
    assert_eq!(body_limit(Some(1)), MAX_BODY);
    assert_eq!(body_limit(Some(MAX_BODY)), MAX_BODY);
    assert_eq!(body_limit(Some(MAX_BODY + 1)), 0, "nothing of it is read");
}

fn headers(h: &[(&str, &str)]) -> Vec<(String, String)> {
    h.iter().map(|(n, v)| (n.to_string(), v.to_string())).collect()
}

#[test]
fn a_request_keeps_what_the_routes_use_and_nothing_else() {
    let req = read(
        "POST",
        "/api/v1/ui/file?x=1",
        &headers(&[
            ("Authorization", "Bearer  abc "),
            ("COOKIE", "sc_device=t1; sc_lang=fr; sc_setup=s1"),
            ("Accept-Language", "fr-CA"),
            ("If-None-Match", "\"tag\""),
            ("Origin", "https://specs.example.test"),
            ("Content-Type", "application/json"),
            ("User-Agent", "whatever"),
        ]),
        "{}",
    );
    assert_eq!(req.method, "POST");
    assert_eq!(req.path, "/api/v1/ui/file?x=1");
    assert_eq!(req.bearer.as_deref(), Some("abc"));
    assert_eq!(req.cookie_token.as_deref(), Some("t1"));
    assert_eq!(req.cookie_lang.as_deref(), Some("fr"));
    assert_eq!(req.cookie_setup.as_deref(), Some("s1"));
    assert_eq!(req.accept_language.as_deref(), Some("fr-CA"));
    assert_eq!(req.if_none_match.as_deref(), Some("\"tag\""));
    assert_eq!(req.origin.as_deref(), Some("https://specs.example.test"));
    assert_eq!(req.content_type.as_deref(), Some("application/json"));
    assert_eq!(req.body, "{}");

    let other = read("GET", "/", &headers(&[("authorization", "Basic abc")]), "");
    assert_eq!(other.bearer, None);
    let lower = read("GET", "/", &headers(&[("authorization", "bearer k")]), "");
    assert_eq!(lower.bearer.as_deref(), Some("k"));
}

#[test]
fn a_poll_is_held_until_there_is_work_or_time_is_up() {
    let poll = Req::get("/api/v1/work?repo=alpha");
    assert!(is_poll(&poll));
    assert!(!is_poll(&Req::get("/api/v1/work/r-1/drafted")));
    assert!(!is_poll(&Req::post("/api/v1/work", "")));

    let mut idle = Res::json(200, "");
    idle.hold_for_work = true;
    assert!(keeps_holding(&poll, &idle, 0));
    assert!(keeps_holding(&poll, &idle, POLL_TIMEOUT_MS - 1));
    assert!(!keeps_holding(&poll, &idle, POLL_TIMEOUT_MS));
    assert!(!keeps_holding(&poll, &Res::json(200, ""), 0));
}

#[test]
fn every_response_is_written_with_the_same_headers() {
    let plain = write_headers(&Res::json(200, "{}"));
    assert_eq!(plain[0], ("Content-Type".to_string(), "application/json".to_string()));
    let names: Vec<&str> = plain.iter().map(|(n, _)| n.as_str()).collect();
    assert_eq!(
        names,
        vec![
            "Content-Type",
            "Referrer-Policy",
            "Cache-Control",
            "Content-Security-Policy",
            "X-Content-Type-Options",
            "X-Frame-Options",
        ]
    );
    let mut rich = Res::page(404, Asset::NotFound)
        .with_policy(Policy::PublicScript)
        .with_set_cookie("a=b".to_string());
    rich.etag = Some("\"t\"".to_string());
    let h = write_headers(&rich);
    assert_eq!(h.len(), 8);
    assert_eq!(h[3].1, Policy::PublicScript.csp());
    assert_eq!(h[6], ("Set-Cookie".to_string(), "a=b".to_string()));
    assert_eq!(h[7], ("ETag".to_string(), "\"t\"".to_string()));
}

const DEFAULTS: Defaults = Defaults {
    max_daily_filings: 10,
    max_daily_drafts: 20,
    max_accounts: 30,
    max_outstanding_links: 40,
};

fn site(base_url: &str, mail: bool, screen: bool) -> Site {
    Site {
        base_url: base_url.into(),
        name: String::new(),
        host_label: "x".into(),
        mail,
        screen,
        has_github: false,
        github_client_id: String::new(),
        github_client_secret: None,
    }
}

#[test]
fn a_surface_exists_only_while_it_is_switched_on() {
    let off = Settings::default();
    let at = site("https://x", true, true);
    assert!(public_now(&off, vec!["a".into()], &at, &DEFAULTS).is_none());

    let on = Settings {
        public: true,
        max_daily_drafts: Some(7),
        ..Settings::default()
    };
    let at = site("http://127.0.0.1", false, true);
    let p = public_now(&on, vec!["a".into()], &at, &DEFAULTS).unwrap();
    assert_eq!(p.base_url, "http://127.0.0.1");
    assert!(!p.secure_cookies, "it follows from the address");
    assert!(p.show_spec, "unless somebody said no");
    assert!(p.screen && !p.mail);
    assert_eq!((p.max_daily_filings, p.max_daily_drafts), (10, 7));
    assert_eq!((p.max_accounts, p.max_outstanding_links), (30, 40));
    assert!(p.repos.accepts("a") && !p.repos.accepts("b"));

    let hidden = Settings {
        show_spec: Some(false),
        ..on
    };
    let at = site("https://x", false, false);
    let p = public_now(&hidden, vec![], &at, &DEFAULTS).unwrap();
    assert!(!p.show_spec && p.secure_cookies);
}

#[test]
fn a_site_without_a_name_is_headed_by_its_address() {
    let on = Settings { public: true, ..Settings::default() };
    let unnamed = site("https://x", false, false);
    assert_eq!(public_now(&on, vec![], &unnamed, &DEFAULTS).unwrap().site_name, "x");
    let named = Site { name: "Intake".into(), ..unnamed };
    assert_eq!(public_now(&on, vec![], &named, &DEFAULTS).unwrap().site_name, "Intake");
}

#[test]
fn signing_in_through_github_needs_a_secret_that_opens() {
    let on = Settings { public: true, ..Settings::default() };
    let github = |has_github: bool, secret: Option<&str>| {
        let at = Site {
            has_github,
            github_client_id: "Iv1".into(),
            github_client_secret: secret.map(str::to_string),
            ..site("https://x", false, false)
        };
        public_now(&on, vec![], &at, &DEFAULTS)
            .unwrap()
            .github
            .map(|g| (g.client_id, g.client_secret))
    };
    assert_eq!(github(true, Some("s")), Some(("Iv1".to_string(), "s".to_string())));
    assert_eq!(github(true, None), None, "it did not open");
    assert_eq!(github(false, Some("s")), None, "it is not set up");
}

fn surface() -> PublicConfig {
    PublicConfig {
        repos: Repos { names: vec!["intake".into()] },
        site_name: "intake".into(),
        base_url: "https://specs.example.test".into(),
        secure_cookies: true,
        mail: true,
        screen: false,
        show_spec: false,
        max_daily_filings: 1,
        max_daily_drafts: 2,
        max_accounts: 3,
        max_outstanding_links: 4,
        github: None,
    }
}

#[test]
fn the_environment_seeds_the_settings_once() {
    let mut s = Settings::default();
    assert!(seed_settings(&mut s, Some(&surface())));
    assert!(s.public && s.seeded);
    assert_eq!((s.show_spec, s.max_accounts), (Some(false), Some(3)));
    s.public = false;
    assert!(!seed_settings(&mut s, Some(&surface())));
    assert!(!s.public, "a restart does not turn it back on");

    let mut fresh = Settings::default();
    assert!(seed_settings(&mut fresh, None));
    assert!(!fresh.public && fresh.seeded);
}

#[test]
fn the_console_comes_before_the_provider() {
    let p = surface();
    assert_eq!(mailer_for(true, Some(&p)), MailRoute::Console);
    assert_eq!(mailer_for(false, Some(&p)), MailRoute::Provider);
    let silent = PublicConfig { mail: false, ..surface() };
    assert_eq!(mailer_for(false, Some(&silent)), MailRoute::Unconfigured);
    assert_eq!(mailer_for(false, None), MailRoute::Unconfigured);
}

#[test]
fn a_claimed_server_arms_nothing() {
    let mut f = ArmFacts { claimed: None, code: None, written: None };
    assert!(matches!(arm_claim(&f), ArmStep::Do(ArmAction::ReadClaim)));
    f.claimed = Some(Ok(true));
    assert!(matches!(arm_claim(&f), ArmStep::Armed(None)));
    f.claimed = Some(Ok(false));
    assert!(matches!(arm_claim(&f), ArmStep::Do(ArmAction::Arm)));
    f.code = Some("ABCD".into());
    assert!(matches!(arm_claim(&f), ArmStep::Do(ArmAction::WriteClaim)));
    f.written = Some(Ok(()));
    assert!(matches!(arm_claim(&f), ArmStep::Armed(Some(c)) if c == "ABCD"));
    f.written = Some(Err("full".into()));
    assert!(matches!(arm_claim(&f), ArmStep::Failed(e) if e == "full"));
    f.claimed = Some(Err("gone".into()));
    assert!(matches!(arm_claim(&f), ArmStep::Failed(e) if e == "gone"));
}

#[test]
fn a_seeded_roster_is_not_written_again() {
    let mut f = SeedFacts { read: None, applied: None, written: None };
    assert!(matches!(seed_roster(&f), SeedStep::Do(SeedAction::Read)));
    f.read = Some(Ok(()));
    assert!(matches!(seed_roster(&f), SeedStep::Do(SeedAction::Apply)));
    f.applied = Some(false);
    assert!(matches!(seed_roster(&f), SeedStep::Seeded(false)));
    f.applied = Some(true);
    assert!(matches!(seed_roster(&f), SeedStep::Do(SeedAction::Write)));
    f.written = Some(Ok(()));
    assert!(matches!(seed_roster(&f), SeedStep::Seeded(true)));
    f.written = Some(Err("full".into()));
    assert!(matches!(seed_roster(&f), SeedStep::Failed(_)));
    f.read = Some(Err("gone".into()));
    assert!(matches!(seed_roster(&f), SeedStep::Failed(e) if e == "gone"));
}

#[test]
fn a_server_with_the_wrong_key_does_not_start() {
    let key = SealKey::parse(&"ab".repeat(32)).ok().unwrap();
    let wrong = SealKey::parse(&"cd".repeat(32)).ok().unwrap();
    let mut f = StartFacts {
        opened: None,
        armed: None,
        sealed: None,
        roster: None,
        settings: None,
        bound: None,
    };
    assert!(matches!(run(&f, Some(&key)), StartStep::Do(StartAction::OpenStore)));
    f.opened = Some(Ok(()));
    assert!(matches!(run(&f, Some(&key)), StartStep::Do(StartAction::ArmClaim)));
    f.armed = Some(Ok(()));
    assert!(matches!(run(&f, Some(&key)), StartStep::Do(StartAction::ReadSealed)));
    f.sealed = Some(Ok(seal(&key, "secret", 1).unwrap()));
    assert!(matches!(run(&f, Some(&wrong)), StartStep::Failed(e) if e.contains("different key")));
    assert!(matches!(run(&f, None), StartStep::Failed(e) if e.contains("is not set")));
    assert!(matches!(run(&f, Some(&key)), StartStep::Do(StartAction::SeedRoster)));
    f.roster = Some(Ok(()));
    assert!(matches!(run(&f, Some(&key)), StartStep::Do(StartAction::SeedSettings)));
    f.settings = Some(Ok(()));
    assert!(matches!(run(&f, Some(&key)), StartStep::Do(StartAction::Bind)));
    f.bound = Some(Err("in use".into()));
    assert!(matches!(run(&f, Some(&key)), StartStep::Failed(e) if e == "in use"));
    f.bound = Some(Ok(()));
    assert!(matches!(run(&f, Some(&key)), StartStep::Serve));
    f.sealed = Some(Ok(Sealed::default()));
    assert!(matches!(run(&f, None), StartStep::Serve), "nothing sealed needs no key");
}

fn screen_config(model: &str) -> ScreenConfig {
    ScreenConfig {
        api_key: "k".into(),
        url: "https://screen.example.test".into(),
        model: model.into(),
    }
}

#[test]
fn a_screener_is_built_only_where_it_changed() {
    let a = screen_config("a");
    let same = screen_config("a");
    let b = screen_config("b");
    assert_eq!(plan_screening(None, None), ScreenPlan::Off);
    assert_eq!(plan_screening(Some(&a), None), ScreenPlan::Off);
    assert_eq!(plan_screening(None, Some(&a)), ScreenPlan::Build);
    assert_eq!(plan_screening(Some(&a), Some(&same)), ScreenPlan::Keep);
    assert_eq!(plan_screening(Some(&a), Some(&b)), ScreenPlan::Build);
}

struct Words;

impl Screener for Words {
    fn screen(&self, text: &str) -> Verdict {
        if text.contains("watches") {
            Verdict::Quarantine
        } else {
            Verdict::Admit
        }
    }
}

fn waiting(id: &str, text: &str) -> Request {
    Request::public(id, text, id, IntakeKind::Bug, "acct", true, 1)
}

#[test]
fn a_sweep_screens_a_few_and_leaves_the_rest() {
    let mut s = Store::open("/data");
    for i in 0..6 {
        let text = if i == 1 { "cheap watches" } else { "a bug" };
        s.put(&waiting(&format!("r-{i}"), text));
    }
    assert_eq!(screen_batch(&s).len(), 4);
    screen_pending(&mut s, &Words);
    let state = |s: &Store, id: &str| s.get(id).unwrap().state;
    assert_eq!(state(&s, "r-0"), RequestState::Queued);
    assert_eq!(state(&s, "r-1"), RequestState::Quarantined);
    assert_eq!(s.get("r-1").unwrap().note.as_deref(), Some("screened as spam"));
    assert_eq!(state(&s, "r-3"), RequestState::Queued);
    assert_eq!(state(&s, "r-4"), RequestState::Screening, "the next sweep's");
    screen_pending(&mut s, &Words);
    assert_eq!(state(&s, "r-5"), RequestState::Queued);
}

#[test]
fn a_verdict_on_what_is_not_waiting_changes_nothing() {
    let mut s = Store::open("/data");
    let mut r = waiting("r-1", "a bug");
    r.state = RequestState::Queued;
    s.put(&r);
    take_verdict(&mut s, "r-1", Verdict::Quarantine);
    take_verdict(&mut s, "nothing", Verdict::Quarantine);
    assert_eq!(s.get("r-1").unwrap().state, RequestState::Queued);
    assert_eq!(s.all().len(), 1);
}
