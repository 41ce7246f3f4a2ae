//! The routes, end to end: each test drives a server whose files are held in
//! memory.

use std::cell::RefCell;
use std::collections::HashMap;

use sc_server::caller::{Bucket, Caller, Credentials, DaemonKey, OwnerRecord, SessionAccount};
use sc_server::config::{PublicConfig, Repos, FILING_WINDOW_MS};
use sc_server::i18n::{Locale, Strings};
use sc_server::request::{Draft, IntakeKind, Request, RequestState, Serves};
use sc_server::routes::admin::{
    api_add_owner, api_add_repo, api_admin, api_mint_daemon, api_revoke, api_settings, AdminList,
    ChangeAction, ChangeFacts,
};
use sc_server::routes::answer::{Answer, Ask};
use sc_server::routes::cookies::secure_attr_for;
use sc_server::routes::daemon::{take_report, Received, Report, ReportKind};
use sc_server::routes::dispatch::{budget, counted, handle, Ctx};
use sc_server::routes::filing::{check_length, MAX_BYTES, MAX_WORDS};
use sc_server::routes::forms::{form_fields, percent_decode};
use sc_server::routes::http::{security_headers, Asset, Payload, Policy, Req, Res};
use sc_server::routes::listing::listing_order;
use sc_server::routes::paths::{
    api_path, bucket_for, identity_of, is_public_path, wants_document, COOKIE, FONT_BODY_PATH,
    FONT_DISPLAY_PATH, LANG_COOKIE, ME_PATH, OWNER_VERBS, REVIEW_VERBS, SCRIPT_PATH, SETUP_COOKIE,
    STRINGS_PATH, STYLE_PATH, WORK,
};
use sc_server::routes::setup::{
    api_claim, api_setup_state, api_spend_code, ClaimAction, ClaimFacts, ClaimState, CodeAction,
    CodeFacts,
};
use sc_server::routes::signin::{
    check_password_for_session, complete_sign_in, link_url, sign_out_step, try_send_link,
    AccountState, LinkAction, LinkError, LinkFacts, PasswordAction, PasswordFacts, SignOutAction,
    SignOutFacts, SpendAction, SpendFacts,
};
use sc_server::routes::step::Next;
use sc_server::routes::words::{api_set_language, api_ui_strings};
use sc_server::routes::{private_route, public_route};
use sc_server::settings::Settings;
use sc_server::store::{now_ms, Store};

const KEY: &str = "0123456789abcdef0123456789abcdef";
const OTHER_KEY: &str = "fedcba9876543210fedcba9876543210";
const CLAIM_TTL_MS: u64 = 15 * 60 * 1000;
const MIN_PASSWORD: u64 = 12;

/// A fingerprint that stands for the digests a deployment takes.
fn hash(s: &str) -> String {
    let mut h: u64 = 0xcbf2_9ce4_8422_2325;
    for b in s.bytes() {
        h ^= b as u64;
        h = h.wrapping_mul(0x0000_0100_0000_01b3);
    }
    format!("{h:016x}")
}

/// A JSON object with these fields.
fn obj(fields: &[(&str, &str)]) -> String {
    let parts: Vec<String> = fields
        .iter()
        .map(|(k, v)| {
            format!(
                "{}:{}",
                serde_json::to_string(k).unwrap(),
                serde_json::to_string(v).unwrap()
            )
        })
        .collect();
    format!("{{{}}}", parts.join(","))
}

fn text(s: &str) -> String {
    serde_json::to_string(s).unwrap()
}

fn list(v: &[String]) -> String {
    let parts: Vec<String> = v.iter().map(|s| text(s)).collect();
    format!("[{}]", parts.join(","))
}

// ---------------------------------------------------------------------------
// The files of a server
// ---------------------------------------------------------------------------

#[derive(Clone, Default)]
struct Admin {
    login: Option<String>,
    code: Option<(String, u64)>,
    token: Option<(String, u64)>,
}

impl Admin {
    fn claimed(&self) -> bool {
        self.login.is_some()
    }

    fn is(&self, login: &str) -> bool {
        self.login.as_deref() == Some(login.to_ascii_lowercase().as_str())
    }

    fn claim(&mut self, login: &str, _now: u64) {
        self.login = Some(login.to_ascii_lowercase());
        self.token = None;
    }

    fn arm(&mut self, code: &str, now: u64) -> bool {
        self.code = Some((code.to_string(), now + CLAIM_TTL_MS));
        true
    }

    fn spend(&mut self, code: &str, now: u64) -> Option<String> {
        let good = matches!(&self.code, Some((c, until)) if c == code && now < *until);
        if !good {
            return None;
        }
        self.code = None;
        let token = mint_secret();
        self.token = Some((hash(&token), now + CLAIM_TTL_MS));
        Some(token)
    }

    fn setting_up(&self, token: Option<&str>, now: u64) -> bool {
        match (&self.token, token) {
            (Some((h, until)), Some(t)) => *h == hash(t) && now < *until,
            _ => false,
        }
    }
}

fn mint_secret() -> String {
    let mut bytes = [0u8; 32];
    getrandom::fill(&mut bytes).expect("there is randomness");
    bytes.iter().map(|b| format!("{b:02x}")).collect()
}

#[derive(Clone)]
struct Account {
    id: String,
    email_hash: Option<String>,
    email_hint: String,
    login: Option<String>,
    password: String,
    revoked: bool,
    failed_attempts: u32,
    next_attempt_ms: u64,
}

#[derive(Clone)]
struct Session {
    token_hash: String,
    account: String,
    revoked: bool,
}

#[derive(Clone, Default)]
struct Accounts {
    accounts: Vec<Account>,
    sessions: Vec<Session>,
}

impl Accounts {
    fn live(&self) -> Vec<&Account> {
        self.accounts.iter().filter(|a| !a.revoked).collect()
    }

    fn revoke(&mut self, id: &str) -> bool {
        match self.accounts.iter_mut().find(|a| a.id == id && !a.revoked) {
            Some(a) => {
                a.revoked = true;
                true
            }
            None => false,
        }
    }

    fn create(&mut self, email_hash: &str, hint: &str) -> String {
        let id = format!("a-{}", self.accounts.len() + 1);
        self.accounts.push(Account {
            id: id.clone(),
            email_hash: Some(email_hash.to_string()),
            email_hint: hint.to_string(),
            login: None,
            password: String::new(),
            revoked: false,
            failed_attempts: 0,
            next_attempt_ms: 0,
        });
        id
    }

    fn create_login(&mut self, login: &str, password: &str, _now: u64) -> Result<Account, String> {
        let login = login.to_ascii_lowercase();
        if (password.len() as u64) < MIN_PASSWORD {
            return Err("that password is too short".to_string());
        }
        if self.accounts.iter().any(|a| a.login.as_deref() == Some(&login)) {
            return Err("that login is taken".to_string());
        }
        let id = self.create(&hash(&login), &email_hint(&login));
        let a = self.accounts.last_mut().unwrap();
        a.login = Some(login);
        a.password = hash(password);
        assert_eq!(a.id, id);
        Ok(a.clone())
    }

    fn by_login(&self, login: &str) -> Option<&Account> {
        let login = login.to_ascii_lowercase();
        self.accounts
            .iter()
            .find(|a| a.login.as_deref() == Some(&login))
    }

    fn open_session(&mut self, id: &str, _now: u64) -> String {
        let token = mint_secret();
        self.sessions.push(Session {
            token_hash: hash(&token),
            account: id.to_string(),
            revoked: false,
        });
        token
    }

    fn refresh_session(&mut self, token: &str, _now: u64) -> bool {
        self.session_for(token).is_some()
    }

    fn session_for(&self, token: &str) -> Option<&Account> {
        let h = hash(token);
        let s = self.sessions.iter().find(|s| s.token_hash == h && !s.revoked)?;
        self.accounts.iter().find(|a| a.id == s.account && !a.revoked)
    }

    /// The account that the password opens. Three wrong guesses buy a wait.
    fn check_password(&mut self, login: &str, password: &str, now: u64) -> Option<String> {
        let login = login.to_ascii_lowercase();
        let a = self
            .accounts
            .iter_mut()
            .find(|a| a.login.as_deref() == Some(&login) && !a.revoked)?;
        if now < a.next_attempt_ms {
            return None;
        }
        if a.password == hash(password) {
            a.failed_attempts = 0;
            a.next_attempt_ms = 0;
            return Some(a.id.clone());
        }
        a.failed_attempts += 1;
        if a.failed_attempts >= 3 {
            a.next_attempt_ms = now + 60_000;
        }
        None
    }
}

fn email_hint(email: &str) -> String {
    match email.split_once('@') {
        Some((name, host)) => format!("{}***@{host}", name.chars().take(2).collect::<String>()),
        None => "***".to_string(),
    }
}

fn valid_email(s: &str) -> bool {
    matches!(s.split_once('@'), Some((a, b)) if !a.is_empty() && b.contains('.') && !s.contains(' '))
}

#[derive(Clone)]
struct Owner {
    login: String,
    repos: Vec<String>,
    revoked: bool,
}

#[derive(Clone)]
struct Repo {
    name: String,
    enabled: bool,
    served_by: Option<String>,
}

#[derive(Clone)]
struct Machine {
    label: String,
    key_hash: String,
    revoked: bool,
}

#[derive(Clone, Default)]
struct Roster {
    owners: Vec<Owner>,
    repos: Vec<Repo>,
    daemons: Vec<Machine>,
    seeded: bool,
}

impl Roster {
    fn set_owner(&mut self, login: &str, repos: &[String], _now: u64) {
        let login = login.to_ascii_lowercase();
        self.owners.retain(|o| o.login != login);
        self.owners.push(Owner { login, repos: repos.to_vec(), revoked: false });
    }

    fn owner_for(&self, login: &str) -> Option<&Owner> {
        let login = login.to_ascii_lowercase();
        self.owners.iter().find(|o| o.login == login && !o.revoked)
    }

    fn revoke(&mut self, login: &str) -> bool {
        match self.owners.iter_mut().find(|o| o.login == login && !o.revoked) {
            Some(o) => {
                o.revoked = true;
                true
            }
            None => false,
        }
    }

    fn enable(&mut self, name: &str, served_by: Option<String>, _now: u64) {
        self.repos.retain(|r| r.name != name);
        self.repos.push(Repo { name: name.to_string(), enabled: true, served_by });
    }

    fn disable(&mut self, name: &str) -> bool {
        match self.repos.iter_mut().find(|r| r.name == name && r.enabled) {
            Some(r) => {
                r.enabled = false;
                true
            }
            None => false,
        }
    }

    fn enabled(&self) -> Vec<String> {
        self.repos.iter().filter(|r| r.enabled).map(|r| r.name.clone()).collect()
    }

    fn set_daemon(&mut self, label: &str, key_hash: &str, _now: u64) {
        self.daemons.retain(|d| d.label != label);
        self.daemons.push(Machine {
            label: label.to_string(),
            key_hash: key_hash.to_string(),
            revoked: false,
        });
    }

    fn revoke_daemon(&mut self, label: &str) -> bool {
        match self.daemons.iter_mut().find(|d| d.label == label && !d.revoked) {
            Some(d) => {
                d.revoked = true;
                true
            }
            None => false,
        }
    }

    fn listed(&self, which: AdminList) -> String {
        let parts: Vec<String> = match which {
            AdminList::Owners => self
                .owners
                .iter()
                .map(|o| {
                    format!(
                        "{{\"login\":{},\"repos\":{},\"revoked\":{}}}",
                        text(&o.login),
                        list(&o.repos),
                        o.revoked
                    )
                })
                .collect(),
            AdminList::Daemons => self
                .daemons
                .iter()
                .map(|d| format!("{{\"label\":{},\"revoked\":{}}}", text(&d.label), d.revoked))
                .collect(),
            _ => self
                .repos
                .iter()
                .map(|r| format!("{{\"name\":{},\"enabled\":{}}}", text(&r.name), r.enabled))
                .collect(),
        };
        format!("[{}]", parts.join(","))
    }
}

#[derive(Clone)]
struct Link {
    token_hash: String,
    email_hash: String,
    email_hint: String,
    used: bool,
}

#[derive(Clone, Default)]
struct Links {
    links: Vec<Link>,
}

impl Links {
    fn issue(&mut self, email_hash: &str, email_hint: &str) -> String {
        let token = mint_secret();
        self.links.push(Link {
            token_hash: hash(&token),
            email_hash: email_hash.to_string(),
            email_hint: email_hint.to_string(),
            used: false,
        });
        token
    }

    fn peek(&self, token: &str, _now: u64) -> Option<&Link> {
        let h = hash(token);
        self.links.iter().find(|l| l.token_hash == h && !l.used)
    }

    fn outstanding(&self) -> usize {
        self.links.iter().filter(|l| !l.used).count()
    }

    fn consume(&mut self, token: &str) -> Result<(String, String), LinkError> {
        let h = hash(token);
        match self.links.iter_mut().find(|l| l.token_hash == h) {
            None => Err(LinkError::Invalid),
            Some(l) if l.used => Err(LinkError::AlreadyUsed),
            Some(l) => {
                l.used = true;
                Ok((l.email_hash.clone(), l.email_hint.clone()))
            }
        }
    }
}

#[derive(Default)]
struct Files {
    admin: Admin,
    accounts: Accounts,
    roster: Roster,
    links: Links,
    settings: Settings,
}

struct Volume {
    requests: RefCell<Store>,
    files: RefCell<Files>,
}

impl Volume {
    fn all(&self) -> Result<Vec<Request>, String> {
        Ok(self.requests.borrow().all())
    }

    fn get(&self, id: &str) -> Result<Option<Request>, String> {
        Ok(self.requests.borrow().get(id))
    }

    fn require(&self, id: &str) -> Result<Request, String> {
        self.requests.borrow().require(id).map_err(|e| e.message())
    }

    fn put(&self, r: &Request) -> Result<(), String> {
        self.requests.borrow_mut().put(r);
        Ok(())
    }

    fn claim_next(&self, serves: Serves<'_>, by: &str) -> Result<Option<Request>, String> {
        Ok(self.requests.borrow_mut().claim_next(serves, by, now_ms()))
    }

    fn discard(&self, id: &str) -> Result<Request, String> {
        self.requests.borrow_mut().discard(id).map_err(|e| e.message())
    }

    fn finish_screening(&self, id: &str, note: Option<&str>) -> Result<Request, String> {
        self.requests.borrow_mut().finish_screening(id, note).map_err(|e| e.message())
    }

    fn drafts_since(&self, repo: &str, since: u64) -> Result<usize, String> {
        Ok(self.requests.borrow().drafts_since(repo, since))
    }

    fn admin(&self) -> Result<Admin, String> {
        Ok(self.files.borrow().admin.clone())
    }

    fn put_admin(&self, a: &Admin) -> Result<(), String> {
        self.files.borrow_mut().admin = a.clone();
        Ok(())
    }

    fn accounts(&self) -> Result<Accounts, String> {
        Ok(self.files.borrow().accounts.clone())
    }

    fn put_accounts(&self, a: &Accounts) -> Result<(), String> {
        self.files.borrow_mut().accounts = a.clone();
        Ok(())
    }

    fn roster(&self) -> Result<Roster, String> {
        Ok(self.files.borrow().roster.clone())
    }

    fn put_roster(&self, r: &Roster) -> Result<(), String> {
        self.files.borrow_mut().roster = r.clone();
        Ok(())
    }

    /// What the roster's file holds.
    fn raw_roster(&self) -> String {
        let roster = &self.files.borrow().roster;
        let parts: Vec<String> = roster
            .daemons
            .iter()
            .map(|d| obj(&[("label", &d.label), ("key_hash", &d.key_hash)]))
            .collect();
        format!("[{}]", parts.join(","))
    }

    /// What the accounts' file holds.
    fn raw_accounts(&self) -> String {
        let accounts = &self.files.borrow().accounts;
        let parts: Vec<String> = accounts
            .accounts
            .iter()
            .map(|a| {
                let login = a.login.as_deref().unwrap_or_default();
                obj(&[("id", &a.id), ("login", login), ("password", &a.password)])
            })
            .collect();
        format!("[{}]", parts.join(","))
    }

    fn links(&self) -> Result<Links, String> {
        Ok(self.files.borrow().links.clone())
    }

    fn put_links(&self, l: &Links) -> Result<(), String> {
        self.files.borrow_mut().links = l.clone();
        Ok(())
    }

    fn settings(&self) -> Result<Settings, String> {
        Ok(self.files.borrow().settings)
    }

    fn put_settings(&self, s: &Settings) -> Result<(), String> {
        self.files.borrow_mut().settings = *s;
        Ok(())
    }
}

#[derive(Default)]
struct Mailer {
    sent: Vec<(String, String)>,
}

impl Mailer {
    fn count(&self) -> usize {
        self.sent.len()
    }

    fn last_body(&self) -> Option<String> {
        self.sent.last().map(|(_, body)| body.clone())
    }
}

fn strings(locale: Locale) -> Strings {
    let say = |en: &str, fr: &str| match locale {
        Locale::En => en.to_string(),
        Locale::Fr => fr.to_string(),
    };
    Strings {
        signin_no_mail: say("This server sends no mail.", "Ce serveur n'envoie pas de courriel."),
        signin_wrong: say("That did not work.", "Cela n'a pas fonctionné."),
        file_repo_unknown: say("Choose one of these.", "Choisissez dans cette liste."),
        error_empty: say("Say something first.", "Dites quelque chose."),
        confirm_title: say("Sign in", "Se connecter"),
        confirm_intro: say("One more step.", "Encore une étape."),
        confirm_submit: say("Sign in", "Se connecter"),
        confirm_not_you: say("Not you? Close this page.", "Pas vous ? Fermez cette page."),
        link_already_used: say("That link has already been used. ", "Ce lien a déjà servi. "),
        link_already_used_link: say("Carry on", "Continuer"),
        link_expired: say("That link has expired.", "Ce lien a expiré."),
        link_failed_title: say("That did not work", "Cela n'a pas fonctionné"),
        link_ask_again: say("Ask for another", "En demander un autre"),
    }
}

/// The catalogue, as far as these tests read it.
fn catalogue(locale: Locale) -> String {
    let (title, nav) = match locale {
        Locale::En => ("A spec, not a ticket", "Sign in"),
        Locale::Fr => ("Une spécification, pas un ticket", "Se connecter"),
    };
    format!(
        "{{\"locale\":{},\"strings\":{}}}",
        text(locale.code()),
        obj(&[("landing_point_2_title", title), ("nav_signin", nav)])
    )
}

fn seen_state(r: &Request, locale: Locale) -> &'static str {
    let drafted = matches!(r.state, RequestState::AwaitingReview | RequestState::Accepted);
    match (drafted, locale) {
        (true, Locale::En) => "drafted",
        (true, Locale::Fr) => "rédigée",
        (false, Locale::En) => "received",
        (false, Locale::Fr) => "reçue",
    }
}

// ---------------------------------------------------------------------------
// A server
// ---------------------------------------------------------------------------

struct Fixture {
    store: Volume,
    public: Option<PublicConfig>,
    mailer: Mailer,
    counts: HashMap<String, u32>,
    seen: Vec<(String, Vec<String>)>,
    now_ms: u64,
    daemon_keys: Vec<DaemonKey>,
    minted: u64,
}

fn one_key(label: &str, key: &str) -> Vec<DaemonKey> {
    vec![daemon_key(label, key)]
}

fn daemon_key(label: &str, key: &str) -> DaemonKey {
    DaemonKey { label: label.to_string(), key_hash: hash(key) }
}

impl Fixture {
    fn new(_tag: &str) -> Fixture {
        Fixture {
            store: Volume {
                requests: RefCell::new(Store::open("/data")),
                files: RefCell::new(Files::default()),
            },
            public: None,
            mailer: Mailer::default(),
            counts: HashMap::new(),
            seen: Vec::new(),
            now_ms: 1_000,
            daemon_keys: one_key("test-daemon", KEY),
            minted: 0,
        }
    }

    fn with_public(mut self, screened: bool) -> Fixture {
        self.public = Some(PublicConfig {
            repos: Repos { names: vec!["intake".to_string()] },
            site_name: "intake".into(),
            base_url: "https://specs.example.test".into(),
            secure_cookies: true,
            mail: true,
            screen: screened,
            max_outstanding_links: 200,
            max_daily_filings: 20,
            max_daily_drafts: 60,
            max_accounts: 500,
            show_spec: true,
            github: None,
        });
        self
    }

    fn with_owner(self, login: &str, repos: &[&str]) -> Fixture {
        let mut roster = self.store.roster().unwrap();
        let repos: Vec<String> = repos.iter().map(|r| r.to_string()).collect();
        roster.set_owner(login, &repos, self.now_ms);
        roster.seeded = true;
        self.store.put_roster(&roster).unwrap();
        self
    }

    fn with_repos(mut self, names: &[&str]) -> Fixture {
        let mut roster = self.store.roster().unwrap();
        for name in names {
            roster.enable(name, Some("test-daemon".into()), self.now_ms);
        }
        roster.seeded = true;
        self.store.put_roster(&roster).unwrap();
        if let Some(p) = self.public.as_mut() {
            p.repos = Repos { names: names.iter().map(|n| n.to_string()).collect() };
        }
        self
    }

    fn on_loopback(mut self) -> Fixture {
        if let Some(p) = self.public.as_mut() {
            p.base_url = "http://localhost:8420".into();
            p.secure_cookies = false;
        }
        self
    }

    fn with_caps(mut self, daily: usize, accounts: usize) -> Fixture {
        if let Some(p) = self.public.as_mut() {
            p.max_daily_filings = daily;
            p.max_accounts = accounts;
        }
        self
    }

    fn with_draft_cap(mut self, drafts: usize) -> Fixture {
        if let Some(p) = self.public.as_mut() {
            p.max_daily_drafts = drafts;
        }
        self
    }

    fn credentials(&self, req: &Req) -> Credentials {
        let files = self.store.files.borrow();
        let minted: Vec<DaemonKey> = files
            .roster
            .daemons
            .iter()
            .filter(|d| !d.revoked)
            .map(|d| DaemonKey { label: d.label.clone(), key_hash: d.key_hash.clone() })
            .collect();
        let daemon_keys = if minted.is_empty() {
            self.daemon_keys
                .iter()
                .map(|d| DaemonKey { label: d.label.clone(), key_hash: d.key_hash.clone() })
                .collect()
        } else {
            minted
        };
        let account = req.cookie_token.as_deref().and_then(|t| files.accounts.session_for(t));
        let login = account.and_then(|a| a.login.clone());
        Credentials {
            bearer_hash: req.bearer.as_deref().map(hash),
            daemon_keys,
            session: account.map(|a| SessionAccount { id: a.id.clone(), login: a.login.clone() }),
            is_admin: Some(login.as_deref().is_some_and(|l| files.admin.is(l))),
            owner: Some(login.as_deref().and_then(|l| files.roster.owner_for(l)).map(|o| {
                OwnerRecord { login: o.login.clone(), repos: o.repos.clone() }
            })),
        }
    }

    fn allow(&mut self, bucket: Bucket) -> bool {
        let (name, limit) = match bucket {
            Bucket::Credential(key) => (format!("c:{key}"), 240),
            Bucket::AnonPrivate => ("private".to_string(), 20),
            Bucket::PublicWrite => ("write".to_string(), 30),
            Bucket::PublicRead => ("read".to_string(), 600),
        };
        let minute = self.now_ms / 60_000;
        let n = self.counts.entry(format!("{name}@{minute}")).or_insert(0);
        *n += 1;
        *n <= limit
    }

    fn go(&mut self, req: &Req) -> Res {
        self.serve(req, false)
    }

    fn go_rechecking(&mut self, req: &Req) -> Res {
        self.serve(req, true)
    }

    fn copy_public(&self) -> Option<PublicConfig> {
        self.public.as_ref().map(|p| PublicConfig {
            repos: Repos { names: p.repos.names.clone() },
            site_name: p.site_name.clone(),
            base_url: p.base_url.clone(),
            github: None,
            ..*p
        })
    }

    fn serve(&mut self, req: &Req, rechecking: bool) -> Res {
        let mut ctx = Ctx {
            store: self.store.requests.replace(Store::open("")),
            unreadable: Vec::new(),
            credentials: self.credentials(req),
            allowed: true,
            rechecking,
            now_ms: self.now_ms,
            public: self.copy_public(),
            strings: strings(req.locale()),
            minted: self.minted,
        };
        let digest = counted(&ctx).map(|who| hash(&who)).unwrap_or_default();
        ctx.allowed = match budget(&ctx, &digest, req) {
            Some(bucket) => self.allow(bucket),
            None => true,
        };
        let answer = handle(&mut ctx, req);
        self.minted = ctx.minted;
        *self.store.requests.borrow_mut() = ctx.store;
        let res = match answer {
            Answer::Reply(res) => res,
            Answer::Polled { seen, res } => {
                self.seen.push((seen.by, seen.repos));
                res
            }
            Answer::Ask(ask) => self.ask(req, ask),
        };
        self.render(res)
    }

    fn render(&self, mut res: Res) -> Res {
        if let Some(asset) = res.asset {
            res.body = match asset {
                Asset::Index => format!(
                    "<!doctype html><html lang=\"en\"><script src=\"{SCRIPT_PATH}\"></script></html>"
                ),
                Asset::NotFound => "<!doctype html><html lang=\"en\">not found</html>".to_string(),
                _ => String::new(),
            };
        }
        let body = match &res.payload {
            None => return res,
            Some(Payload::Me { caller, offered }) => me(caller, offered),
            Some(Payload::Reviewed { requests, artifacts }) => {
                let parts: Vec<String> =
                    requests.iter().map(|r| self.review(r, *artifacts, true)).collect();
                format!("[{}]", parts.join(","))
            }
            Some(Payload::Review { request, artifacts, coverage }) => {
                self.review(request, *artifacts, *coverage)
            }
            Some(Payload::Filings { requests, show_spec, locale }) => {
                let parts: Vec<String> =
                    requests.iter().map(|r| filed(r, *show_spec, *locale)).collect();
                format!("[{}]", parts.join(","))
            }
            Some(Payload::Filing { request, show_spec, locale }) => {
                filed(request, *show_spec, *locale)
            }
            Some(Payload::Work { item }) => obj(&[("id", &item.id), ("text", &item.text)]),
            Some(Payload::Idle) => "{}".to_string(),
        };
        res.body = body;
        res
    }

    fn coverage(&self, repo: &str) -> &'static str {
        if self.seen.is_empty() {
            "no-daemon-seen"
        } else if self.seen.iter().any(|(_, r)| r.is_empty() || r.iter().any(|n| n == repo)) {
            "served"
        } else {
            "unserved"
        }
    }

    fn review(&self, r: &Request, artifacts: bool, coverage: bool) -> String {
        let mut parts = vec![
            format!("\"id\":{}", text(&r.id)),
            format!("\"text\":{}", text(&r.text)),
            format!("\"repo\":{}", text(&r.repo)),
            format!("\"state\":{}", text(r.state.label())),
            format!("\"spec\":{}", r.spec_text().map_or("null".to_string(), text)),
            format!(
                "\"spec_digest\":{}",
                r.spec_digest().map_or("null".to_string(), |d| text(&d))
            ),
        ];
        if artifacts {
            let dir = r.artifact_dir.as_deref().unwrap_or("");
            parts.push(format!("\"artifact_dir\":{}", text(dir)));
        }
        if coverage {
            parts.push(format!("\"coverage\":{}", text(self.coverage(&r.repo))));
        }
        format!("{{{}}}", parts.join(","))
    }

    // -- what the routes ask for ------------------------------------------------

    fn ask(&mut self, req: &Req, ask: Ask) -> Res {
        match ask {
            Ask::Catalogue { locale, choose } => {
                let body = catalogue(locale);
                let digest = hash(&body);
                if choose {
                    api_set_language(self.public.as_ref(), locale, &body, &digest)
                } else {
                    api_ui_strings(&body, &digest, req.if_none_match.as_deref())
                }
            }
            Ask::SetupState => {
                let state = self.claim_state(req);
                api_setup_state(Ok(state), self.public.as_ref(), MIN_PASSWORD)
            }
            Ask::SpendCode { code } => self.spend_code(&code),
            Ask::ClaimServer { login, password } => self.claim_server(req, &login, &password),
            Ask::SendLink { email } => self.send_link(&email),
            Ask::CheckPassword { login, password } => self.check_password(req, &login, &password),
            Ask::SignOut { token } => self.sign_out(&token),
            Ask::SpendLink { token, policy } => self.spend_link(req, &token, policy),
            Ask::List(which) => api_admin(Ok(self.listed(which))),
            Ask::ChangeSettings { body } => {
                match api_settings(self.store.settings(), &body) {
                    Err(res) => res,
                    Ok(s) => {
                        self.store.put_settings(&s).unwrap();
                        api_admin(Ok(self.listed(AdminList::Settings)))
                    }
                }
            }
            Ask::AddOwner { login, repos } => {
                let valid = valid_email(&login);
                self.change(
                    AdminList::Owners,
                    |_, f| api_add_owner(valid, &repos, f),
                    |r, now| {
                        r.set_owner(&login, &repos, now);
                        true
                    },
                )
            }
            Ask::EnableRepo { name, anyway } => {
                let by = self
                    .seen
                    .iter()
                    .find(|(_, r)| r.iter().any(|n| *n == name))
                    .map(|(by, _)| by.clone());
                let offered = by.is_some();
                self.change(
                    AdminList::Repos,
                    |_, f| api_add_repo(offered, anyway, f),
                    |r, now| {
                        r.enable(&name, by.clone(), now);
                        true
                    },
                )
            }
            Ask::MintDaemon { label } => {
                let key = mint_secret();
                self.change(
                    AdminList::Daemons,
                    |_, f| api_mint_daemon(&label, &key, f),
                    |r, now| {
                        r.set_daemon(&label, &hash(&key), now);
                        true
                    },
                )
            }
            Ask::Revoke { list, id } => {
                if list == Some(AdminList::Accounts) {
                    let mut accounts = self.store.accounts().unwrap();
                    let changed = accounts.revoke(&id);
                    let mut f = ChangeFacts {
                        read: Some(Ok(())),
                        changed: Some(changed),
                        written: None,
                        rendered: None,
                    };
                    if matches!(api_revoke(list, &f), Next::Do(ChangeAction::Write)) {
                        f.written = Some(self.store.put_accounts(&accounts));
                    }
                    f.rendered = Some(Ok(self.listed(AdminList::Accounts)));
                    return match api_revoke(list, &f) {
                        Next::Reply(res) => res,
                        Next::Do(_) => panic!("everything was done"),
                    };
                }
                self.change(
                    list.unwrap_or(AdminList::Repos),
                    |_, f| api_revoke(list, f),
                    |r, _| match list {
                        Some(AdminList::Owners) => r.revoke(&id),
                        Some(AdminList::Daemons) => r.revoke_daemon(&id),
                        _ => r.disable(&id),
                    },
                )
            }
            Ask::Report { by, id, kind } => {
                let received = read_report(kind, &req.body);
                take_report(&mut self.store.requests.borrow_mut(), None, &id, &by, received, now_ms())
            }
        }
    }

    fn listed(&self, which: AdminList) -> String {
        let files = self.store.files.borrow();
        match which {
            AdminList::Settings => format!("{{\"public\":{}}}", files.settings.public),
            AdminList::Accounts => {
                let parts: Vec<String> = files
                    .accounts
                    .accounts
                    .iter()
                    .map(|a| {
                        format!(
                            "{{\"id\":{},\"email_hint\":{},\"revoked\":{}}}",
                            text(&a.id),
                            text(&a.email_hint),
                            a.revoked
                        )
                    })
                    .collect();
                format!("[{}]", parts.join(","))
            }
            other => files.roster.listed(other),
        }
    }

    fn change(
        &mut self,
        which: AdminList,
        step: impl Fn(&Roster, &ChangeFacts) -> Next<ChangeAction>,
        act: impl Fn(&mut Roster, u64) -> bool,
    ) -> Res {
        let mut roster = Roster::default();
        let mut f = ChangeFacts { read: None, changed: None, written: None, rendered: None };
        loop {
            match step(&roster, &f) {
                Next::Reply(res) => return res,
                Next::Do(ChangeAction::Read) => {
                    roster = self.store.roster().unwrap();
                    f.read = Some(Ok(()));
                }
                Next::Do(ChangeAction::Change { administered }) => {
                    f.changed = Some(act(&mut roster, self.now_ms));
                    roster.seeded |= administered;
                }
                Next::Do(ChangeAction::Write) => f.written = Some(self.store.put_roster(&roster)),
                Next::Do(ChangeAction::Render) => f.rendered = Some(Ok(roster.listed(which))),
            }
        }
    }

    fn claim_state(&self, req: &Req) -> ClaimState {
        let admin = self.store.admin().unwrap();
        ClaimState {
            claimed: admin.claimed(),
            setting_up: admin.setting_up(req.cookie_setup.as_deref(), self.now_ms),
        }
    }

    fn spend_code(&mut self, code: &str) -> Res {
        let mut admin = self.store.admin().unwrap();
        let mut f = CodeFacts { claimed: None, token: None, written: None };
        loop {
            match api_spend_code(&f, self.public.as_ref(), CLAIM_TTL_MS / 1000) {
                Next::Reply(res) => return res,
                Next::Do(CodeAction::ReadClaim) => f.claimed = Some(Ok(admin.claimed())),
                Next::Do(CodeAction::Spend) => f.token = Some(admin.spend(code, self.now_ms)),
                Next::Do(CodeAction::WriteClaim) => f.written = Some(self.store.put_admin(&admin)),
            }
        }
    }

    fn claim_server(&mut self, req: &Req, login: &str, password: &str) -> Res {
        let mut admin = self.store.admin().unwrap();
        let mut accounts = self.store.accounts().unwrap();
        let mut f = ClaimFacts {
            state: None,
            valid: None,
            accounts: None,
            session: None,
            accounts_written: None,
            claim_written: None,
            settings: None,
            settings_written: None,
        };
        loop {
            match api_claim(&f, self.public.as_ref()) {
                Next::Reply(res) => return res,
                Next::Do(ClaimAction::ReadClaim) => f.state = Some(Ok(self.claim_state(req))),
                Next::Do(ClaimAction::CheckLogin) => f.valid = Some(valid_email(login)),
                Next::Do(ClaimAction::ReadAccounts) => f.accounts = Some(Ok(())),
                Next::Do(ClaimAction::CreateLogin) => {
                    let made = accounts.create_login(login, password, self.now_ms);
                    f.session = Some(made.map(|a| accounts.open_session(&a.id, self.now_ms)));
                }
                Next::Do(ClaimAction::WriteAccounts) => {
                    f.accounts_written = Some(self.store.put_accounts(&accounts))
                }
                Next::Do(ClaimAction::WriteClaim) => {
                    admin.claim(login, self.now_ms);
                    f.claim_written = Some(self.store.put_admin(&admin));
                }
                Next::Do(ClaimAction::ReadSettings) => f.settings = Some(self.store.settings()),
                Next::Do(ClaimAction::WriteSettings { settings }) => {
                    f.settings_written = Some(self.store.put_settings(&settings));
                }
            }
        }
    }

    fn sign_out(&mut self, token: &str) -> Res {
        let mut accounts = self.store.accounts().unwrap();
        let mut f = SignOutFacts { accounts: None, ended: None, written: None };
        loop {
            match sign_out_step(&f, self.public.as_ref()) {
                Next::Reply(res) => return res,
                Next::Do(SignOutAction::ReadAccounts) => f.accounts = Some(true),
                Next::Do(SignOutAction::EndSession) => {
                    let h = hash(token);
                    let session = accounts.sessions.iter_mut().find(|s| s.token_hash == h);
                    f.ended = Some(session.map(|s| s.revoked = true).is_some());
                }
                Next::Do(SignOutAction::WriteAccounts) => {
                    f.written = Some(self.store.put_accounts(&accounts).is_ok())
                }
            }
        }
    }

    fn send_link(&mut self, raw: &str) -> Res {
        let email = raw.trim().to_ascii_lowercase();
        let mut links = self.store.links().unwrap();
        let mut token = String::new();
        let mut f = LinkFacts {
            valid: None,
            revoked: None,
            outstanding: None,
            issued: None,
            written: None,
            mailed: None,
        };
        loop {
            match try_send_link(&f, self.public.as_ref()) {
                Next::Reply(res) => return res,
                Next::Do(LinkAction::CheckAddress) => f.valid = Some(valid_email(raw)),
                Next::Do(LinkAction::FindAccount) => {
                    let accounts = self.store.accounts().unwrap();
                    let h = hash(&email);
                    f.revoked = Some(Ok(accounts
                        .accounts
                        .iter()
                        .any(|a| a.email_hash.as_deref() == Some(&h) && a.revoked)));
                }
                Next::Do(LinkAction::CountLinks) => f.outstanding = Some(Ok(links.outstanding())),
                Next::Do(LinkAction::Issue) => {
                    token = links.issue(&hash(&email), &email_hint(&email));
                    f.issued = Some(());
                }
                Next::Do(LinkAction::WriteLinks) => f.written = Some(self.store.put_links(&links)),
                Next::Do(LinkAction::Mail) => {
                    let url = link_url(self.public.as_ref().unwrap(), &token);
                    self.mailer.sent.push((email.clone(), format!("Open {url} to sign in.")));
                    f.mailed = Some(true);
                }
            }
        }
    }

    fn spend_link(&mut self, req: &Req, token: &str, policy: Policy) -> Res {
        let mut links = self.store.links().unwrap();
        let mut accounts = self.store.accounts().unwrap();
        let mut found = (String::new(), String::new());
        let mut f = SpendFacts {
            links: None,
            spent: None,
            links_written: None,
            account: None,
            session: None,
            accounts_written: None,
        };
        let words = strings(req.locale());
        loop {
            match complete_sign_in(&f, self.public.as_ref(), req.locale(), &words, policy) {
                Next::Reply(res) => return res,
                Next::Do(SpendAction::ReadLinks) => f.links = Some(Ok(())),
                Next::Do(SpendAction::Spend) => {
                    f.spent = Some(links.consume(token).map(|v| found = v))
                }
                Next::Do(SpendAction::WriteLinks) => {
                    f.links_written = Some(self.store.put_links(&links))
                }
                Next::Do(SpendAction::FindAccount) => {
                    let mine: Vec<&Account> = accounts
                        .accounts
                        .iter()
                        .filter(|a| a.email_hash.as_deref() == Some(&found.0))
                        .collect();
                    f.account = Some(Ok(AccountState {
                        revoked: mine.iter().any(|a| a.revoked),
                        exists: mine.iter().any(|a| !a.revoked && a.login.is_none()),
                        accounts: accounts.accounts.len(),
                    }));
                }
                Next::Do(SpendAction::OpenSession { create }) => {
                    let id = if create {
                        accounts.create(&found.0, &found.1)
                    } else {
                        accounts
                            .accounts
                            .iter()
                            .find(|a| a.email_hash.as_deref() == Some(&found.0))
                            .unwrap()
                            .id
                            .clone()
                    };
                    f.session = Some(accounts.open_session(&id, self.now_ms));
                }
                Next::Do(SpendAction::WriteAccounts) => {
                    f.accounts_written = Some(self.store.put_accounts(&accounts))
                }
            }
        }
    }

    fn check_password(&mut self, req: &Req, login: &str, password: &str) -> Res {
        let mut accounts = self.store.accounts().unwrap();
        let mut id = None;
        let mut f = PasswordFacts {
            accounts: None,
            accepted: None,
            attempt_written: None,
            refreshed: None,
            opened: None,
            session_written: None,
        };
        let words = strings(req.locale());
        let cookie = req.cookie_token.as_deref();
        loop {
            match check_password_for_session(&f, cookie, self.public.as_ref(), &words) {
                Next::Reply(res) => return res,
                Next::Do(PasswordAction::ReadAccounts) => f.accounts = Some(true),
                Next::Do(PasswordAction::Check) => {
                    id = accounts.check_password(login, password, self.now_ms);
                    f.accepted = Some(id.is_some());
                }
                Next::Do(PasswordAction::WriteAttempt) => {
                    f.attempt_written = Some(self.store.put_accounts(&accounts).is_ok())
                }
                Next::Do(PasswordAction::Refresh) => {
                    f.refreshed = Some(accounts.refresh_session(cookie.unwrap(), self.now_ms))
                }
                Next::Do(PasswordAction::Open) => {
                    f.opened = Some(accounts.open_session(id.as_deref().unwrap(), self.now_ms))
                }
                Next::Do(PasswordAction::WriteSession) => {
                    f.session_written = Some(self.store.put_accounts(&accounts).is_ok())
                }
            }
        }
    }

    // -- people -----------------------------------------------------------------

    fn signed_in_with_login(&mut self, login: &str) -> String {
        let mut accounts = self.store.accounts().unwrap();
        let account = accounts
            .create_login(login, "fixture-password", self.now_ms)
            .expect("the fixture picks unused logins");
        let session = accounts.open_session(&account.id, self.now_ms);
        self.store.put_accounts(&accounts).unwrap();
        session
    }

    fn signed_in(&mut self, email: &str) -> String {
        let token = link_token_for(self, email);
        let res = self.go(&Req::post(&format!("{}{token}", public_route::SIGNIN_PREFIX), ""));
        assert_eq!(res.status, 200, "{}", res.body);
        cookie_token(&res).expect("a session was opened")
    }

    fn as_admin(&mut self) -> String {
        let mut admin = self.store.admin().unwrap();
        admin.claim("jamez667@example.test", self.now_ms);
        self.store.put_admin(&admin).unwrap();
        self.signed_in_with_login("jamez667@example.test")
    }

    fn file(&mut self, token: &str, text: &str, repo: &str) -> String {
        let body =
            obj(&[("text", &percent_decode(text)), ("repo", repo), ("kind", "feature")]);
        let res = self.go(&Req::post_json(&api_path("file"), &body).with_cookie(token));
        assert_eq!(res.status, 200, "{}", res.body);
        self.store.all().unwrap().last().unwrap().id.clone()
    }
}

fn me(caller: &Option<Caller>, offered: &[String]) -> String {
    let (role, repos) = match caller {
        Some(Caller::Admin { .. }) => ("administrator", offered.to_vec()),
        Some(Caller::Owner { repos, .. }) => ("owner", repos.clone()),
        Some(Caller::Account { .. }) => ("filer", offered.to_vec()),
        Some(Caller::Daemon { .. }) | None => ("anonymous", Vec::new()),
    };
    let admin = role == "administrator";
    format!(
        "{{\"role\":{},\"can\":{{\"file\":{},\"review\":{},\"accept\":{admin},\"administer\":{admin}}},\"repos\":{}}}",
        text(role),
        admin || role == "filer",
        admin || role == "owner",
        list(&repos)
    )
}

fn filed(r: &Request, show_spec: bool, locale: Locale) -> String {
    let mut parts = vec![
        format!("\"id\":{}", text(&r.id)),
        format!("\"summary\":{}", text(r.summary())),
        format!("\"state\":{}", text(seen_state(r, locale))),
    ];
    if show_spec {
        if let Some(spec) = r.spec_text() {
            parts.push(format!("\"spec\":{}", text(spec)));
        }
    }
    format!("{{{}}}", parts.join(","))
}

fn read_report(kind: ReportKind, body: &str) -> Received {
    let v: serde_json::Value = match serde_json::from_str(body) {
        Ok(v) => v,
        Err(e) => return Received::Unreadable(e.to_string()),
    };
    if v["protocol"] != 1 {
        return Received::Foreign(
            "protocol mismatch: the daemon is older or newer than this server".to_string(),
        );
    }
    let field = |k: &str| v[k].as_str().unwrap_or_default().to_string();
    Received::Read(match kind {
        ReportKind::Drafted => Report::Drafted {
            digest: hash(&field("spec")),
            spec: field("spec"),
            artifact_dir: field("artifact_dir"),
        },
        ReportKind::Failed => Report::Failed { reason: field("reason") },
        ReportKind::Released => Report::Released { reason: field("reason") },
    })
}

fn drafted_body(id: &str, spec: &str, dir: &str) -> String {
    format!(
        "{{\"protocol\":1,\"id\":{},\"spec\":{},\"artifact_dir\":{}}}",
        text(id),
        text(spec),
        text(dir)
    )
}

fn reason_body(id: &str, reason: &str) -> String {
    format!("{{\"protocol\":1,\"id\":{},\"reason\":{}}}", text(id), text(reason))
}

fn drafted(id: &str) -> String {
    format!("{WORK}/{id}/drafted")
}

fn failed(id: &str) -> String {
    format!("{WORK}/{id}/failed")
}

fn released(id: &str) -> String {
    format!("{WORK}/{id}/released")
}

/// A drafted spec, with the digest that approving it takes.
fn spec(text: &str) -> Option<Draft> {
    Some(Draft { text: text.to_string(), digest: hash(text) })
}

fn verb_on(f: &mut Fixture, session: &str, id: &str, verb: &str, body: &str) -> Res {
    f.go(&Req::post_json(&api_path(&format!("requests/{id}/{verb}")), body).with_cookie(session))
}

fn sign_in_with_password(f: &mut Fixture, login: &str, password: &str) -> Res {
    f.go(&Req::post_json(
        &api_path("signin/password"),
        &obj(&[("login", login), ("password", password)]),
    ))
}

fn link_token_for(f: &mut Fixture, email: &str) -> String {
    let asked = f.go(&Req::post_json(&api_path("signin"), &obj(&[("email", email)])));
    assert_eq!(asked.status, 200, "{}", asked.body);
    let body = f.mailer.last_body().expect("a link was emailed");
    body.split(public_route::SIGNIN_PREFIX)
        .nth(1)
        .and_then(|rest| rest.split_whitespace().next())
        .expect("the body carries a link")
        .to_string()
}

fn mint_daemon(f: &mut Fixture, admin: &str, label: &str) -> String {
    let res = f.go(&Req::post_json(&api_path("daemons"), &obj(&[("label", label)])).with_cookie(admin));
    assert_eq!(res.status, 200, "{}", res.body);
    let minted: serde_json::Value = serde_json::from_str(&res.body).unwrap();
    minted["key"].as_str().expect("minting hands the key back").to_string()
}

fn cookie_token(res: &Res) -> Option<String> {
    let raw = res.set_cookie.as_ref()?;
    let value = raw.trim_start_matches(&format!("{COOKIE}=")).split(';').next()?;
    (!value.is_empty()).then(|| value.to_string())
}

fn api_post(path: &str, body: &str) -> Req {
    Req::post_json(path, body)
}

/// What a poll was answered.
#[derive(Debug)]
enum PollResponse {
    Work { item: Item },
    Idle,
}

#[derive(Debug)]
struct Item {
    id: String,
    text: String,
    repo: String,
    kind: IntakeKind,
    send_back_note: Option<String>,
}

fn polled(res: &Res) -> PollResponse {
    match &res.payload {
        Some(Payload::Work { item }) => PollResponse::Work {
            item: Item {
                id: item.id.clone(),
                text: item.text.clone(),
                repo: item.repo.clone(),
                kind: item.kind,
                send_back_note: item.send_back_note.clone(),
            },
        },
        Some(Payload::Idle) => PollResponse::Idle,
        _ => panic!("not an answer to a poll: {} {}", res.status, res.body),
    }
}

// ---------------------------------------------------------------------------
// The tests
// ---------------------------------------------------------------------------

#[test]
fn a_daemon_polls_and_gets_work() {
    let mut f = Fixture::new("poll");
    let token = f.as_admin();
    f.file(&token, "add+a+health+check", "alpha");

    let res = f.go(&Req::get(WORK).with_bearer(KEY));
    assert_eq!(res.status, 200);
    let poll = polled(&res);
    match poll {
        PollResponse::Work { item, .. } => {
            assert_eq!(item.repo, "alpha");
            assert_eq!(item.text, "add a health check");
        }
        other => panic!("expected work, got {other:?}"),
    }
}

#[test]
fn an_idle_poll_asks_the_layer_above_to_hold_the_connection() {
    let mut f = Fixture::new("idle");
    let res = f.go(&Req::get(WORK).with_bearer(KEY));
    assert_eq!(res.status, 200);
    assert!(res.hold_for_work, "the handler asks for a long poll");
    let poll = polled(&res);
    assert!(matches!(poll, PollResponse::Idle { .. }));
}

#[test]
fn the_daemon_api_is_closed_to_everyone_but_the_daemon() {
    let mut f = Fixture::new("daemon-closed");
    let token = f.as_admin();

    for req in [
        Req::get(WORK),
        Req::get(WORK).with_bearer("wrong-key"),
        Req::get(WORK).with_cookie(&token),
    ] {
        assert_eq!(f.go(&req).status, 401, "{:?}", req.path);
    }
}

#[test]
fn each_daemon_authenticates_with_its_own_key() {
    let mut f = Fixture::new("two-keys");
    f.daemon_keys = vec![
        daemon_key("laptop", KEY),
        daemon_key("office", OTHER_KEY),
    ];

    for key in [KEY, OTHER_KEY] {
        let res = f.go(&Req::get(WORK).with_bearer(key));
        assert_ne!(res.status, 401, "{key} should be admitted");
    }
    assert_eq!(
        f.go(&Req::get(WORK).with_bearer("neither"))
            .status,
        401
    );
}

#[test]
fn revoking_one_daemons_key_leaves_the_other_working() {
    let mut f = Fixture::new("revoke-one");
    f.daemon_keys = vec![
        daemon_key("laptop", KEY),
        daemon_key("office", OTHER_KEY),
    ];

    f.daemon_keys.retain(|d| d.label != "laptop");

    assert_eq!(
        f.go(&Req::get(WORK).with_bearer(KEY)).status,
        401,
        "the revoked machine is out"
    );
    assert_ne!(
        f.go(&Req::get(WORK).with_bearer(OTHER_KEY))
            .status,
        401,
        "the other machine is untouched"
    );
}

#[test]
fn each_daemon_has_its_own_rate_budget() {
    let bucket = |label: &str| -> Bucket {
        let caller = Caller::Daemon { label: label.into() };
        let digest = hash(identity_of(&caller));
        bucket_for(&Some(caller), &digest, WORK)
    };
    let laptop = bucket("laptop");
    let office = bucket("office");
    assert_ne!(laptop, office);
    assert_eq!(
        laptop,
        Bucket::Credential(hash("laptop")),
        "the label is hashed before it becomes a key"
    );
}

#[test]
fn holding_a_poll_open_does_not_spend_the_daemons_rate_budget() {
    let mut f = Fixture::new("poll-budget");

    for i in 0..500 {
        let res = f.go_rechecking(&Req::get(WORK).with_bearer(KEY));
        assert_ne!(res.status, 429, "re-check {i} was charged to the caller");
    }

    let mut over = 0;
    for _ in 0..400 {
        if f.go(&Req::get(WORK).with_bearer(KEY)).status == 429 {
            over += 1;
        }
    }
    assert!(over > 0, "a real request must still be rate limited");
}

#[test]
fn a_request_nothing_serves_says_so_rather_than_waiting_silently() {
    let mut f = Fixture::new("coverage-in-the-api");
    let token = f.as_admin();
    let id = f.file(&token, "something", "alpha");

    let coverage = |f: &mut Fixture, token: &str| -> String {
        let res = f.go(&Req::get(&format!("/api/v1/ui/requests/{id}")).with_cookie(token));
        assert_eq!(res.status, 200);
        let v: serde_json::Value = serde_json::from_str(&res.body).unwrap();
        v["coverage"].as_str().unwrap_or("absent").to_string()
    };

    assert_eq!(coverage(&mut f, &token), "no-daemon-seen");

    f.go(&Req::get(&format!("{}?repo=beta", WORK)).with_bearer(KEY));
    assert_eq!(coverage(&mut f, &token), "unserved");

    f.go(&Req::get(&format!("{}?repo=alpha", WORK)).with_bearer(KEY));
    assert_eq!(coverage(&mut f, &token), "served");
}

#[test]
fn signing_in_over_json_sets_the_same_session_as_the_form() {
    let mut f = Fixture::new("json-signin");
    f.as_admin();

    let res = f.go(&Req::post_json(
        "/api/v1/ui/signin/password",
        r#"{"login":"jamez667@example.test","password":"fixture-password"}"#,
    ));
    assert_eq!(res.status, 200, "{}", res.body);

    let cookie = res.set_cookie.clone().expect("a session");
    assert!(cookie.contains("HttpOnly"), "not readable from script");
    assert!(
        cookie.contains("SameSite=Strict"),
        "a session is never sent along from another site"
    );

    let token = cookie_token(&res).expect("a session was opened");
    let me = f.go(&Req::get("/api/v1/ui/me").with_cookie(&token));
    assert!(
        me.body.contains("administrator"),
        "the session the JSON endpoint opened is a real one: {}",
        me.body
    );
}

#[test]
fn a_refused_password_says_the_same_thing_however_it_was_wrong() {
    let mut f = Fixture::new("json-signin-refused");
    f.as_admin();

    let wrong_password = f.go(&Req::post_json(
        "/api/v1/ui/signin/password",
        r#"{"login":"jamez667@example.test","password":"not it"}"#,
    ));
    let no_such_login = f.go(&Req::post_json(
        "/api/v1/ui/signin/password",
        r#"{"login":"nobody@example.test","password":"not it"}"#,
    ));

    assert_eq!(wrong_password.status, 401);
    assert_eq!(no_such_login.status, 401);
    assert_eq!(
        wrong_password.body, no_such_login.body,
        "these two must be indistinguishable"
    );
    assert!(
        wrong_password.set_cookie.is_none(),
        "a refusal hands out nothing"
    );
}

#[test]
fn signing_out_over_json_revokes_rather_than_forgetting() {
    let mut f = Fixture::new("json-signout").with_public(false);
    let session = f.signed_in("filer@example.test");

    let res = f.go(&Req::post_json("/api/v1/ui/signout", "{}").with_cookie(&session));
    assert_eq!(res.status, 200, "{}", res.body);
    assert!(
        res.set_cookie
            .as_deref()
            .unwrap_or_default()
            .contains("Max-Age=0"),
        "the browser is told to drop it too"
    );

    let after = f.go(&Req::get("/api/v1/ui/me").with_cookie(&session));
    assert!(
        after.body.contains("anonymous"),
        "the revoked session must not still identify anybody: {}",
        after.body
    );
}

#[test]
fn asking_for_a_link_over_json_cannot_be_used_to_find_accounts() {
    let mut f = Fixture::new("json-link").with_public(false);
    f.signed_in("known@example.test");

    let known = f.go(&Req::post_json(
        "/api/v1/ui/signin",
        r#"{"email":"known@example.test"}"#,
    ));
    let unknown = f.go(&Req::post_json(
        "/api/v1/ui/signin",
        r#"{"email":"stranger@example.test"}"#,
    ));

    assert_eq!(known.status, unknown.status);
    assert_eq!(
        known.body, unknown.body,
        "whether an address has an account must not be readable from here"
    );
}

#[test]
fn a_filer_can_file_through_the_json_api() {
    let mut f = Fixture::new("json-file").with_public(false);
    let session = f.signed_in("filer@example.test");

    let res = f.go(&Req::post_json(
        "/api/v1/ui/file",
        r#"{"text":"the export button does nothing","kind":"bug"}"#,
    )
    .with_cookie(&session));
    assert_eq!(res.status, 200, "{}", res.body);

    let stored = f.store.all().unwrap();
    assert_eq!(stored.len(), 1);
    assert_eq!(stored[0].text, "the export button does nothing");

    assert!(!res.body.contains("artifact_dir"), "{}", res.body);
    assert!(!res.body.contains("\"repo\""), "{}", res.body);
}

#[test]
fn filing_over_json_refuses_a_repository_this_surface_does_not_serve() {
    let mut f = Fixture::new("json-file-repo").with_public(false);
    let session = f.signed_in("filer@example.test");

    let res = f.go(&Req::post_json(
        "/api/v1/ui/file",
        r#"{"text":"something","kind":"bug","repo":"not-served"}"#,
    )
    .with_cookie(&session));
    assert_eq!(res.status, 400, "{}", res.body);
    assert!(f.store.all().unwrap().is_empty(), "nothing was written");
}

#[test]
fn the_administrator_files_over_json_without_the_filers_limits() {
    let mut f = Fixture::new("json-file-admin")
        .with_public(false)
        .with_caps(1, 20);
    let admin = f.as_admin();

    for n in 0..3 {
        let res = f.go(&Req::post_json(
            "/api/v1/ui/file",
            &format!(r#"{{"text":"admin request {n}","repo":"anything-at-all","kind":"bug"}}"#),
        )
        .with_cookie(&admin));
        assert_eq!(res.status, 200, "filing {n}: {}", res.body);
    }
    assert_eq!(f.store.all().unwrap().len(), 3, "the cap did not apply");

    assert_eq!(f.store.all().unwrap()[0].repo, "anything-at-all");

    let no_repo = f.go(&Req::post_json(
        "/api/v1/ui/file",
        r#"{"text":"where does this go","kind":"bug"}"#,
    )
    .with_cookie(&admin));
    assert_eq!(no_repo.status, 400, "{}", no_repo.body);
}

#[test]
fn filing_over_json_needs_an_account() {
    let mut f = Fixture::new("json-file-anon").with_public(false);

    let res = f.go(&Req::post_json(
        "/api/v1/ui/file",
        r#"{"text":"something","kind":"bug"}"#,
    ));
    assert_eq!(res.status, 404, "{}", res.body);
    assert!(f.store.all().unwrap().is_empty(), "nothing was written");
}

#[test]
fn filing_over_json_is_capped_the_same_as_the_form() {
    let mut f = Fixture::new("json-file-cap")
        .with_public(false)
        .with_caps(3, 20);
    let session = f.signed_in("filer@example.test");

    let cap = 3;
    for n in 0..cap {
        let res = f.go(&Req::post_json(
            "/api/v1/ui/file",
            &format!(r#"{{"text":"request number {n}","kind":"bug"}}"#),
        )
        .with_cookie(&session));
        assert_eq!(res.status, 200, "filing {n} of {cap}: {}", res.body);
    }

    let over = f.go(&Req::post_json(
        "/api/v1/ui/file",
        r#"{"text":"one too many","kind":"bug"}"#,
    )
    .with_cookie(&session));
    assert_eq!(over.status, 429, "{}", over.body);
    assert_eq!(
        f.store.all().unwrap().len(),
        cap,
        "the one over the cap was not written"
    );
}

#[test]
fn the_client_knows_exactly_the_paths_the_server_serves_a_document_for() {
    for path in [
        public_route::LANDING,
        public_route::FILE,
        public_route::SIGNIN,
        private_route::REVIEW,
        private_route::SETTINGS,
        private_route::REPOS,
        private_route::OWNERS,
        private_route::DAEMONS,
        private_route::ACCOUNTS,
        private_route::SETUP,
    ] {
        assert!(
            wants_document(path),
            "{path} should be served the interface"
        );
    }

    assert!(
        !wants_document("/public/signin/sometoken"),
        "the magic-link landing is server-rendered"
    );
}

#[test]
fn a_language_can_be_read_before_the_server_has_an_address() {
    let mut f = Fixture::new("lang-before-address");

    let mut choose = api_post("/api/v1/ui/language", r#"{"lang":"fr"}"#);
    choose.origin = Some("http://somewhere.example".into());
    let chosen = f.go(&choose);
    assert_eq!(chosen.status, 403, "{}", chosen.body);

    let read = f.go(&Req::get("/api/v1/ui/strings?lang=fr"));
    assert_eq!(read.status, 200, "{}", read.body);
    let body: serde_json::Value = serde_json::from_str(&read.body).unwrap();
    assert_eq!(body["locale"], "fr");

    let unknown = f.go(&Req::get("/api/v1/ui/strings?lang=de"));
    assert_eq!(unknown.status, 200, "{}", unknown.body);
    let body: serde_json::Value = serde_json::from_str(&unknown.body).unwrap();
    assert_eq!(body["locale"], "en");
}

#[test]
fn released_work_is_requeued_rather_than_failed() {
    let mut f = Fixture::new("released-route");
    let token = f.as_admin();
    let id = f.file(&token, "something", "alpha");
    f.go(&Req::get(WORK).with_bearer(KEY));

    let payload = reason_body(&id, "no such repo here");
    let res = f.go(&Req::post(&released(&id), &payload).with_bearer(KEY));
    assert_eq!(res.status, 200);

    let r = f.store.get(&id).unwrap().unwrap();
    assert_eq!(r.state, RequestState::Queued);
    assert!(r.note.unwrap().contains("no such repo here"));
}

#[test]
fn two_daemons_serving_different_repositories_both_get_work() {
    let mut f = Fixture::new("two-daemons");
    f.daemon_keys = vec![
        daemon_key("laptop", KEY),
        daemon_key("office", OTHER_KEY),
    ];
    let token = f.as_admin();
    let alpha = f.file(&token, "something+for+alpha", "alpha");
    let beta = f.file(&token, "something+for+beta", "beta");

    let claim = |f: &mut Fixture, key: &str, repo: &str| -> Option<String> {
        let res =
            f.go(&Req::get(&format!("{}?repo={repo}", WORK)).with_bearer(key));
        let parsed = polled(&res);
        match parsed {
            PollResponse::Work { item, .. } => Some(item.id),
            PollResponse::Idle { .. } => None,
        }
    };

    assert_eq!(claim(&mut f, OTHER_KEY, "beta").as_deref(), Some(&beta[..]));
    assert_eq!(
        claim(&mut f, KEY, "alpha").as_deref(),
        Some(&alpha[..]),
        "alpha was still there for the daemon that serves it"
    );
}

#[test]
fn a_daemon_is_never_handed_a_repository_it_did_not_declare() {
    let mut f = Fixture::new("undeclared");
    let token = f.as_admin();
    f.file(&token, "something+for+alpha", "alpha");

    let res = f.go(&Req::get(&format!("{}?repo=beta", WORK)).with_bearer(KEY));
    let parsed = polled(&res);
    assert!(
        matches!(parsed, PollResponse::Idle { .. }),
        "a daemon serving only beta must not be given alpha"
    );
    assert_eq!(
        f.store.all().unwrap()[0].state,
        RequestState::Queued
    );
}

#[test]
fn a_daemon_that_declares_nothing_still_gets_work() {
    let mut f = Fixture::new("declares-nothing");
    let token = f.as_admin();
    let id = f.file(&token, "anything", "alpha");

    let res = f.go(&Req::get(WORK).with_bearer(KEY));
    let parsed = polled(&res);
    match parsed {
        PollResponse::Work { item, .. } => assert_eq!(item.id, id),
        PollResponse::Idle { .. } => panic!("an un-upgraded daemon must keep working"),
    }
}

#[test]
fn a_drafted_spec_comes_back_and_the_request_awaits_review() {
    let mut f = Fixture::new("drafted");
    let token = f.as_admin();
    let id = f.file(&token, "add+a+health+check", "alpha");
    f.go(&Req::get(WORK).with_bearer(KEY));

    let payload =
        drafted_body(&id, "# Spec", "specs/health");
    let res = f.go(&Req::post(&drafted(&id), &payload).with_bearer(KEY));
    assert_eq!(res.status, 200, "{}", res.body);

    let req = f.store.require(&id).unwrap();
    assert_eq!(req.state, RequestState::AwaitingReview);
    assert_eq!(req.spec_text(), Some("# Spec"));
}

#[test]
fn a_failure_is_recorded_with_its_reason() {
    let mut f = Fixture::new("failed");
    let token = f.as_admin();
    let id = f.file(&token, "something", "alpha");
    f.go(&Req::get(WORK).with_bearer(KEY));

    let payload =
        reason_body(&id, "the backend was unreachable");
    let res = f.go(&Req::post(&failed(&id), &payload).with_bearer(KEY));
    assert_eq!(res.status, 200, "{}", res.body);
    assert_eq!(f.store.require(&id).unwrap().state, RequestState::Failed);
}

#[test]
fn a_protocol_mismatch_is_a_clear_message_not_a_parse_error() {
    let mut f = Fixture::new("skew");
    let token = f.as_admin();
    let id = f.file(&token, "something", "alpha");

    let payload = format!(
        "{{\"protocol\":99,\"id\":{id:?},\"spec\":\"# S\",\"artifact_dir\":\"specs/x\"}}"
    );
    let res = f.go(&Req::post(&drafted(&id), &payload).with_bearer(KEY));
    assert_eq!(res.status, 400);
    assert!(res.body.contains("protocol mismatch"), "{}", res.body);
    assert!(res.body.contains("older"), "{}", res.body);
}

#[test]
fn revoking_a_filer_stops_them_on_the_very_next_request() {
    let mut f = Fixture::new("revoke-cached").with_public(false);
    let session = f.signed_in("jo@x.com");
    let admin = f.as_admin();

    let before = f.go(&Req::get(ME_PATH).with_cookie(&session));
    assert!(before.body.contains("\"filer\""), "{}", before.body);

    let id = f
        .store
        .accounts()
        .unwrap()
        .live()
        .iter()
        .find(|a| a.email_hint.contains("jo"))
        .expect("the filer")
        .id
        .clone();
    let res = f.go(
        &Req::post_json(&api_path(&format!("accounts/{id}/revoke")), "{}").with_cookie(&admin),
    );
    assert_eq!(res.status, 200, "{}", res.body);

    let after = f.go(&Req::get(ME_PATH).with_cookie(&session));
    assert!(
        after.body.contains("\"anonymous\""),
        "a revoked filer was still signed in: {}",
        after.body
    );
}

#[test]
fn a_session_opened_this_instant_works_immediately() {
    let mut f = Fixture::new("signup-cached").with_public(false);
    let session = f.signed_in("new@x.com");
    let me = f.go(&Req::get(ME_PATH).with_cookie(&session));
    assert!(
        me.body.contains("\"filer\""),
        "a session opened this instant did not work: {}",
        me.body
    );
}

#[test]
fn a_minted_key_is_shown_once_and_then_only_its_hash_is_kept() {
    let mut f = Fixture::new("daemon-mint").with_public(false);
    let admin = f.as_admin();

    let res = f
        .go(&Req::post_json(&api_path("daemons"), r#"{"label":"laptop"}"#).with_cookie(&admin));
    assert_eq!(res.status, 200, "{}", res.body);
    let minted: serde_json::Value = serde_json::from_str(&res.body).unwrap();
    let key = minted["key"]
        .as_str()
        .expect("the key comes back")
        .to_string();

    let roster = f.store.roster().unwrap();
    let record = roster
        .daemons
        .iter()
        .find(|d| d.label == "laptop")
        .expect("minted");
    assert!(!record.revoked);
    assert!(
        !res.body.contains(&record.key_hash),
        "the hash is not handed out beside the key"
    );

    let again = f.go(&Req::get(&api_path("daemons")).with_cookie(&admin));
    assert_eq!(again.status, 200, "{}", again.body);
    assert!(
        !again.body.contains(&key),
        "the key was readable a second time: {}",
        again.body
    );

    let raw = f.store.raw_roster();
    assert!(raw.contains(&record.key_hash), "the hash is stored");
    assert!(!raw.contains(&key), "the key itself never lands on disk");
}

#[test]
fn a_minted_key_lets_that_machine_claim_and_a_revoked_one_cannot() {
    let mut f = Fixture::new("daemon-claim").with_public(false);
    let admin = f.as_admin();
    f.daemon_keys = Vec::new();

    let key = mint_daemon(&mut f, &admin, "laptop");

    assert_eq!(
        f.go(&Req::get(WORK).with_bearer(&key)).status,
        200,
        "a freshly minted key could not claim"
    );

    let res =
        f.go(&Req::post_json(&api_path("daemons/laptop/revoke"), "{}").with_cookie(&admin));
    assert_eq!(res.status, 200, "{}", res.body);

    assert_eq!(
        f.go(&Req::get(WORK).with_bearer(&key)).status,
        401,
        "a revoked machine could still claim"
    );
}

#[test]
fn re_minting_rotates_rather_than_adding_a_second_credential() {
    let mut f = Fixture::new("daemon-rotate").with_public(false);
    let admin = f.as_admin();
    f.daemon_keys = Vec::new();

    let first = mint_daemon(&mut f, &admin, "laptop");
    let second = mint_daemon(&mut f, &admin, "laptop");
    assert_ne!(first, second);

    let roster = f.store.roster().unwrap();
    assert_eq!(roster.daemons.len(), 1, "two records for one machine");
    assert_eq!(
        f.go(&Req::get(WORK).with_bearer(&second))
            .status,
        200
    );
    assert_eq!(
        f.go(&Req::get(WORK).with_bearer(&first))
            .status,
        401,
        "the rotated-away key still worked"
    );
}

#[test]
fn an_owner_cannot_mint_or_revoke_a_machine() {
    let (mut f, session, _mine, _theirs) = owner_fixture("daemon-owner");
    assert_eq!(
        f.go(&Req::get(&api_path("daemons")).with_cookie(&session))
            .status,
        404
    );
    for (rest, body) in [
        ("daemons", r#"{"label":"theirs"}"#),
        ("daemons/laptop/revoke", "{}"),
    ] {
        let res = f.go(&Req::post_json(&api_path(rest), body).with_cookie(&session));
        assert_eq!(res.status, 404, "an owner reached {rest}: {}", res.body);
    }
    assert!(
        f.store.roster().unwrap().daemons.is_empty(),
        "an owner minted a machine key"
    );
}

#[test]
fn a_machine_name_that_would_not_read_back_is_refused() {
    let mut f = Fixture::new("daemon-label").with_public(false);
    let admin = f.as_admin();
    for bad in ["", "has spaces", "slash/es", "../..", &"x".repeat(65)] {
        let res = f.go(&Req::post_json(
            &api_path("daemons"),
            &obj(&[("label", bad)]),
        )
        .with_cookie(&admin));
        assert_eq!(res.status, 400, "accepted {bad:?}: {}", res.body);
    }
    assert!(f.store.roster().unwrap().daemons.is_empty());
}

#[test]
fn a_surface_with_no_mail_provider_says_so_rather_than_taking_an_address() {
    let mut f = Fixture::new("no-mail").with_public(false);
    if let Some(p) = f.public.as_mut() {
        p.mail = false;
    }

    let res = f.go(&Req::post_json(
        &api_path("signin"),
        r#"{"email":"jo@x.com"}"#,
    ));
    assert_eq!(res.status, 503, "{}", res.body);
    assert!(
        f.store.links().unwrap().links.is_empty(),
        "a link was minted"
    );

    let mut f = Fixture::new("with-mail").with_public(false);
    let res = f.go(&Req::post_json(
        &api_path("signin"),
        r#"{"email":"jo@x.com"}"#,
    ));
    assert_eq!(res.status, 200, "{}", res.body);
    assert_eq!(f.mailer.count(), 1, "and the link was actually sent");
}

#[test]
fn the_public_surface_is_turned_on_from_the_settings_api() {
    let mut f = Fixture::new("settings-public").with_public(false);
    let admin = f.as_admin();

    assert!(!f.store.settings().unwrap().public);

    let res =
        f.go(&Req::post_json(&api_path("settings"), r#"{"public":true}"#).with_cookie(&admin));
    assert_eq!(res.status, 200, "{}", res.body);
    assert!(f.store.settings().unwrap().public);

    let res =
        f.go(&Req::post_json(&api_path("settings"), r#"{"public":false}"#).with_cookie(&admin));
    assert_eq!(res.status, 200, "{}", res.body);
    assert!(!f.store.settings().unwrap().public);
}

#[test]
fn a_cap_can_be_raised_without_a_restart() {
    let mut f = Fixture::new("settings-caps").with_public(false);
    let admin = f.as_admin();

    let res = f.go(
        &Req::post_json(&api_path("settings"), r#"{"max_daily_filings":7}"#)
            .with_cookie(&admin),
    );
    assert_eq!(res.status, 200, "{}", res.body);
    assert_eq!(f.store.settings().unwrap().max_daily_filings, Some(7));

    let res = f.go(
        &Req::post_json(&api_path("settings"), r#"{"max_daily_filings":null}"#)
            .with_cookie(&admin),
    );
    assert_eq!(res.status, 200, "{}", res.body);
    assert_eq!(f.store.settings().unwrap().max_daily_filings, None);

    f.go(
        &Req::post_json(&api_path("settings"), r#"{"max_daily_filings":7}"#)
            .with_cookie(&admin),
    );
    let res = f.go(
        &Req::post_json(&api_path("settings"), r#"{"max_accounts":2}"#).with_cookie(&admin),
    );
    assert_eq!(res.status, 200, "{}", res.body);
    let s = f.store.settings().unwrap();
    assert_eq!(s.max_accounts, Some(2));
    assert_eq!(
        s.max_daily_filings,
        Some(7),
        "a cap nobody named was overwritten"
    );
}

#[test]
fn an_owner_cannot_reach_the_settings() {
    let (mut f, session, _mine, _theirs) = owner_fixture("settings-owner");
    assert_eq!(
        f.go(&Req::get(&api_path("settings")).with_cookie(&session))
            .status,
        404
    );
    let res = f
        .go(&Req::post_json(&api_path("settings"), r#"{"public":true}"#).with_cookie(&session));
    assert_eq!(res.status, 404, "an owner wrote the settings: {}", res.body);
    assert!(
        !f.store.settings().unwrap().public,
        "and the switch did not move"
    );
}

#[test]
fn an_owner_who_is_also_the_administrator_is_the_administrator() {
    let mut f = Fixture::new("admin-also-owner")
        .with_public(false)
        .with_repos(&["intake"])
        .with_owner("jamez667@example.test", &["intake"]);
    let session = f.as_admin();

    assert_eq!(
        f.go(&Req::get(private_route::REVIEW).with_cookie(&session))
            .status,
        200,
        "the administrator was demoted by the roster"
    );
}

#[test]
fn a_magic_link_account_named_as_the_administrator_grants_nothing() {
    let mut f = Fixture::new("admin-magic-link").with_public(false);
    let mut admin = f.store.admin().unwrap();
    admin.claim("jo@x.com", 1);
    f.store.put_admin(&admin).unwrap();

    let session = f.signed_in("jo@x.com");
    let res = f.go(&Req::get("/api/v1/ui/requests").with_cookie(&session));
    assert_eq!(res.status, 200);
    assert_eq!(res.body, "[]", "a magic-link claim granted review");
    assert_eq!(
        f.go(&Req::get(public_route::FILE).with_cookie(&session))
            .status,
        200
    );
}

#[test]
fn the_administrator_reaches_their_surface_with_no_public_one_configured() {
    let mut f = Fixture::new("admin-no-public");
    assert!(f.public.is_none(), "no public surface at all");
    let session = f.as_admin();

    assert_eq!(
        f.go(&Req::get(private_route::REVIEW).with_cookie(&session))
            .status,
        200
    );
}

#[test]
fn a_stranger_with_a_login_is_not_the_administrator() {
    let mut f = Fixture::new("gh-stranger").with_public(false);
    let mut admin = f.store.admin().unwrap();
    admin.claim("jamez667@example.test", 1);
    f.store.put_admin(&admin).unwrap();

    let session = f.signed_in_with_login("somebody-else@example.test");
    assert_eq!(
        f.go(&Req::get("/api/v1/ui/settings").with_cookie(&session))
            .status,
        404
    );
}

#[test]
fn an_unclaimed_server_has_no_administrator_at_all() {
    let mut f = Fixture::new("unclaimed").with_public(false);
    let session = f.signed_in_with_login("jamez667@example.test");
    assert_eq!(
        f.go(&Req::get("/api/v1/ui/settings").with_cookie(&session))
            .status,
        404
    );
}

#[test]
fn the_private_surface_is_not_found_to_anybody_who_is_not_the_administrator() {
    let mut f = Fixture::new("private-404");
    for path in [
        "/api/v1/ui/accounts",
        "/api/v1/ui/owners",
        "/api/v1/ui/repos",
        "/api/v1/ui/requests/anything",
    ] {
        let res = f.go(&Req::get(path));
        assert_eq!(res.status, 404, "{path}: {}", res.body);
    }
    let res = f.go(&Req::get("/api/v1/ui/requests"));
    assert_eq!(res.status, 200);
    assert_eq!(res.body, "[]", "a stranger reviews nothing");
    assert_eq!(f.go(&Req::post("/owners", "login=x&repos=y")).status, 401);
}

#[test]
fn a_dead_cookie_is_told_where_to_sign_in() {
    let mut f = Fixture::new("dead-cookie").with_public(false);
    let res = f.go(&Req::get(ME_PATH).with_cookie("a-token-that-matches-nothing"));
    assert_eq!(res.status, 200, "{}", res.body);
    assert!(res.body.contains("\"anonymous\""), "{}", res.body);
    assert_eq!(
        f.go(&Req::get("/api/v1/ui/settings").with_cookie("a-token-that-matches-nothing"))
            .status,
        404
    );
}

#[test]
fn filing_a_request_names_a_repository_and_never_a_path() {
    let mut f = Fixture::new("file");
    let token = f.as_admin();
    let id = f.file(&token, "add+a+health+check", "alpha");

    let req = f.store.require(&id).unwrap();
    assert_eq!(req.repo, "alpha");
    assert_eq!(req.state, RequestState::Queued);
    let json = f.go(&Req::get(&api_path(&format!("requests/{id}"))).with_cookie(&token)).body;
    assert!(!json.contains("\"path\""), "{json}");
}

#[test]
fn an_empty_or_oversized_request_is_refused_with_a_reason() {
    let mut f = Fixture::new("file-bad");
    let token = f.as_admin();

    let file = |f: &mut Fixture, text: &str| -> Res {
        f.go(&Req::post_json(
            &api_path("file"),
            &obj(&[("text", text), ("repo", "alpha")]),
        )
        .with_cookie(&token))
    };

    let empty = file(&mut f, "   ");
    assert_eq!(empty.status, 400);

    let over = file(&mut f, &"word ".repeat(MAX_WORDS + 10));
    assert_eq!(over.status, 400);
    assert!(over.body.contains("words"), "{}", over.body);

    let over = file(&mut f, &"x".repeat(MAX_BYTES + 1));
    assert_eq!(over.status, 400);
    assert!(over.body.contains("characters"), "{}", over.body);
}

#[test]
fn the_length_limit_is_the_same_on_every_filing_path() {
    assert!(check_length("a short request").is_ok());
    assert!(check_length(&"word ".repeat(MAX_WORDS)).is_ok());
    assert!(check_length(&"word ".repeat(MAX_WORDS + 1)).is_err());
    assert!(check_length(&"x".repeat(MAX_BYTES + 1)).is_err());

    let realistic =
        "the health check returns 200 while the database is down ".repeat(MAX_WORDS / 10);
    assert!(
        check_length(&realistic).is_ok(),
        "{} bytes",
        realistic.len()
    );
}

#[test]
fn every_intake_kind_is_accepted_and_an_unknown_one_defaults() {
    let mut f = Fixture::new("kinds");
    let token = f.as_admin();
    for (slug, expected) in [
        ("bug", IntakeKind::Bug),
        ("feature", IntakeKind::Feature),
        ("improvement", IntakeKind::Improvement),
        ("feedback", IntakeKind::Feedback),
        ("nonsense", IntakeKind::Feature),
    ] {
        let body =
            obj(&[("text", "a thing"), ("repo", "alpha"), ("kind", slug)]);
        let res = f.go(&Req::post_json(&api_path("file"), &body).with_cookie(&token));
        assert_eq!(res.status, 200, "{slug}: {}", res.body);
        let last = f.store.all().unwrap().last().unwrap().clone();
        assert_eq!(last.kind, expected, "{slug}");
    }
}

fn digest_for(f: &mut Fixture, token: &str, id: &str) -> String {
    let res = f.go(&Req::get(&api_path(&format!("requests/{id}"))).with_cookie(token));
    assert_eq!(res.status, 200, "{}", res.body);
    let v: serde_json::Value = serde_json::from_str(&res.body).unwrap();
    v["spec_digest"]
        .as_str()
        .expect("a drafted request carries the digest to accept it with")
        .to_string()
}

fn accept_with(f: &mut Fixture, token: &str, id: &str, digest: &str) -> Res {
    f.go(&Req::post_json(
        &api_path(&format!("requests/{id}/accept")),
        &obj(&[("digest", &digest)]),
    )
    .with_cookie(token))
}

#[test]
fn accepting_binds_to_the_exact_bytes_the_reviewer_read() {
    let mut f = Fixture::new("accept");
    let token = f.as_admin();
    let id = f.file(&token, "a+thing", "alpha");
    f.go(&Req::get(WORK).with_bearer(KEY));
    let payload = drafted_body(&id, "# Spec", "specs/x");
    f.go(&Req::post(&drafted(&id), &payload).with_bearer(KEY));

    let digest = digest_for(&mut f, &token, &id);
    assert_eq!(
        f.store.require(&id).unwrap().state,
        RequestState::AwaitingReview,
        "reading it decides nothing"
    );

    let settled = accept_with(&mut f, &token, &id, &digest);
    assert_eq!(settled.status, 200, "{}", settled.body);
    assert_eq!(f.store.require(&id).unwrap().state, RequestState::Accepted);
}

#[test]
fn an_approval_of_text_that_changed_under_the_reviewer_is_refused() {
    let mut f = Fixture::new("stale");
    let token = f.as_admin();
    let id = f.file(&token, "a+thing", "alpha");
    f.go(&Req::get(WORK).with_bearer(KEY));
    let v1 = drafted_body(&id, "# Version one", "specs/x");
    f.go(&Req::post(&drafted(&id), &v1).with_bearer(KEY));

    let stale = digest_for(&mut f, &token, &id);

    f.go(&Req::post_json(
        &api_path(&format!("requests/{id}/send-back")),
        r#"{"note":"redo"}"#,
    )
    .with_cookie(&token));
    f.go(&Req::get(WORK).with_bearer(KEY));
    let v2 = drafted_body(&id, "# Version two", "specs/x");
    f.go(&Req::post(&drafted(&id), &v2).with_bearer(KEY));

    let refused = accept_with(&mut f, &token, &id, &stale);
    assert_eq!(refused.status, 400, "{}", refused.body);
    assert!(refused.body.contains("changed"), "{}", refused.body);
    assert_eq!(
        f.store.require(&id).unwrap().state,
        RequestState::AwaitingReview,
        "left reviewable rather than half-decided"
    );
}

#[test]
fn an_accept_with_no_digest_at_all_is_refused() {
    let mut f = Fixture::new("no-digest");
    let token = f.as_admin();
    let id = f.file(&token, "a+thing", "alpha");
    f.go(&Req::get(WORK).with_bearer(KEY));
    let payload = drafted_body(&id, "# Spec", "specs/x");
    f.go(&Req::post(&drafted(&id), &payload).with_bearer(KEY));

    for body in ["{}", r#"{"digest":""}"#, r#"{"digest":"nonsense"}"#] {
        let res = f.go(
            &Req::post_json(&api_path(&format!("requests/{id}/accept")), body)
                .with_cookie(&token),
        );
        assert_eq!(res.status, 400, "{body:?}: {}", res.body);
    }
    assert_eq!(
        f.store.require(&id).unwrap().state,
        RequestState::AwaitingReview
    );
}

#[test]
fn asking_to_approve_something_with_no_draft_is_refused() {
    let mut f = Fixture::new("ask-nodraft");
    let token = f.as_admin();
    let id = f.file(&token, "a+thing", "alpha");

    let read = f.go(&Req::get(&api_path(&format!("requests/{id}"))).with_cookie(&token));
    assert_eq!(read.status, 200, "{}", read.body);
    let v: serde_json::Value = serde_json::from_str(&read.body).unwrap();
    assert!(
        v["spec_digest"].is_null(),
        "a request with no draft offered something to accept: {}",
        read.body
    );

    let res = accept_with(&mut f, &token, &id, "anything-at-all");
    assert_eq!(res.status, 400, "{}", res.body);

    let missing = f.go(&Req::get(&api_path("requests/nope")).with_cookie(&token));
    assert_eq!(missing.status, 404, "{}", missing.body);
}

#[test]
fn sending_back_requeues_it_with_the_note() {
    let mut f = Fixture::new("send-back");
    let token = f.as_admin();
    let id = f.file(&token, "a+thing", "alpha");
    f.go(&Req::get(WORK).with_bearer(KEY));
    let payload = drafted_body(&id, "# Vague", "specs/x");
    f.go(&Req::post(&drafted(&id), &payload).with_bearer(KEY));

    let res = f.go(&Req::post_json(
        &api_path(&format!("requests/{id}/send-back")),
        r#"{"note":"name the actual roles"}"#,
    )
    .with_cookie(&token));
    assert_eq!(res.status, 200, "{}", res.body);
    let req = f.store.require(&id).unwrap();
    assert_eq!(req.state, RequestState::Queued);
    assert_eq!(req.send_back_note.as_deref(), Some("name the actual roles"));

    let res = f.go(&Req::get(WORK).with_bearer(KEY));
    let poll = polled(&res);
    match poll {
        PollResponse::Work { item, .. } => assert_eq!(
            item.send_back_note.as_deref(),
            Some("name the actual roles")
        ),
        other => panic!("expected work, got {other:?}"),
    }
}

#[test]
fn the_browser_cannot_reach_a_route_that_builds_because_there_is_none() {
    let mut f = Fixture::new("no-build");
    let token = f.as_admin();
    let id = f.file(&token, "a+thing", "alpha");

    for verb in ["build", "run", "implement", "merge", "deploy"] {
        let res = f.go(
            &Req::post_json(&api_path(&format!("requests/{id}/{verb}")), "{}")
                .with_cookie(&token),
        );
        assert_eq!(res.status, 404, "{verb} must not exist: {}", res.body);
    }
    assert_eq!(
        f.store.require(&id).unwrap().state,
        RequestState::Queued,
        "a refused verb still moved the request"
    );
}

const POLICIES: [Policy; 2] = [Policy::Strict, Policy::PublicScript];

#[test]
fn the_three_headers_spec_18_names_are_all_present() {
    for policy in POLICIES {
        let headers = security_headers(policy);
        let named: Vec<&str> = headers.iter().map(|(k, _)| *k).collect();
        for required in [
            "Referrer-Policy",
            "Cache-Control",
            "Content-Security-Policy",
        ] {
            assert!(named.contains(&required), "{policy:?} missing {required}");
        }
        let referrer = headers
            .iter()
            .find(|(k, _)| *k == "Referrer-Policy")
            .unwrap();
        assert_eq!(referrer.1, "no-referrer", "{policy:?}");
        let cache = headers.iter().find(|(k, _)| *k == "Cache-Control").unwrap();
        assert_eq!(cache.1, "no-store", "{policy:?}");
    }
}

#[test]
fn no_policy_permits_a_remote_subresource() {
    for policy in POLICIES {
        let csp = policy.csp();
        assert!(csp.starts_with("default-src 'none'"), "{policy:?}: {csp}");
        assert!(csp.contains("frame-ancestors 'none'"), "{policy:?}: {csp}");
        assert!(!csp.contains("https:"), "{policy:?} allows a remote: {csp}");
        assert!(!csp.contains("http:"), "{policy:?} allows a remote: {csp}");
        assert!(!csp.contains('*'), "{policy:?} allows a wildcard: {csp}");

        for directive in csp.split(';') {
            let directive = directive.trim();
            let Some((name, sources)) = directive.split_once(' ') else {
                continue;
            };
            for source in sources.split_whitespace() {
                assert!(
                    matches!(source, "'self'" | "'none'" | "'unsafe-inline'"),
                    "{policy:?}: {name} permits {source:?}, which is not same-origin"
                );
            }
        }
        for directive in csp.split(';') {
            let directive = directive.trim();
            if directive.contains("'unsafe-inline'") {
                assert!(
                    directive.starts_with("style-src"),
                    "{policy:?}: {directive:?} is inline-permitting and is not style-src"
                );
            }
        }
    }
}

#[test]
fn only_the_public_policy_permits_script() {
    assert!(!Policy::Strict.csp().contains("script-src"));
    assert!(Policy::PublicScript.csp().contains("script-src 'self'"));
}

#[test]
fn no_policy_permits_an_inline_script() {
    for policy in POLICIES {
        let csp = policy.csp();
        let Some(rest) = csp.split("script-src").nth(1) else {
            continue;
        };
        let directive = rest.split(';').next().unwrap_or("");
        assert!(
            !directive.contains("unsafe-inline"),
            "{policy:?} permits an inline script: {csp}"
        );
    }
}

#[test]
fn a_response_is_strict_unless_something_says_otherwise() {
    assert_eq!(Res::html(200, "x").policy, Policy::Strict);
    assert_eq!(Res::json(200, "{}").policy, Policy::Strict);
    assert_eq!(Policy::default(), Policy::Strict);
}

#[test]
fn a_guessing_loop_is_throttled_before_it_touches_the_store() {
    let mut f = Fixture::new("throttle");
    let mut last = 200;
    for _ in 0..40 {
        last = f.go(&Req::post("/enrol", "code=GUESS&label=x")).status;
    }
    assert_eq!(last, 429, "the guessing loop is cut off");
}

#[test]
fn the_public_routes_do_not_exist_when_the_surface_is_off() {
    let mut f = Fixture::new("public-off");
    assert_eq!(
        f.go(&Req::post_json(
            &api_path("file"),
            r#"{"text":"a thing","kind":"bug"}"#
        ))
        .status,
        404
    );
    let me = f.go(&Req::get(ME_PATH));
    assert!(me.body.contains("\"anonymous\""), "{}", me.body);
    assert!(me.body.contains("\"file\":false"), "{}", me.body);
    assert_eq!(
        f.go(&Req::get("/api/v1/ui/requests/abc")).status,
        404,
        "and there is nothing to read"
    );
    let asked = f.go(&Req::post_json(
        &api_path("signin"),
        r#"{"email":"a@x.com"}"#,
    ));
    assert_ne!(asked.status, 200, "an address was accepted: {}", asked.body);
    assert_eq!(f.mailer.count(), 0, "and nothing was emailed");
    assert!(
        f.store.links().unwrap().links.is_empty(),
        "nor was a link minted"
    );
}

#[test]
fn asking_for_a_link_says_the_same_thing_whatever_happened() {
    let mut f = Fixture::new("signin-uniform").with_public(false);

    let ask = |f: &mut Fixture, email: &str| -> Res {
        f.go(&Req::post_json(
            &api_path("signin"),
            &obj(&[("email", email)]),
        ))
    };
    let fresh = ask(&mut f, "new@x.com");
    let malformed = ask(&mut f, "not-an-email");
    let empty = ask(&mut f, "");

    assert_eq!(fresh.status, 200);
    assert_eq!(fresh.body, malformed.body, "malformed looks identical");
    assert_eq!(fresh.body, empty.body, "so does empty");
    assert_eq!(f.mailer.count(), 1, "only the real address got mail");
}

#[test]
fn a_revoked_account_is_sent_no_mail_and_cannot_sign_back_in() {
    let mut f = Fixture::new("revoked").with_public(false);
    f.signed_in("jo@x.com");

    let mut accounts = f.store.accounts().unwrap();
    let id = accounts.live()[0].id.clone();
    assert!(accounts.revoke(&id));
    f.store.put_accounts(&accounts).unwrap();

    let before = f.mailer.count();
    let res = f.go(&Req::post_json(
        &api_path("signin"),
        r#"{"email":"jo@x.com"}"#,
    ));
    assert_eq!(res.status, 200, "and it is indistinguishable: {}", res.body);
    assert_eq!(f.mailer.count(), before, "silence, not a notification");
}

#[test]
fn a_get_on_a_sign_in_link_consumes_nothing() {
    let mut f = Fixture::new("prefetch").with_public(false);
    let token = link_token_for(&mut f, "jo@x.com");
    let path = format!("{}{token}", public_route::SIGNIN_PREFIX);

    for _ in 0..3 {
        let res = f.go(&Req::get(&path));
        assert_eq!(res.status, 200);
        assert!(res.set_cookie.is_none(), "a GET signs nobody in");
    }
    let res = f.go(&Req::post(&path, ""));
    assert!(cookie_token(&res).is_some(), "still spendable");
}

#[test]
fn a_get_on_a_fabricated_link_looks_exactly_like_a_real_one() {
    let mut f = Fixture::new("oracle").with_public(false);
    let real = link_token_for(&mut f, "jo@x.com");

    let forged = "0".repeat(real.len());

    let genuine = f.go(&Req::get(&format!("{}{real}", public_route::SIGNIN_PREFIX)));
    let fake = f.go(&Req::get(&format!(
        "{}{forged}",
        public_route::SIGNIN_PREFIX
    )));

    assert_eq!(genuine.status, fake.status);
    assert_eq!(
        genuine.body.replace(&real, "T"),
        fake.body.replace(&forged, "T"),
        "the pages differ only by the token echoed into the form"
    );
    assert!(f.store.links().unwrap().peek(&real, f.now_ms).is_some());
}

#[test]
fn a_link_is_single_use() {
    let mut f = Fixture::new("single-use").with_public(false);
    let token = link_token_for(&mut f, "jo@x.com");
    let path = format!("{}{token}", public_route::SIGNIN_PREFIX);

    assert!(cookie_token(&f.go(&Req::post(&path, ""))).is_some());
    let again = f.go(&Req::post(&path, ""));
    assert!(cookie_token(&again).is_none(), "spent");
    assert!(again.body.contains("already been used"), "{}", again.body);
}

#[test]
fn filing_publicly_requires_being_signed_in() {
    let mut f = Fixture::new("public-anon").with_public(false);
    let res = f.go(&Req::post_json(
        &api_path("file"),
        r#"{"text":"a thing","kind":"bug"}"#,
    ));
    assert_eq!(res.status, 404, "{}", res.body);
    assert!(f.store.all().unwrap().is_empty(), "nothing was filed");

    let me = f.go(&Req::get(ME_PATH));
    assert!(me.body.contains("\"file\":false"), "{}", me.body);
}

#[test]
fn a_public_filing_cannot_name_a_repository_nobody_nominated() {
    let mut f = Fixture::new("public-repo").with_public(false);
    let session = f.signed_in("jo@x.com");

    let res = f.go(&Req::post_json(
        &api_path("file"),
        r#"{"text":"a thing","kind":"bug","repo":"secret-repo"}"#,
    )
    .with_cookie(&session));
    assert_eq!(res.status, 400, "{}", res.body);
    assert!(
        f.store.all().unwrap().is_empty(),
        "nothing was filed anywhere"
    );
}

#[test]
fn a_filer_chooses_among_the_nominated_repositories() {
    let mut f = Fixture::new("public-pick")
        .with_public(false)
        .with_repos(&["intake", "memosy"]);
    let session = f.signed_in("jo@x.com");

    let me = f.go(&Req::get(ME_PATH).with_cookie(&session));
    let mine: serde_json::Value = serde_json::from_str(&me.body).unwrap();
    let offered: Vec<&str> = mine["repos"]
        .as_array()
        .expect("a filer is told what they may file against")
        .iter()
        .filter_map(|r| r.as_str())
        .collect();
    assert_eq!(offered, ["intake", "memosy"], "{}", me.body);

    file_publicly_as(&mut f, &session, "a thing", "memosy");
    assert_eq!(f.store.all().unwrap()[0].repo, "memosy");
}

#[test]
fn a_filing_naming_nothing_is_refused_when_there_is_a_choice() {
    let mut f = Fixture::new("public-pick-none")
        .with_public(false)
        .with_repos(&["intake", "memosy"]);
    let session = f.signed_in("jo@x.com");

    let res = f.go(
        &Req::post_json(&api_path("file"), r#"{"text":"a thing","kind":"bug"}"#)
            .with_cookie(&session),
    );
    assert_eq!(res.status, 400, "{}", res.body);
    assert!(f.store.all().unwrap().is_empty());
}

#[test]
fn a_public_filing_takes_the_only_repository_when_there_is_one() {
    let mut f = Fixture::new("public-one-repo").with_public(false);
    let session = f.signed_in("jo@x.com");

    let res = f.go(
        &Req::post_json(&api_path("file"), r#"{"text":"a thing","kind":"bug"}"#)
            .with_cookie(&session),
    );
    assert_eq!(res.status, 200, "{}", res.body);

    let filed = f.store.all().unwrap();
    assert_eq!(filed.len(), 1);
    assert_eq!(filed[0].repo, "intake");
}

#[test]
fn a_public_filing_is_not_claimable_until_it_has_been_screened() {
    let mut f = Fixture::new("public-screened").with_public(true);
    let session = f.signed_in("jo@x.com");
    file_publicly_as(&mut f, &session, "a thing", "intake");

    let filed = f.store.all().unwrap();
    assert_eq!(filed[0].state, RequestState::Screening);
    assert!(
        f.store
            .claim_next(Serves::Anything, "d-test")
            .unwrap()
            .is_none(),
        "no daemon may claim it yet"
    );
}

#[test]
fn with_screening_off_a_filing_queues_honestly_rather_than_pretending() {
    let mut f = Fixture::new("public-unscreened").with_public(false);
    let session = f.signed_in("jo@x.com");
    file_publicly_as(&mut f, &session, "a thing", "intake");

    assert_eq!(f.store.all().unwrap()[0].state, RequestState::Queued);
    assert!(f
        .store
        .claim_next(Serves::Anything, "d-test")
        .unwrap()
        .is_some());
}

#[test]
fn a_filer_cannot_read_another_filers_request() {
    let mut f = Fixture::new("public-isolation").with_public(false);

    let alice = f.signed_in("alice@x.com");
    file_publicly_as(&mut f, &alice, "alice thing", "intake");
    let alice_id = f.store.all().unwrap()[0].id.clone();

    let bob = f.signed_in("bob@x.com");
    let res = f.go(&Req::get(&format!("/api/v1/ui/requests/{alice_id}")).with_cookie(&bob));
    assert_eq!(res.status, 404, "{}", res.body);
    assert!(!res.body.contains("alice thing"), "{}", res.body);
    let listed = f.go(&Req::get("/api/v1/ui/requests").with_cookie(&bob));
    assert!(!listed.body.contains("alice thing"), "{}", listed.body);
}

fn armed(f: &mut Fixture, code: &str) {
    let mut admin = f.store.admin().unwrap();
    assert!(admin.arm(code, f.now_ms));
    f.store.put_admin(&admin).unwrap();
}

fn spend_code(f: &mut Fixture, code: &str) -> Res {
    f.go(&Req::post_json(
        &api_path("setup/code"),
        &obj(&[("code", code)]),
    ))
}

fn setup_token(res: &Res) -> String {
    res.set_cookie
        .as_deref()
        .and_then(|c| c.strip_prefix(&format!("{SETUP_COOKIE}=")))
        .and_then(|c| c.split(';').next())
        .expect("a setup token was issued")
        .to_string()
}

fn claim_as(login: &str, password: &str) -> Req {
    Req::post_json(
        &api_path("setup/admin"),
        &obj(&[("login", login), ("password", password)]),
    )
}

#[test]
fn setting_up_claims_the_server_for_whoever_signs_in() {
    let mut f = Fixture::new("setup-claim").with_public(false);
    armed(&mut f, "ABC-123");

    let res = spend_code(&mut f, "ABC-123");
    assert_eq!(res.status, 200, "{}", res.body);
    let setup = setup_token(&res);
    assert!(!f.store.admin().unwrap().claimed());

    let state = f.go(&Req::get(&api_path("setup")).with_setup(&setup));
    assert!(state.body.contains("\"admin\""), "{}", state.body);

    let res =
        f.go(&claim_as("JameZ667@example.test", "correct-horse-battery").with_setup(&setup));
    assert_eq!(res.status, 200, "{}", res.body);
    let admin = f.store.admin().unwrap();
    assert!(
        admin.is("jamez667@example.test"),
        "lowercased on the way in"
    );

    assert!(!res.body.contains("correct-horse-battery"), "{}", res.body);
    let raw = f.store.raw_accounts();
    assert!(!raw.contains("correct-horse-battery"), "{raw}");

    let session = cookie_token(&res).expect("signed in");
    assert_eq!(
        f.go(&Req::get("/api/v1/ui/settings").with_cookie(&session))
            .status,
        200
    );

    assert_eq!(f.go(&Req::get(&api_path("setup"))).status, 404);
    assert_eq!(
        f.go(&Req::post_json(
            &api_path("setup/code"),
            r#"{"code":"ABC-123"}"#
        ))
        .status,
        404
    );
}

#[test]
fn a_password_signs_the_administrator_in() {
    let mut f = Fixture::new("password-signin").with_public(false);
    let mut admin = Admin::default();
    admin.claim("jamez667@example.test", f.now_ms);
    f.store.put_admin(&admin).unwrap();
    let mut accounts = f.store.accounts().unwrap();
    accounts
        .create_login("jamez667@example.test", "correct-horse-battery", f.now_ms)
        .unwrap();
    f.store.put_accounts(&accounts).unwrap();

    let res = sign_in_with_password(&mut f, "JameZ667@example.test", "correct-horse-battery");
    assert_eq!(res.status, 200, "{}", res.body);

    let set = res.set_cookie.as_deref().expect("a session cookie");
    assert!(set.contains("SameSite=Strict"), "{set}");
    assert!(set.contains("HttpOnly"), "{set}");

    let session = cookie_token(&res).expect("signed in");
    assert_eq!(
        f.go(&Req::get(&api_path("settings")).with_cookie(&session))
            .status,
        200
    );
}

#[test]
fn a_wrong_password_backs_off_and_a_right_one_clears_it() {
    let mut f = Fixture::new("password-backoff").with_public(false);
    let mut accounts = f.store.accounts().unwrap();
    accounts
        .create_login("jamez667@example.test", "correct-horse-battery", f.now_ms)
        .unwrap();
    f.store.put_accounts(&accounts).unwrap();

    for _ in 0..5 {
        let res = sign_in_with_password(&mut f, "jamez667@example.test", "not-the-password");
        assert_eq!(res.status, 401, "{}", res.body);
    }
    let waiting = f.store.accounts().unwrap();
    let account = waiting
        .by_login("jamez667@example.test")
        .expect("still there");
    assert!(
        account.next_attempt_ms > f.now_ms,
        "the wrong guesses bought a wait"
    );
    assert_eq!(account.failed_attempts, 3);

    let during =
        sign_in_with_password(&mut f, "jamez667@example.test", "correct-horse-battery");
    assert_eq!(during.status, 401, "{}", during.body);

    f.now_ms = account.next_attempt_ms + 1;
    let res = sign_in_with_password(&mut f, "jamez667@example.test", "correct-horse-battery");
    assert_eq!(res.status, 200, "{}", res.body);
    let after = f.store.accounts().unwrap();
    let account = after
        .by_login("jamez667@example.test")
        .expect("still there");
    assert_eq!(account.failed_attempts, 0);
    assert_eq!(account.next_attempt_ms, 0);
}

#[test]
fn every_sign_in_failure_says_the_same_thing() {
    let mut f = Fixture::new("password-one-answer").with_public(false);
    let mut accounts = f.store.accounts().unwrap();
    accounts
        .create_login("jamez667@example.test", "correct-horse-battery", f.now_ms)
        .unwrap();
    f.store.put_accounts(&accounts).unwrap();

    let no_such = sign_in_with_password(&mut f, "nobody-at-all", "correct-horse-battery");
    let wrong = sign_in_with_password(&mut f, "jamez667@example.test", "not-the-password");
    assert_eq!(no_such.status, 401);
    assert_eq!(wrong.status, 401);
    assert_eq!(no_such.body, wrong.body, "one answer, not two");

    for _ in 0..4 {
        sign_in_with_password(&mut f, "jamez667@example.test", "not-the-password");
    }
    let backing_off =
        sign_in_with_password(&mut f, "jamez667@example.test", "correct-horse-battery");
    assert_eq!(backing_off.status, 401);
    assert_eq!(
        backing_off.body, wrong.body,
        "a backoff is distinguishable from a wrong password"
    );
}

#[test]
fn a_password_post_is_not_read_as_a_magic_link_token() {
    let mut f = Fixture::new("password-arm-order").with_public(false);
    let mut accounts = f.store.accounts().unwrap();
    accounts
        .create_login("jamez667@example.test", "correct-horse-battery", f.now_ms)
        .unwrap();
    f.store.put_accounts(&accounts).unwrap();

    let res = sign_in_with_password(&mut f, "jamez667@example.test", "correct-horse-battery");
    assert_eq!(res.status, 200, "{}", res.body);
    assert!(
        cookie_token(&res).is_some(),
        "the password arm ran, not the token consumer"
    );
    assert!(
        f.store.links().unwrap().links.is_empty(),
        "the password was treated as a token"
    );
}

#[test]
fn a_password_is_never_rendered_back_or_stored_in_the_clear() {
    let mut f = Fixture::new("password-never-echoed").with_public(false);
    let mut accounts = f.store.accounts().unwrap();
    accounts
        .create_login("jamez667@example.test", "correct-horse-battery", f.now_ms)
        .unwrap();
    f.store.put_accounts(&accounts).unwrap();

    let raw = f.store.raw_accounts();
    assert!(!raw.contains("correct-horse-battery"), "{raw}");

    for password in ["correct-horse-battery", "not-the-password"] {
        let res = sign_in_with_password(&mut f, "jamez667@example.test", password);
        assert!(
            !res.body.contains("correct-horse-battery")
                && !res.body.contains("not-the-password"),
            "{}",
            res.body
        );
    }
}

#[test]
fn the_administrator_can_sign_in_with_no_public_surface() {
    let mut f = Fixture::new("signin-no-public");
    let mut admin = Admin::default();
    admin.claim("jamez667@example.test", f.now_ms);
    f.store.put_admin(&admin).unwrap();
    let mut accounts = f.store.accounts().unwrap();
    accounts
        .create_login("jamez667@example.test", "correct-horse-battery", f.now_ms)
        .unwrap();
    f.store.put_accounts(&accounts).unwrap();

    assert_eq!(f.go(&Req::get(public_route::SIGNIN)).status, 200);

    let res = sign_in_with_password(&mut f, "jamez667@example.test", "correct-horse-battery");
    assert_eq!(res.status, 200, "{}", res.body);
    let session = cookie_token(&res).expect("signed in");
    assert_eq!(
        f.go(&Req::get(&api_path("settings")).with_cookie(&session))
            .status,
        200,
        "and it reaches the switch that turns the public surface on"
    );

    let mut cold = Fixture::new("signin-no-public-cold");
    let me = cold.go(&Req::get(ME_PATH));
    assert!(me.body.contains("\"file\":false"), "{}", me.body);
    assert_eq!(cold.go(&Req::get("/api/v1/ui/requests/abc")).status, 404);
    assert_eq!(
        cold.go(&Req::post(public_route::SIGNIN, "email=a%40x.com"))
            .status,
        404,
        "and asking for a magic link is still gone"
    );
}

#[test]
fn guessing_passwords_cannot_lock_filers_out_of_asking_for_a_link() {
    assert_eq!(
        bucket_for(&None, "", public_route::SIGNIN_PASSWORD),
        Bucket::AnonPrivate,
    );
    assert_eq!(
        bucket_for(&None, "", public_route::SIGNIN),
        Bucket::PublicWrite,
        "and asking for a link is still the public bucket",
    );
}

#[test]
fn who_am_i_answers_a_stranger_rather_than_refusing() {
    let mut f = Fixture::new("api-me-anon").with_public(false);
    let res = f.go(&Req::get("/api/v1/ui/me"));
    assert_eq!(res.status, 200, "{}", res.body);
    assert_eq!(res.content_type, "application/json");

    let me: serde_json::Value = serde_json::from_str(&res.body).unwrap();
    assert_eq!(me["role"], "anonymous");
    assert_eq!(me["can"]["file"], false);
    assert_eq!(me["can"]["administer"], false);
}

#[test]
fn who_am_i_tells_the_administrator_what_they_may_do() {
    let mut f = Fixture::new("api-me-admin").with_public(false);
    let session = f.as_admin();
    let res = f.go(&Req::get("/api/v1/ui/me").with_cookie(&session));
    assert_eq!(res.status, 200, "{}", res.body);

    let me: serde_json::Value = serde_json::from_str(&res.body).unwrap();
    assert_eq!(me["role"], "administrator");
    assert_eq!(me["can"]["accept"], true);
    assert_eq!(me["can"]["administer"], true);
}

#[test]
fn who_am_i_never_tells_an_owner_they_may_accept() {
    let mut f = Fixture::new("api-me-owner")
        .with_public(false)
        .with_repos(&["intake"])
        .with_owner("jo@x.com", &["intake"]);
    let session = f.signed_in_with_login("jo@x.com");
    let res = f.go(&Req::get("/api/v1/ui/me").with_cookie(&session));
    assert_eq!(res.status, 200, "{}", res.body);

    let me: serde_json::Value = serde_json::from_str(&res.body).unwrap();
    assert_eq!(me["role"], "owner");
    assert_eq!(me["can"]["review"], true);
    assert_eq!(me["can"]["accept"], false, "an owner cannot accept");
    assert_eq!(me["can"]["administer"], false);
    assert_eq!(me["repos"][0], "intake");
}

#[test]
fn the_json_api_answers_json_even_when_it_refuses() {
    let mut f = Fixture::new("api-404").with_public(false);
    let res = f.go(&Req::get("/api/v1/ui/nothing-here"));
    assert_eq!(res.status, 404);
    assert_eq!(res.content_type, "application/json");
    assert!(
        serde_json::from_str::<serde_json::Value>(&res.body).is_ok(),
        "the body parses as JSON: {}",
        res.body
    );
}

#[test]
fn the_json_api_is_never_served_with_script() {
    let mut f = Fixture::new("api-policy").with_public(false);
    assert_eq!(f.go(&Req::get("/api/v1/ui/me")).policy, Policy::Strict);
    assert_eq!(
        f.go(&Req::get("/api/v1/ui/nothing-here")).policy,
        Policy::Strict
    );
}

#[test]
fn a_daemon_key_buys_nothing_on_the_browser_api() {
    let mut f = Fixture::new("api-daemon").with_public(false);
    let res = f.go(&Req::get("/api/v1/ui/me").with_bearer(KEY));
    assert_eq!(res.status, 200);
    let me: serde_json::Value = serde_json::from_str(&res.body).unwrap();
    assert_eq!(me["role"], "anonymous");
    assert_eq!(me["can"]["review"], false);
}

#[test]
fn asking_who_i_am_is_not_rate_limited_like_a_password_guess() {
    assert_eq!(bucket_for(&None, "", "/api/v1/ui/me"), Bucket::PublicRead);
    assert_eq!(
        bucket_for(&None, "", "/api/v1/ui/requests"),
        Bucket::AnonPrivate,
        "an anonymous request for somebody's data is a probe, not browsing"
    );
}

#[test]
fn a_stranger_can_read_the_catalogue_in_the_language_they_asked_for() {
    let mut f = Fixture::new("strings-anon").with_public(false);

    let en = f.go(&Req::get(STRINGS_PATH));
    assert_eq!(en.status, 200, "{}", en.body);
    let body: serde_json::Value = serde_json::from_str(&en.body).unwrap();
    assert_eq!(body["locale"], "en");
    assert_eq!(
        body["strings"]["landing_point_2_title"],
        "A spec, not a ticket"
    );

    let fr = f.go(&Req::get(STRINGS_PATH).with_lang(None, Some("fr,en;q=0.8")));
    let body: serde_json::Value = serde_json::from_str(&fr.body).unwrap();
    assert_eq!(body["locale"], "fr");
    assert_eq!(
        body["strings"]["landing_point_2_title"],
        "Une spécification, pas un ticket"
    );

    let cookie_wins = f.go(&Req::get(STRINGS_PATH).with_lang(Some("fr"), Some("en")));
    let body: serde_json::Value = serde_json::from_str(&cookie_wins.body).unwrap();
    assert_eq!(body["locale"], "fr");
}

#[test]
fn a_held_catalogue_is_revalidated_rather_than_resent() {
    let mut f = Fixture::new("strings-etag").with_public(false);

    let first = f.go(&Req::get(STRINGS_PATH));
    let tag = first
        .etag
        .clone()
        .expect("the catalogue carries a validator");
    assert!(tag.starts_with('"') && tag.ends_with('"'), "{tag}");

    let again = f.go(&Req::get(STRINGS_PATH));
    assert_eq!(
        again.etag.as_deref(),
        Some(tag.as_str()),
        "stable per build"
    );

    let mut held = Req::get(STRINGS_PATH);
    held.if_none_match = Some(tag.clone());
    let third = f.go(&held);
    assert_eq!(third.status, 304);
    assert!(
        third.body.is_empty(),
        "a 304 carries no body: {}",
        third.body
    );
    assert_eq!(third.etag.as_deref(), Some(tag.as_str()));
}

#[test]
fn switching_language_cannot_be_answered_from_the_previous_catalogue() {
    let mut f = Fixture::new("strings-etag-lang").with_public(false);

    let english = f.go(&Req::get(STRINGS_PATH));
    let en_tag = english.etag.expect("a validator");

    let mut held = Req::get(STRINGS_PATH).with_lang(Some("fr"), None);
    held.if_none_match = Some(en_tag.clone());
    let french = f.go(&held);
    assert_eq!(
        french.status, 200,
        "a different language is a different body"
    );
    assert_ne!(french.etag.as_deref(), Some(en_tag.as_str()));
    assert!(french.body.contains("\"locale\":\"fr\""), "{}", french.body);
}

#[test]
fn reading_the_catalogue_is_not_rate_limited_like_a_probe() {
    assert_eq!(bucket_for(&None, "", STRINGS_PATH), Bucket::PublicRead);
    assert_eq!(
        bucket_for(&None, "", &api_path("language")),
        Bucket::PublicWrite
    );
}

#[test]
fn choosing_a_language_over_json_sets_the_cookie_and_answers_the_new_words() {
    let mut f = Fixture::new("strings-set-lang").with_public(false);

    let res = f.go(&Req::post_json(&api_path("language"), "{\"lang\":\"fr\"}"));
    assert_eq!(res.status, 200, "{}", res.body);
    let cookie = res.set_cookie.clone().expect("a language cookie is set");
    assert!(cookie.starts_with(&format!("{LANG_COOKIE}=fr")), "{cookie}");
    assert!(!cookie.contains("HttpOnly"), "{cookie}");
    assert!(cookie.contains("SameSite=Lax"), "{cookie}");

    let body: serde_json::Value = serde_json::from_str(&res.body).unwrap();
    assert_eq!(body["locale"], "fr");
    assert_eq!(body["strings"]["nav_signin"], "Se connecter");
    assert!(res.etag.is_some());

    let odd = f.go(&Req::post_json(
        &api_path("language"),
        "{\"lang\":\"../etc\"}",
    ));
    let body: serde_json::Value = serde_json::from_str(&odd.body).unwrap();
    assert_eq!(body["locale"], "en");
}

#[test]
fn a_filer_is_never_told_their_request_was_quarantined() {
    let (mut f, filer, id) = quarantined_fixture("api-coarse");

    let res = f.go(&Req::get("/api/v1/ui/requests").with_cookie(&filer));
    assert_eq!(res.status, 200, "{}", res.body);
    let body = res.body.to_ascii_lowercase();
    assert!(!body.contains("quarantin"), "{}", res.body);
    assert!(!body.contains("spam"), "{}", res.body);
    assert!(!body.contains("screening"), "{}", res.body);

    let one = f.go(&Req::get(&format!("/api/v1/ui/requests/{id}")).with_cookie(&filer));
    assert_eq!(one.status, 200, "{}", one.body);
    assert!(
        !one.body.to_ascii_lowercase().contains("quarantin"),
        "{}",
        one.body
    );
}

#[test]
fn a_filer_is_never_sent_a_path_on_the_developers_machine() {
    let (mut f, filer, id) = filed_fixture("api-narrow");

    let res = f.go(&Req::get(&format!("/api/v1/ui/requests/{id}")).with_cookie(&filer));
    assert_eq!(res.status, 200, "{}", res.body);
    let v: serde_json::Value = serde_json::from_str(&res.body).unwrap();
    assert!(v.get("artifact_dir").is_none(), "{}", res.body);
    assert!(v.get("note").is_none(), "{}", res.body);
    assert!(v.get("repo").is_none(), "{}", res.body);
    assert!(
        v.get("summary").is_some(),
        "but they do see their own: {}",
        res.body
    );
}

#[test]
fn another_filers_request_is_not_found_rather_than_forbidden() {
    let (mut f, _filer, id) = filed_fixture("api-not-mine");
    let stranger = f.signed_in("someone-else@x.com");

    let res = f.go(&Req::get(&format!("/api/v1/ui/requests/{id}")).with_cookie(&stranger));
    assert_eq!(res.status, 404, "{}", res.body);
    assert_eq!(res.content_type, "application/json");
}

#[test]
fn an_owner_reads_only_the_repositories_they_own() {
    let (mut f, owner, _mine, _theirs) = owner_fixture("api-owner-list");

    let res = f.go(&Req::get("/api/v1/ui/requests").with_cookie(&owner));
    assert_eq!(res.status, 200, "{}", res.body);
    let list: Vec<serde_json::Value> = serde_json::from_str(&res.body).unwrap();
    assert!(!list.is_empty(), "they own something");
    for r in &list {
        assert_eq!(r["repo"], "intake", "never somebody else's: {r}");
    }
}

#[test]
fn an_owner_is_not_given_the_developers_artifact_path() {
    let (mut f, owner, _mine, _theirs) = owner_fixture("api-owner-narrow");
    let res = f.go(&Req::get("/api/v1/ui/requests").with_cookie(&owner));
    let list: Vec<serde_json::Value> = serde_json::from_str(&res.body).unwrap();
    for r in &list {
        assert!(r.get("artifact_dir").is_none(), "{r}");
    }
}

#[test]
fn the_administrative_lists_do_not_exist_for_anybody_else() {
    let mut f = Fixture::new("api-admin-gate").with_public(false);
    let filer = f.signed_in("jo@x.com");

    for path in [
        "/api/v1/ui/settings",
        "/api/v1/ui/owners",
        "/api/v1/ui/repos",
        "/api/v1/ui/daemons",
        "/api/v1/ui/accounts",
    ] {
        assert_eq!(f.go(&Req::get(path)).status, 404, "signed out: {path}");
        assert_eq!(
            f.go(&Req::get(path).with_cookie(&filer)).status,
            404,
            "a filer: {path}"
        );
    }
}

#[test]
fn the_accounts_endpoint_carries_a_hint_and_no_address() {
    let mut f = Fixture::new("api-accounts").with_public(false);
    let admin = f.as_admin();
    f.signed_in("jo@x.com");

    let res = f.go(&Req::get("/api/v1/ui/accounts").with_cookie(&admin));
    assert_eq!(res.status, 200, "{}", res.body);
    assert!(
        !res.body.contains("jo@x.com"),
        "not the address: {}",
        res.body
    );
    assert!(!res.body.contains("email_hash"), "{}", res.body);
    assert!(!res.body.contains("password_hash"), "{}", res.body);
    assert!(res.body.contains("email_hint"), "{}", res.body);
}

#[test]
fn a_stranger_asking_for_requests_gets_an_empty_list_not_an_error() {
    let mut f = Fixture::new("api-anon-requests").with_public(false);
    let res = f.go(&Req::get("/api/v1/ui/requests"));
    assert_eq!(res.status, 200);
    assert_eq!(res.body, "[]");
}

#[test]
fn the_administrator_is_sent_the_digest_of_the_spec_they_are_reading() {
    let (mut f, id) = drafted_fixture("api-digest");
    let admin = f.as_admin();

    let res = f.go(&Req::get(&format!("/api/v1/ui/requests/{id}")).with_cookie(&admin));
    assert_eq!(res.status, 200, "{}", res.body);
    let v: serde_json::Value = serde_json::from_str(&res.body).unwrap();
    let digest = v["spec_digest"]
        .as_str()
        .expect("a digest travels with the spec");
    let spec = v["spec"].as_str().expect("and so does the spec");
    assert_eq!(
        digest,
        hash(spec),
        "and it is the digest of that spec"
    );
}

#[test]
fn accepting_needs_the_digest_of_the_spec_that_was_read() {
    let (mut f, id) = drafted_fixture("api-accept-digest");
    let admin = f.as_admin();

    let bare =
        f.go(&api_post(&format!("/api/v1/ui/requests/{id}/accept"), "{}").with_cookie(&admin));
    assert_eq!(bare.status, 400, "{}", bare.body);

    let wrong = f.go(&api_post(
        &format!("/api/v1/ui/requests/{id}/accept"),
        "{\"digest\":\"0000000000000000000000000000000000000000000000000000000000000000\"}",
    )
    .with_cookie(&admin));
    assert_eq!(wrong.status, 400, "{}", wrong.body);

    let spec = f.store.get(&id).unwrap().unwrap().spec.unwrap();
    let good = f.go(&api_post(
        &format!("/api/v1/ui/requests/{id}/accept"),
        &format!("{{\"digest\":\"{}\"}}", hash(&spec.text)),
    )
    .with_cookie(&admin));
    assert_eq!(good.status, 200, "{}", good.body);
    assert_eq!(
        f.store.get(&id).unwrap().unwrap().state,
        RequestState::Accepted
    );
}

#[test]
fn an_owner_cannot_accept_through_the_json_api_either() {
    let (mut f, owner, mine, _theirs) = owner_fixture("api-owner-accept");
    let mut r = f.store.get(&mine).unwrap().unwrap();
    r.state = RequestState::AwaitingReview;
    r.spec = spec("# spec");
    f.store.put(&r).unwrap();

    let res = f.go(&api_post(
        &format!("/api/v1/ui/requests/{mine}/accept"),
        &format!("{{\"digest\":\"{}\"}}", hash("# spec")),
    )
    .with_cookie(&owner));
    assert_eq!(res.status, 404, "{}", res.body);
    assert_ne!(
        f.store.get(&mine).unwrap().unwrap().state,
        RequestState::Accepted,
        "and nothing was accepted"
    );
}

#[test]
fn an_owner_may_send_back_and_discard_their_own_repositories() {
    let (mut f, owner, mine, _theirs) = owner_fixture("api-owner-verbs");
    let mut r = f.store.get(&mine).unwrap().unwrap();
    r.state = RequestState::AwaitingReview;
    r.spec = spec("# spec");
    f.store.put(&r).unwrap();

    let res = f.go(&api_post(
        &format!("/api/v1/ui/requests/{mine}/send-back"),
        "{\"note\":\"needs more detail\"}",
    )
    .with_cookie(&owner));
    assert_eq!(res.status, 200, "{}", res.body);
}

#[test]
fn an_owner_acting_outside_their_repositories_is_not_found() {
    let (mut f, owner, _mine, theirs) = owner_fixture("api-owner-outside");
    let res = f.go(
        &api_post(&format!("/api/v1/ui/requests/{theirs}/discard"), "{}").with_cookie(&owner),
    );
    assert_eq!(res.status, 404, "{}", res.body);
}

#[test]
fn a_filer_cannot_reach_a_review_verb() {
    let (mut f, filer, id) = filed_fixture("api-filer-verb");
    let res =
        f.go(&api_post(&format!("/api/v1/ui/requests/{id}/discard"), "{}").with_cookie(&filer));
    assert_eq!(res.status, 404, "{}", res.body);
}

#[test]
fn a_mutating_call_must_say_it_is_json() {
    let (mut f, id) = drafted_fixture("api-content-type");
    let admin = f.as_admin();

    let form = f.go(
        &Req::post(&format!("/api/v1/ui/requests/{id}/discard"), "note=x").with_cookie(&admin),
    );
    assert_eq!(form.status, 415, "{}", form.body);
    assert_ne!(
        f.store.get(&id).unwrap().unwrap().state,
        RequestState::Discarded,
        "and nothing happened"
    );
}

#[test]
fn a_mutating_call_from_another_origin_is_refused() {
    let (mut f, id) = drafted_fixture("api-origin");
    let admin = f.as_admin();

    let mut req = api_post(&format!("/api/v1/ui/requests/{id}/discard"), "{}");
    req.origin = Some("https://evil.example".into());
    let res = f.go(&req.with_cookie(&admin));
    assert_eq!(res.status, 403, "{}", res.body);

    let mut ours = api_post(&format!("/api/v1/ui/requests/{id}/discard"), "{}");
    ours.origin = Some("https://specs.example.test".into());
    assert_eq!(f.go(&ours.with_cookie(&admin)).status, 200);
}

#[test]
fn a_verb_answers_with_the_request_as_it_now_stands() {
    let (mut f, id) = drafted_fixture("api-verb-echo");
    let admin = f.as_admin();

    let res = f.go(&api_post(
        &format!("/api/v1/ui/requests/{id}/send-back"),
        "{\"note\":\"more detail please\"}",
    )
    .with_cookie(&admin));
    assert_eq!(res.status, 200, "{}", res.body);
    let v: serde_json::Value = serde_json::from_str(&res.body).unwrap();
    assert_eq!(v["id"], id.as_str());
    assert_eq!(v["state"], "queued", "the state it is now in: {}", res.body);
}

#[test]
fn the_interface_can_load_its_own_stylesheet() {
    let csp = Policy::PublicScript.csp();
    assert!(csp.contains("style-src 'self' 'unsafe-inline'"), "{csp}");
    assert!(csp.contains("script-src 'self'"), "{csp}");
}

#[test]
fn the_interfaces_files_are_reachable_signed_out() {
    let mut f = Fixture::new("ui-assets").with_public(false);
    for path in [SCRIPT_PATH, STYLE_PATH] {
        let res = f.go(&Req::get(path));
        assert_eq!(res.status, 200, "{path}");
        assert_eq!(res.policy, Policy::PublicScript, "{path}");
    }
}

#[test]
fn the_interface_answers_only_the_paths_it_owns() {
    assert!(wants_document(public_route::LANDING));
    assert!(wants_document(public_route::FILE));
    assert!(wants_document("/public/request/r-1"));
    assert!(!wants_document("/api/v1/ui/nope"));
    assert!(!wants_document("/ui/app.js"));

    assert!(wants_document(private_route::SETTINGS));
    assert!(wants_document(private_route::REVIEW));
    assert!(wants_document("/request/r-1"));
}

#[test]
fn the_interfaces_files_are_read_budget_not_guess_budget() {
    for path in [SCRIPT_PATH, STYLE_PATH] {
        assert_eq!(bucket_for(&None, "", path), Bucket::PublicRead, "{path}");
    }
}

#[test]
fn a_minted_daemon_key_is_returned_once_and_never_stored() {
    let mut f = Fixture::new("api-mint").with_public(false);
    let admin = f.as_admin();

    let res =
        f.go(&api_post("/api/v1/ui/daemons", "{\"label\":\"laptop\"}").with_cookie(&admin));
    assert_eq!(res.status, 200, "{}", res.body);
    let v: serde_json::Value = serde_json::from_str(&res.body).unwrap();
    let key = v["key"].as_str().expect("a key came back");
    assert!(key.len() >= 32, "and it is a real one: {key}");

    let raw = f.store.raw_roster();
    assert!(!raw.contains(key), "the key was written down: {raw}");

    let list = f.go(&Req::get("/api/v1/ui/daemons").with_cookie(&admin));
    assert!(!list.body.contains(key), "{}", list.body);
}

#[test]
fn a_repository_nothing_serves_is_refused_unless_forced() {
    let mut f = Fixture::new("api-repo-unserved").with_public(false);
    let admin = f.as_admin();

    let refused =
        f.go(&api_post("/api/v1/ui/repos", "{\"name\":\"nothing\"}").with_cookie(&admin));
    assert_eq!(refused.status, 409, "{}", refused.body);

    let forced = f.go(
        &api_post("/api/v1/ui/repos", "{\"name\":\"nothing\",\"anyway\":true}")
            .with_cookie(&admin),
    );
    assert_eq!(forced.status, 200, "{}", forced.body);
}

#[test]
fn the_administrative_writes_do_not_exist_for_anybody_else() {
    let mut f = Fixture::new("api-write-gate").with_public(false);
    let filer = f.signed_in("jo@x.com");

    for (path, body) in [
        ("/api/v1/ui/settings", "{\"site_name\":\"x\"}"),
        ("/api/v1/ui/owners", "{\"login\":\"jo@x.com\"}"),
        ("/api/v1/ui/repos", "{\"name\":\"x\"}"),
        ("/api/v1/ui/daemons", "{\"label\":\"x\"}"),
        ("/api/v1/ui/accounts/a-1/revoke", "{}"),
    ] {
        assert_eq!(
            f.go(&api_post(path, body)).status,
            404,
            "signed out: {path}"
        );
        assert_eq!(
            f.go(&api_post(path, body).with_cookie(&filer)).status,
            404,
            "a filer: {path}"
        );
    }
}

#[test]
fn an_owner_can_be_named_and_revoked_through_the_api() {
    let mut f = Fixture::new("api-owners")
        .with_public(false)
        .with_repos(&["intake"]);
    let admin = f.as_admin();

    let added = f.go(&api_post(
        "/api/v1/ui/owners",
        "{\"login\":\"jo@x.com\",\"repos\":[\"intake\"]}",
    )
    .with_cookie(&admin));
    assert_eq!(added.status, 200, "{}", added.body);
    assert!(added.body.contains("jo@x.com"), "{}", added.body);

    let revoked =
        f.go(&api_post("/api/v1/ui/owners/jo@x.com/revoke", "{}").with_cookie(&admin));
    assert_eq!(revoked.status, 200, "{}", revoked.body);
    assert!(revoked.body.contains("jo@x.com"), "{}", revoked.body);
    assert!(
        revoked.body.contains("\"revoked\":true"),
        "{}",
        revoked.body
    );
}

#[test]
fn the_wizard_claims_a_server_through_the_api() {
    let mut f = Fixture::new("api-setup").with_public(false);
    armed(&mut f, "ABC-123");

    let state = f.go(&Req::get("/api/v1/ui/setup"));
    assert_eq!(state.status, 200, "{}", state.body);
    let v: serde_json::Value = serde_json::from_str(&state.body).unwrap();
    assert_eq!(v["step"], "code");

    let spent = f.go(&api_post(
        "/api/v1/ui/setup/code",
        "{\"code\":\"ABC-123\",\"base_url\":\"https://specs.example.test\"}",
    ));
    assert_eq!(spent.status, 200, "{}", spent.body);
    let setup = spent
        .set_cookie
        .as_deref()
        .and_then(|c| c.strip_prefix(&format!("{SETUP_COOKIE}=")))
        .and_then(|c| c.split(';').next())
        .expect("a setup token was issued")
        .to_string();
    assert!(!f.store.admin().unwrap().claimed());

    let state = f.go(&Req::get("/api/v1/ui/setup").with_setup(&setup));
    let v: serde_json::Value = serde_json::from_str(&state.body).unwrap();
    assert_eq!(v["step"], "admin");

    let claimed = f.go(&api_post(
        "/api/v1/ui/setup/admin",
        "{\"login\":\"JameZ667@example.test\",\"password\":\"correct-horse-battery\"}",
    )
    .with_setup(&setup));
    assert_eq!(claimed.status, 200, "{}", claimed.body);
    assert!(
        f.store.admin().unwrap().is("jamez667@example.test"),
        "lowercased on the way in"
    );

    assert!(!claimed.body.contains("correct-horse-battery"));
    let raw = f.store.raw_accounts();
    assert!(!raw.contains("correct-horse-battery"), "{raw}");

    let session = cookie_token(&claimed).expect("signed in");
    assert_eq!(
        f.go(&Req::get("/api/v1/ui/settings").with_cookie(&session))
            .status,
        200
    );

    assert_eq!(f.go(&Req::get("/api/v1/ui/setup")).status, 404);
}

#[test]
fn every_wrong_code_through_the_api_gets_the_same_answer() {
    let mut f = Fixture::new("api-setup-codes").with_public(false);
    armed(&mut f, "ABC-123");

    let wrong = f.go(&api_post(
        "/api/v1/ui/setup/code",
        "{\"code\":\"XYZ-999\",\"base_url\":\"https://specs.example.test\"}",
    ));
    f.go(&api_post(
        "/api/v1/ui/setup/code",
        "{\"code\":\"ABC-123\",\"base_url\":\"https://specs.example.test\"}",
    ));
    let spent = f.go(&api_post(
        "/api/v1/ui/setup/code",
        "{\"code\":\"ABC-123\",\"base_url\":\"https://specs.example.test\"}",
    ));
    assert_eq!(wrong.status, 400);
    assert_eq!(spent.status, 400);
    assert_eq!(wrong.body, spent.body, "one answer, not two");
}

#[test]
fn a_half_finished_setup_cannot_be_taken_over_through_the_api() {
    let mut f = Fixture::new("api-setup-interloper").with_public(false);
    armed(&mut f, "ABC-123");

    f.go(&api_post(
        "/api/v1/ui/setup/code",
        "{\"code\":\"ABC-123\",\"base_url\":\"https://specs.example.test\"}",
    ));

    let stolen = f.go(&api_post(
        "/api/v1/ui/setup/admin",
        "{\"login\":\"interloper@x.com\",\"password\":\"correct-horse-battery\"}",
    ));
    assert_eq!(stolen.status, 400, "{}", stolen.body);
    assert!(!f.store.admin().unwrap().claimed(), "and nobody owns it");
}

#[test]
fn the_wizard_does_not_exist_once_the_server_is_claimed() {
    let mut f = Fixture::new("api-setup-gone").with_public(false);
    f.as_admin();

    assert_eq!(f.go(&Req::get("/api/v1/ui/setup")).status, 404);
    assert_eq!(
        f.go(&api_post(
            "/api/v1/ui/setup/code",
            "{\"code\":\"ABC-123\",\"base_url\":\"https://x.test\"}"
        ))
        .status,
        404
    );
}

#[test]
fn setting_up_over_plain_http_does_not_send_a_secure_cookie() {
    assert_eq!(secure_attr_for("http://127.0.0.1:8420"), "");
    assert_eq!(secure_attr_for("http://192.168.1.9:8420"), "");
    assert_eq!(secure_attr_for("https://specs.example.test"), "; Secure");

    let mut f = Fixture::new("setup-secure").with_public(false);
    armed(&mut f, "ABC-123");
    let spent = f.go(&api_post("/api/v1/ui/setup/code", "{\"code\":\"ABC-123\"}"));
    let cookie = spent.set_cookie.as_deref().expect("a setup token");
    assert!(
        cookie.contains("Secure"),
        "an https address gets it: {cookie}"
    );
}

#[test]
fn the_wizard_is_reachable_before_the_server_has_an_address() {
    let mut f = Fixture::new("setup-origin");
    armed(&mut f, "ABC-123");

    let mut req = api_post(
        "/api/v1/ui/setup/code",
        "{\"code\":\"ABC-123\",\"base_url\":\"http://127.0.0.1:8420\"}",
    );
    req.origin = Some("http://127.0.0.1:8420".into());
    assert_eq!(f.go(&req).status, 200, "the wizard is reachable");

    let mut other = api_post("/api/v1/ui/daemons", "{\"label\":\"x\"}");
    other.origin = Some("https://evil.example".into());
    assert_ne!(f.go(&other).status, 200);
}

const ADMIN_PAGES: [&str; 6] = [
    private_route::REVIEW,
    private_route::SETTINGS,
    private_route::REPOS,
    private_route::OWNERS,
    private_route::DAEMONS,
    private_route::ACCOUNTS,
];

#[test]
fn every_administrative_page_is_linked_from_the_surface() {
    let mut f = Fixture::new("admin-nav").with_public(false);
    let admin = f.as_admin();

    let me = f.go(&Req::get(ME_PATH).with_cookie(&admin));
    assert!(
        me.body.contains("\"administer\":true"),
        "the administrator is not told they administer: {}",
        me.body
    );

    for page in ADMIN_PAGES {
        let endpoint = match page {
            private_route::REVIEW => "/api/v1/ui/requests".to_string(),
            other => format!("/api/v1/ui{other}"),
        };
        let res = f.go(&Req::get(&endpoint).with_cookie(&admin));
        assert_eq!(
            res.status, 200,
            "{page} has no endpoint behind it at {endpoint}: {}",
            res.body
        );
    }
}

#[test]
fn every_administrative_page_serves_with_no_public_surface() {
    let mut f = Fixture::new("admin-nav-private");
    assert!(f.public.is_none(), "no public surface at all");
    let admin = f.as_admin();

    for path in ADMIN_PAGES {
        let res = f.go(&Req::get(path).with_cookie(&admin));
        assert_eq!(res.status, 200, "{path} is linked but 404s: {}", res.body);
    }
}

#[test]
fn the_admin_navigation_is_not_on_the_public_surface() {
    let mut f = Fixture::new("admin-nav-public").with_public(false);
    let filer = f.signed_in("jo@x.com");
    let res = f.go(&Req::get(public_route::FILE).with_cookie(&filer));
    for path in [private_route::SETTINGS, private_route::DAEMONS] {
        assert!(
            !res.body.contains(&format!("href=\"{path}\"")),
            "the public surface links {path}: {}",
            res.body
        );
    }
}

#[test]
fn a_half_finished_setup_cannot_be_taken_over_by_somebody_else() {
    let mut f = Fixture::new("setup-hijack").with_public(false);
    armed(&mut f, "ABC-123");

    let res = spend_code(&mut f, "ABC-123");
    assert_eq!(res.status, 200, "{}", res.body);
    let setup = setup_token(&res);

    let theirs = f.go(&Req::get(&api_path("setup")));
    assert_eq!(theirs.status, 200, "{}", theirs.body);
    assert!(
        theirs.body.contains("\"step\":\"code\""),
        "a stranger was shown a later step: {}",
        theirs.body
    );

    let res = f.go(&claim_as("theirs", "another-good-password"));
    assert_eq!(res.status, 400, "{}", res.body);
    assert!(
        !f.store.admin().unwrap().claimed(),
        "a stranger claimed the server"
    );

    let res = f.go(&claim_as("theirs", "another-good-password").with_setup("not-the-token"));
    assert_eq!(res.status, 400, "{}", res.body);
    assert!(!f.store.admin().unwrap().claimed());

    let res = f.go(&claim_as("mine@example.test", "correct-horse-battery").with_setup(&setup));
    assert_eq!(res.status, 200, "{}", res.body);
    assert!(f.store.admin().unwrap().claimed());
}

#[test]
fn a_seeded_volume_does_not_look_half_set_up_to_a_stranger() {
    let mut f = Fixture::new("setup-seeded").with_public(false);
    armed(&mut f, "ABC-123");

    let mut settings = f.store.settings().unwrap();
    settings.seeded = true;
    f.store.put_settings(&settings).unwrap();

    let res = f.go(&Req::get("/api/v1/ui/setup"));
    assert_eq!(res.status, 200, "{}", res.body);
    assert!(
        res.body.contains("\"step\":\"code\""),
        "a seeded address skipped the code: {}",
        res.body
    );
}

#[test]
fn an_abandoned_setup_stops_standing_open() {
    let mut f = Fixture::new("setup-abandoned").with_public(false);
    armed(&mut f, "ABC-123");
    let res = spend_code(&mut f, "ABC-123");
    let setup = setup_token(&res);

    f.now_ms += CLAIM_TTL_MS;
    let res = f.go(&claim_as("late", "correct-horse-battery").with_setup(&setup));
    assert_eq!(res.status, 400, "{}", res.body);
    assert!(!f.store.admin().unwrap().claimed());
}

#[test]
fn a_wrong_code_says_one_thing_and_leaves_the_real_one_usable() {
    let mut f = Fixture::new("setup-wrong-code").with_public(false);
    armed(&mut f, "ABC-123");

    let res = spend_code(&mut f, "WRONG-1");
    assert_eq!(res.status, 400);
    let wrong = res.body.clone();

    assert!(
        wrong.contains("that code was not accepted"),
        "one message for every failure: {wrong}"
    );

    let res = spend_code(&mut f, "ABC-123");
    assert_eq!(res.status, 200, "the real code still works: {}", res.body);

    let again = spend_code(&mut f, "ABC-123");
    assert_eq!(again.status, 400);
    assert_eq!(
        again.body, wrong,
        "an already-spent code is distinguishable from a wrong one"
    );
}

#[test]
fn the_setup_step_decides_secure_from_the_address_rather_than_asking() {
    assert_eq!(secure_attr_for("https://specs.example.test"), "; Secure");
    assert_eq!(secure_attr_for("http://localhost:8420"), "");
}

#[test]
fn a_claimed_server_has_no_setup_and_arms_no_code() {
    let mut f = Fixture::new("setup-claimed").with_public(false);
    let mut admin = f.store.admin().unwrap();
    admin.claim("jamez667@example.test", 1);
    f.store.put_admin(&admin).unwrap();

    assert_eq!(f.go(&Req::get(&api_path("setup"))).status, 404);
    assert_eq!(
        f.go(&claim_as("a", "correct-horse-battery")).status,
        404,
        "the step that hands the server over still existed"
    );
    assert_eq!(
        spend_code(&mut f, "ABC-123").status,
        404,
        "and so did the one before it"
    );
}

fn filed_fixture(tag: &str) -> (Fixture, String, String) {
    let mut f = Fixture::new(tag).with_public(false).with_repos(&["intake"]);
    let filer = f.signed_in("jo@x.com");
    file_publicly_as(&mut f, &filer, "please fix the thing", "intake");
    let id = f.store.all().unwrap()[0].id.clone();
    (f, filer, id)
}

fn file_publicly_as(f: &mut Fixture, session: &str, text: &str, repo: &str) {
    let body = obj(&[("text", text), ("kind", "bug"), ("repo", repo)]);
    let res = f.go(&Req::post_json(&api_path("file"), &body.to_string()).with_cookie(session));
    assert_eq!(res.status, 200, "filing {repo}: {}", res.body);
}

fn try_filing_as(f: &mut Fixture, session: &str, text: &str) -> Res {
    let body = obj(&[("text", text), ("kind", "bug")]);
    f.go(&Req::post_json(&api_path("file"), &body.to_string()).with_cookie(session))
}

fn quarantined_fixture(tag: &str) -> (Fixture, String, String) {
    let (f, filer, id) = filed_fixture(tag);
    let mut r = f.store.get(&id).unwrap().unwrap();
    r.state = RequestState::Quarantined;
    f.store.put(&r).unwrap();
    (f, filer, id)
}

fn drafted_fixture(tag: &str) -> (Fixture, String) {
    let (f, _filer, id) = filed_fixture(tag);
    let mut r = f.store.get(&id).unwrap().unwrap();
    r.state = RequestState::AwaitingReview;
    r.spec = spec("# A spec\n\nSomething a model wrote.");
    r.artifact_dir = Some("/home/dev/specs/r-1".to_string());
    f.store.put(&r).unwrap();
    (f, id)
}

fn owner_fixture(tag: &str) -> (Fixture, String, String, String) {
    let mut f = Fixture::new(tag)
        .with_public(false)
        .with_repos(&["intake", "other"])
        .with_owner("jamez667@example.test", &["intake"]);
    let owner = f.signed_in_with_login("jamez667@example.test");

    let filer = f.signed_in("jo@x.com");
    file_publicly_as(&mut f, &filer, "for intake", "intake");
    file_publicly_as(&mut f, &filer, "for other", "other");

    let all = f.store.all().unwrap();
    let mine = all.iter().find(|r| r.repo == "intake").unwrap().id.clone();
    let theirs = all.iter().find(|r| r.repo == "other").unwrap().id.clone();
    (f, owner, mine, theirs)
}

#[test]
fn re_admitting_work_is_bounded_per_repository() {
    let (mut f, owner, mine, _) = owner_fixture("draft-budget");
    let cap = 2;
    f = f.with_draft_cap(cap);

    let mut send_backs = 0;
    let mut refused = false;
    for _ in 0..20 {
        f.go(&Req::get(WORK).with_bearer(KEY));
        let payload =
            drafted_body(&mine, "# Spec", "specs/x");
        f.go(&Req::post(&drafted(&mine), &payload).with_bearer(KEY));

        let res = verb_on(&mut f, &owner, &mine, "send-back", r#"{"note":"again"}"#);
        if res.status == 429 {
            refused = true;
            break;
        }
        send_backs += 1;
    }

    assert!(refused, "the loop never stopped — this is the hole itself");
    assert!(
        send_backs <= cap,
        "{send_backs} send-backs got through a budget of {cap}"
    );
    let spent = f.store.drafts_since("intake", 0).unwrap();
    assert!(spent >= cap, "{spent} runs against a cap of {cap}");
}

#[test]
fn the_drafting_budget_is_the_repositorys_and_not_the_callers() {
    let (mut f, owner, mine, _) = owner_fixture("draft-budget-shared");
    f = f.with_draft_cap(1);

    f.go(&Req::get(WORK).with_bearer(KEY));
    let payload = drafted_body(&mine, "# Spec", "specs/x");
    f.go(&Req::post(&drafted(&mine), &payload).with_bearer(KEY));

    let res = verb_on(&mut f, &owner, &mine, "send-back", r#"{"note":"again"}"#);
    assert_eq!(res.status, 429, "{}", res.body);
}

#[test]
fn an_owner_sees_only_their_own_repositories() {
    let (mut f, owner, mine, theirs) = owner_fixture("owner-sees");

    let listed = f
        .go(&Req::get("/api/v1/ui/requests").with_cookie(&owner))
        .body;
    assert!(listed.contains("for intake"), "their own: {listed}");
    assert!(
        !listed.contains("for other"),
        "not somebody else's: {listed}"
    );

    assert_eq!(
        f.go(&Req::get(&format!("/api/v1/ui/requests/{mine}")).with_cookie(&owner))
            .status,
        200
    );
    assert_eq!(
        f.go(&Req::get(&format!("/api/v1/ui/requests/{theirs}")).with_cookie(&owner))
            .status,
        404,
        "not found rather than forbidden — a 403 confirms the id is real"
    );
}

#[test]
fn an_owner_can_decline_and_is_never_offered_approve() {
    let (mut f, owner, mine, _) = owner_fixture("owner-declines");

    f.go(&Req::get(WORK).with_bearer(KEY));
    let payload = drafted_body(&mine, "# Spec", "specs/x");
    f.go(&Req::post(&drafted(&mine), &payload).with_bearer(KEY));

    let me = f.go(&Req::get(ME_PATH).with_cookie(&owner));
    assert!(me.body.contains("\"review\":true"), "{}", me.body);
    assert!(
        me.body.contains("\"accept\":false"),
        "an owner was offered approve: {}",
        me.body
    );
    assert_eq!(
        f.go(&Req::get(&api_path(&format!("requests/{mine}"))).with_cookie(&owner))
            .status,
        200
    );

    let digest = hash("# Spec");
    let refused = verb_on(
        &mut f,
        &owner,
        &mine,
        "accept",
        &obj(&[("digest", &digest)]),
    );
    assert_eq!(refused.status, 404, "an owner accepted: {}", refused.body);
    assert_eq!(
        f.store.get(&mine).unwrap().unwrap().state,
        RequestState::AwaitingReview,
        "and nothing was settled"
    );

    let res = verb_on(
        &mut f,
        &owner,
        &mine,
        "send-back",
        r#"{"note":"too vague"}"#,
    );
    assert_eq!(res.status, 200, "{}", res.body);
    assert_eq!(
        f.store.get(&mine).unwrap().unwrap().state,
        RequestState::Queued,
        "sent back for another pass"
    );
}

#[test]
fn an_owner_may_release_their_own_repositorys_quarantined_work() {
    let (mut f, owner, mine, theirs) = owner_fixture("owner-release");

    for id in [&mine, &theirs] {
        let mut r = f.store.get(id).unwrap().unwrap();
        r.state = RequestState::Quarantined;
        f.store.put(&r).unwrap();
    }

    let me = f.go(&Req::get(ME_PATH).with_cookie(&owner));
    assert!(me.body.contains("\"review\":true"), "{}", me.body);
    let one = f.go(&Req::get(&api_path(&format!("requests/{mine}"))).with_cookie(&owner));
    assert_eq!(one.status, 200, "{}", one.body);
    assert!(
        one.body.contains("quarantined"),
        "the state a release acts on: {}",
        one.body
    );

    let res = verb_on(&mut f, &owner, &mine, "release", "{}");
    assert_eq!(res.status, 200, "{}", res.body);
    assert_eq!(
        f.store.get(&mine).unwrap().unwrap().state,
        RequestState::Queued,
        "released into the claimable queue"
    );

    let res = verb_on(&mut f, &owner, &theirs, "release", "{}");
    assert_eq!(res.status, 404);
    assert_eq!(
        f.store.get(&theirs).unwrap().unwrap().state,
        RequestState::Quarantined
    );
}

#[test]
fn an_owners_releases_are_bounded_by_the_repositorys_drafting_budget() {
    let (mut f, owner, mine, _theirs) = owner_fixture("owner-release-budget");
    if let Some(p) = f.public.as_mut() {
        p.max_daily_drafts = 1;
    }

    let mut r = f.store.get(&mine).unwrap().unwrap();
    r.drafts = vec![f.now_ms];
    r.state = RequestState::Quarantined;
    f.store.put(&r).unwrap();

    let res = verb_on(&mut f, &owner, &mine, "release", "{}");
    assert_eq!(res.status, 429, "{}", res.body);
    assert_eq!(
        f.store.get(&mine).unwrap().unwrap().state,
        RequestState::Quarantined,
        "refused, and nothing moved"
    );
}

#[test]
fn an_owner_cannot_decline_somebody_elses_repository() {
    let (mut f, owner, _, theirs) = owner_fixture("owner-not-theirs");
    for verb in OWNER_VERBS {
        let res = verb_on(&mut f, &owner, &theirs, verb, "{}");
        assert_eq!(res.status, 404, "an owner reached {verb} on another repo");
    }
    assert_eq!(
        f.store.get(&theirs).unwrap().unwrap().state,
        RequestState::Queued
    );
}

#[test]
fn accepting_is_the_one_verb_no_owner_has() {
    for verb in OWNER_VERBS {
        assert!(REVIEW_VERBS.contains(&verb), "{verb} is not a review verb");
    }
    assert!(
        !OWNER_VERBS.contains(&"accept"),
        "accept settles a request and is not an owner's to reach"
    );
}

#[test]
fn an_owner_cannot_reach_a_repository_they_do_not_own() {
    let mut f = Fixture::new("owner-no-approve")
        .with_public(false)
        .with_repos(&["intake", "other"])
        .with_owner("jamez667@example.test", &["other"]);
    let owner = f.signed_in_with_login("jamez667@example.test");

    let filer = f.signed_in("jo@x.com");
    file_publicly_as(&mut f, &filer, "a thing", "intake");
    let id = f.store.all().unwrap()[0].id.clone();

    for verb in REVIEW_VERBS {
        let res = verb_on(&mut f, &owner, &id, verb, "{}");
        assert_eq!(res.status, 404, "an owner reached {verb}: {}", res.body);
    }
    assert_eq!(
        f.store.get(&id).unwrap().unwrap().state,
        RequestState::Queued,
        "and nothing moved"
    );
    assert_eq!(
        f.go(&Req::get(&api_path("settings")).with_cookie(&owner))
            .status,
        404
    );
}

#[test]
fn an_owner_is_recognised_only_because_the_roster_says_so() {
    let mut f = Fixture::new("owner-from-roster").with_public(false);
    let session = f.signed_in_with_login("jamez667@example.test");

    let me = f.go(&Req::get(ME_PATH).with_cookie(&session));
    assert!(me.body.contains("\"filer\""), "a login alone: {}", me.body);
    assert!(
        me.body.contains("\"review\":false"),
        "a login alone granted review: {}",
        me.body
    );
    let listed = f.go(&Req::get(&api_path("requests")).with_cookie(&session));
    assert_eq!(listed.body, "[]", "a login alone reviews nothing");
}

#[test]
fn revoking_an_owner_demotes_a_live_session_on_the_very_next_request() {
    let (mut f, session, _mine, _theirs) = owner_fixture("owner-demote");

    let listed = f
        .go(&Req::get("/api/v1/ui/requests").with_cookie(&session))
        .body;
    assert!(listed.contains("for intake"), "an owner sees it: {listed}");
    assert_eq!(
        f.go(&Req::get("/api/v1/ui/settings").with_cookie(&session))
            .status,
        404
    );

    let mut roster = f.store.roster().unwrap();
    assert!(roster.revoke("jamez667@example.test"));
    f.store.put_roster(&roster).unwrap();

    let listed = f
        .go(&Req::get("/api/v1/ui/requests").with_cookie(&session))
        .body;
    assert!(
        !listed.contains("for intake"),
        "a revoked owner still reviews: {listed}"
    );
    let me = f.go(&Req::get(ME_PATH).with_cookie(&session));
    assert!(
        me.body.contains("\"filer\""),
        "signed out, not demoted: {}",
        me.body
    );
    assert!(me.body.contains("\"file\":true"), "{}", me.body);
}

#[test]
fn an_owner_of_a_repository_this_surface_stopped_serving_is_not_one_here() {
    let mut f = Fixture::new("owner-stale-repo")
        .with_public(false)
        .with_repos(&["intake"])
        .with_owner("jamez667@example.test", &["something-else"]);
    let owner = f.signed_in_with_login("jamez667@example.test");

    let filer = f.signed_in("jo@x.com");
    f.go(
        &Req::post(public_route::FILE, "text=for+intake&kind=bug&repo=intake")
            .with_cookie(&filer),
    );

    let html = f.go(&Req::get(public_route::FILE).with_cookie(&owner)).body;
    assert!(
        !html.contains("for intake"),
        "owner of nothing this surface serves: {html}"
    );
}

#[test]
fn an_owner_cannot_promote_anybody_including_themselves() {
    let (mut f, session, _mine, _theirs) = owner_fixture("owner-no-promote");

    for body in [
        r#"{"login":"jamez667@example.test","repos":["intake","other"]}"#,
        r#"{"login":"accomplice","repos":["intake"]}"#,
    ] {
        let res = f.go(&Req::post_json(&api_path("owners"), body).with_cookie(&session));
        assert_eq!(
            res.status, 404,
            "an owner reached the roster with {body}: {}",
            res.body
        );
    }
    let roster = f.store.roster().unwrap();
    assert!(roster.owner_for("accomplice").is_none());
    assert_eq!(
        roster.owner_for("jamez667@example.test").unwrap().repos,
        ["intake"]
    );
}

#[test]
fn the_developer_promotes_and_revokes_owners() {
    let mut f = Fixture::new("owners-admin")
        .with_public(false)
        .with_repos(&["intake", "other"]);
    let device = f.as_admin();

    let res = f.go(&Req::post_json(
        &api_path("owners"),
        r#"{"login":"JameZ667@example.test","repos":["intake","other"]}"#,
    )
    .with_cookie(&device));
    assert_eq!(res.status, 200, "{}", res.body);
    let roster = f.store.roster().unwrap();
    let owner = roster.owner_for("jamez667@example.test").expect("promoted");
    assert_eq!(owner.repos, ["intake", "other"], "both repositories");

    let res = f.go(
        &Req::post_json(&api_path("owners/jamez667@example.test/revoke"), "{}")
            .with_cookie(&device),
    );
    assert_eq!(res.status, 200, "{}", res.body);
    assert!(f
        .store
        .roster()
        .unwrap()
        .owner_for("jamez667@example.test")
        .is_none());
}

#[test]
fn a_repository_no_daemon_declared_is_not_enabled_by_accident() {
    let mut f = Fixture::new("repos-typo").with_public(false);
    let device = f.as_admin();

    f.go(&Req::get(&format!("{}?repo=smart-coder", WORK)).with_bearer(KEY));

    let res = f.go(
        &Req::post_json(&api_path("repos"), r#"{"name":"smrt-coder"}"#).with_cookie(&device),
    );
    assert_eq!(
        res.status, 409,
        "questioned, not silently accepted: {}",
        res.body
    );
    assert!(
        f.store.roster().unwrap().enabled().is_empty(),
        "a misspelling was written on the first ask"
    );
    assert!(res.body.contains("anyway"), "{}", res.body);


    let res = f.go(
        &Req::post_json(&api_path("repos"), r#"{"name":"smart-coder"}"#).with_cookie(&device),
    );
    assert_eq!(res.status, 200, "{}", res.body);
    let roster = f.store.roster().unwrap();
    assert_eq!(roster.enabled(), ["smart-coder"]);
    assert_eq!(roster.repos[0].served_by.as_deref(), Some("test-daemon"));
}

#[test]
fn an_unconfirmed_repository_can_be_enabled_anyway_and_says_so() {
    let mut f = Fixture::new("repos-anyway").with_public(false);
    let device = f.as_admin();

    let res = f.go(&Req::post_json(
        &api_path("repos"),
        r#"{"name":"not-yet-polling","anyway":true}"#,
    )
    .with_cookie(&device));
    assert_eq!(res.status, 200, "{}", res.body);
    let roster = f.store.roster().unwrap();
    assert_eq!(roster.enabled(), ["not-yet-polling"]);
    assert_eq!(
        roster.repos[0].served_by, None,
        "an assertion is not a confirmation"
    );
}

#[test]
fn a_surface_with_no_repositories_still_serves_and_says_so() {
    let mut f = Fixture::new("repos-none").with_public(false);
    if let Some(p) = f.public.as_mut() {
        p.repos = Repos { names: Vec::new() };
    }
    let session = f.signed_in("jo@x.com");

    let res = f.go(&Req::get(public_route::FILE).with_cookie(&session));
    assert_eq!(res.status, 200, "the address still serves");

    let me = f.go(&Req::get(ME_PATH).with_cookie(&session));
    let mine: serde_json::Value = serde_json::from_str(&me.body).unwrap();
    assert!(
        mine["repos"].as_array().is_none_or(|r| r.is_empty()),
        "a repository was offered on a surface that serves none: {}",
        me.body
    );

    let res = f.go(
        &Req::post_json(&api_path("file"), r#"{"text":"a thing","kind":"bug"}"#)
            .with_cookie(&session),
    );
    assert_eq!(res.status, 400, "{}", res.body);
    assert!(f.store.all().unwrap().is_empty());
}

#[test]
fn disabling_a_repository_keeps_what_already_came_through_it() {
    let mut f = Fixture::new("repos-disable")
        .with_public(false)
        .with_repos(&["intake"]);
    let device = f.as_admin();
    let filer = f.signed_in("jo@x.com");
    file_publicly_as(&mut f, &filer, "a thing", "intake");
    assert_eq!(f.store.all().unwrap().len(), 1);

    let res =
        f.go(&Req::post_json(&api_path("repos/intake/disable"), "{}").with_cookie(&device));
    assert_eq!(res.status, 200, "{}", res.body);
    assert!(f.store.roster().unwrap().enabled().is_empty());
    assert_eq!(f.store.all().unwrap().len(), 1, "the filing survived");
}

#[test]
fn an_owner_cannot_reach_the_repository_switch() {
    let (mut f, session, _mine, _theirs) = owner_fixture("repos-owner");

    for (rest, body) in [
        ("repos", r#"{"name":"whatever","anyway":true}"#),
        ("repos/intake/disable", "{}"),
    ] {
        let res = f.go(&Req::post_json(&api_path(rest), body).with_cookie(&session));
        assert_eq!(res.status, 404, "an owner reached {rest}: {}", res.body);
    }
    assert_eq!(f.store.roster().unwrap().enabled(), ["intake", "other"]);
}

#[test]
fn a_repository_this_server_does_not_serve_cannot_be_owned() {
    let mut f = Fixture::new("owners-unknown-repo")
        .with_public(false)
        .with_repos(&["intake"]);
    let device = f.as_admin();

    let res = f.go(&Req::post_json(
        &api_path("owners"),
        r#"{"login":"jamez667@example.test","repos":["not-served"]}"#,
    )
    .with_cookie(&device));
    assert_eq!(res.status, 400, "{}", res.body);
    assert!(f.store.roster().unwrap().owners.is_empty());

    let res = f.go(&Req::post_json(
        &api_path("owners"),
        r#"{"login":"jamez667@example.test"}"#,
    )
    .with_cookie(&device));
    assert_eq!(res.status, 400, "{}", res.body);
    assert!(f.store.roster().unwrap().owners.is_empty());

    let res = f.go(&Req::post_json(
        &api_path("owners"),
        r#"{"login":"jamez667@example.test","repos":[]}"#,
    )
    .with_cookie(&device));
    assert_eq!(res.status, 400, "{}", res.body);
    assert!(f.store.roster().unwrap().owners.is_empty());
}

#[test]
fn a_filer_cannot_reach_any_review_verb() {
    let mut f = Fixture::new("public-no-review").with_public(false);
    let session = f.signed_in("jo@x.com");
    file_publicly_as(&mut f, &session, "a thing", "intake");
    let id = f.store.all().unwrap()[0].id.clone();

    for verb in REVIEW_VERBS {
        let res = verb_on(&mut f, &session, &id, verb, "{}");
        assert_eq!(res.status, 404, "an account reached {verb}: {}", res.body);
    }
    assert_eq!(
        f.store.get(&id).unwrap().unwrap().state,
        RequestState::Queued,
        "and nothing moved"
    );
    let listed = f.go(&Req::get(&api_path("requests")).with_cookie(&session));
    assert_eq!(listed.status, 200);
    assert!(
        !listed.body.contains("artifact_dir") && !listed.body.contains("spec_digest"),
        "a filer was handed more than a filer sees: {}",
        listed.body
    );
    let one = f.go(&Req::get(&api_path(&format!("requests/{id}"))).with_cookie(&session));
    assert_eq!(one.status, 200, "their own filing is theirs to read");
    assert!(
        !one.body.contains("artifact_dir") && !one.body.contains("spec_digest"),
        "a filer was handed more than a filer sees: {}",
        one.body
    );
    let me = f.go(&Req::get(ME_PATH).with_cookie(&session));
    assert!(me.body.contains("\"review\":false"), "{}", me.body);
    assert_eq!(
        f.go(&Req::get(public_route::LANDING).with_cookie(&session))
            .status,
        200
    );
}

#[test]
fn a_filer_cannot_reach_the_daemon_api() {
    let mut f = Fixture::new("public-no-daemon").with_public(false);
    let session = f.signed_in("jo@x.com");
    assert_eq!(
        f.go(&Req::get(WORK).with_cookie(&session))
            .status,
        401
    );
}

#[test]
fn signing_out_stops_the_session_working() {
    let mut f = Fixture::new("public-signout").with_public(false);
    let session = f.signed_in("jo@x.com");
    let before = f.go(&Req::get(ME_PATH).with_cookie(&session));
    assert!(before.body.contains("\"filer\""), "{}", before.body);

    let out = f.go(&Req::post_json(&api_path("signout"), "{}").with_cookie(&session));
    assert_eq!(out.status, 200, "{}", out.body);
    let after = f.go(&Req::get(ME_PATH).with_cookie(&session));
    assert!(
        after.body.contains("\"anonymous\""),
        "signed out: {}",
        after.body
    );
}

#[test]
fn a_revoked_account_stops_filing_immediately() {
    let mut f = Fixture::new("public-revoke-live").with_public(false);
    let session = f.signed_in("jo@x.com");

    let mut accounts = f.store.accounts().unwrap();
    let id = accounts.live()[0].id.clone();
    accounts.revoke(&id);
    f.store.put_accounts(&accounts).unwrap();

    let res = f.go(
        &Req::post_json(&api_path("file"), r#"{"text":"a thing","kind":"bug"}"#)
            .with_cookie(&session),
    );
    assert_eq!(res.status, 404, "{}", res.body);
    assert!(f.store.all().unwrap().is_empty(), "nothing was filed");

    let me = f.go(&Req::get(ME_PATH).with_cookie(&session));
    assert!(me.body.contains("\"anonymous\""), "{}", me.body);
}

#[test]
fn the_developer_can_revoke_an_account_from_a_route() {
    let mut f = Fixture::new("revoke-route").with_public(false);
    let session = f.signed_in("jo@x.com");
    let device = f.as_admin();

    let id = f
        .store
        .accounts()
        .unwrap()
        .live()
        .iter()
        .find(|a| a.email_hint.contains("jo"))
        .expect("the filer")
        .id
        .clone();
    let listed = f.go(&Req::get(&api_path("accounts")).with_cookie(&device));
    assert_eq!(listed.status, 200);
    assert!(listed.body.contains("jo***@x.com"), "{}", listed.body);

    let res = f.go(
        &Req::post_json(&api_path(&format!("accounts/{id}/revoke")), "{}").with_cookie(&device),
    );
    assert_eq!(res.status, 200, "{}", res.body);
    let accounts = f.store.accounts().unwrap();
    assert!(accounts.live().iter().all(|a| a.id != id), "still live");
    assert_eq!(
        f.go(&Req::get(&api_path("settings")).with_cookie(&device))
            .status,
        200,
        "revoking a filer locked out the administrator"
    );

    let after = f.go(&Req::get(ME_PATH).with_cookie(&session));
    assert!(after.body.contains("\"anonymous\""), "{}", after.body);
}

#[test]
fn a_filer_cannot_reach_the_accounts_surface() {
    let mut f = Fixture::new("accounts-closed").with_public(false);
    let session = f.signed_in("jo@x.com");
    let id = f.store.accounts().unwrap().live()[0].id.clone();

    assert_eq!(
        f.go(&Req::get(&api_path("accounts")).with_cookie(&session))
            .status,
        404
    );
    assert_eq!(
        f.go(
            &Req::post_json(&api_path(&format!("accounts/{id}/revoke")), "{}")
                .with_cookie(&session)
        )
        .status,
        404
    );
    assert!(!f.store.accounts().unwrap().live().is_empty(), "still live");
}

#[test]
fn revoking_twice_is_not_an_error() {
    let mut f = Fixture::new("revoke-twice")
        .with_public(false)
        .with_repos(&["intake"])
        .with_owner("jamez667@example.test", &["intake"]);
    f.signed_in("jo@x.com");
    let device = f.as_admin();
    let id = f.store.accounts().unwrap().live()[0].id.clone();
    mint_daemon(&mut f, &device, "laptop");

    let twice = |f: &mut Fixture, rest: &str| {
        for pass in 1..=2 {
            let res = f.go(&Req::post_json(&api_path(rest), "{}").with_cookie(&device));
            assert_eq!(res.status, 200, "{rest} pass {pass}: {}", res.body);
        }
    };
    twice(&mut f, &format!("accounts/{id}/revoke"));
    twice(&mut f, "owners/jamez667@example.test/revoke");
    twice(&mut f, "daemons/laptop/revoke");
    twice(&mut f, "repos/intake/disable");

    for rest in [
        "accounts/never-existed/revoke",
        "owners/nobody/revoke",
        "daemons/no-such-machine/revoke",
        "repos/no-such-repo/disable",
    ] {
        let res = f.go(&Req::post_json(&api_path(rest), "{}").with_cookie(&device));
        assert_eq!(res.status, 200, "{rest}: {}", res.body);
    }
}

#[test]
fn the_public_pages_carry_the_same_security_headers() {
    let named: Vec<&str> = security_headers(Policy::PublicScript)
        .iter()
        .map(|(k, _)| *k)
        .collect();
    for required in [
        "Referrer-Policy",
        "Cache-Control",
        "Content-Security-Policy",
    ] {
        assert!(named.contains(&required));
    }
}

#[test]
fn the_script_policy_reaches_the_public_surface_and_stops_there() {
    let mut f = Fixture::new("policy-split").with_public(false);
    let account = f.signed_in("filer@example.test");
    let device = f.as_admin();

    let signin_link = format!("{}sometoken", public_route::SIGNIN_PREFIX);
    for path in [public_route::SIGNIN, public_route::FILE, &signin_link] {
        let res = f.go(&Req::get(path).with_cookie(&account));
        assert_eq!(
            res.policy,
            Policy::PublicScript,
            "{path} is on the public surface"
        );
    }

    let stray = f.go(&Req::get("/public/nothing-here").with_cookie(&account));
    assert_eq!(stray.status, 404, "not a public route");
    assert_eq!(stray.policy, Policy::Strict);

    for path in [private_route::REVIEW, "/accounts"] {
        let res = f.go(&Req::get(path).with_cookie(&device));
        assert_eq!(res.status, 200, "{path}: {}", res.body);
        assert_eq!(
            res.policy,
            Policy::PublicScript,
            "{path} answers the interface's document"
        );
    }

    for path in [ME_PATH, "/api/v1/ui/requests", "/api/v1/ui/settings"] {
        let res = f.go(&Req::get(path).with_cookie(&device));
        assert_eq!(res.policy, Policy::Strict, "{path} is data, not a document");
    }

    assert_eq!(
        f.go(&Req::get("/api/v1/work").with_bearer(KEY)).policy,
        Policy::Strict
    );
}

#[test]
fn choosing_a_language_sets_a_cookie_and_the_server_answers_in_it() {
    let mut f = Fixture::new("lang-set").with_public(false);
    let res = f.go(&Req::post(public_route::LANGUAGE, "lang=fr"));

    assert_eq!(res.status, 200);
    let cookie = res.set_cookie.expect("a language cookie is set");
    assert!(cookie.starts_with(&format!("{LANG_COOKIE}=fr")), "{cookie}");
    assert!(!cookie.contains("HttpOnly"), "{cookie}");
    assert!(cookie.contains("SameSite=Lax"), "{cookie}");
    assert!(cookie.contains("Secure"), "{cookie}");

    let session = f.signed_in("filer@example.test");
    file_publicly_as(&mut f, &session, "a thing", "intake");
    let filed = f.go(&Req::get(&api_path("requests"))
        .with_cookie(&session)
        .with_lang(Some("fr"), None));
    assert!(filed.body.contains("reçue"), "{}", filed.body);
}

#[test]
fn cookies_are_secure_on_a_deployed_server_and_not_on_loopback() {
    let mut deployed = Fixture::new("secure-yes").with_public(false);
    let account = deployed.signed_in("filer@example.test");
    for res in [
        deployed.go(&Req::post(public_route::LANGUAGE, "lang=fr")),
        deployed.go(&Req::post_json(&api_path("signout"), "{}").with_cookie(&account)),
    ] {
        let c = res.set_cookie.expect("a cookie is set");
        assert!(c.contains("; Secure"), "{c}");
    }

    let mut local = Fixture::new("secure-no").with_public(false).on_loopback();
    let account = local.signed_in("filer@example.test");
    for res in [
        local.go(&Req::post(public_route::LANGUAGE, "lang=fr")),
        local.go(&Req::post_json(&api_path("signout"), "{}").with_cookie(&account)),
    ] {
        let c = res.set_cookie.expect("a cookie is set");
        assert!(!c.contains("Secure"), "{c}");
        assert!(c.contains("SameSite="), "{c}");
    }
}

#[test]
fn the_fonts_are_served_from_this_origin_as_real_woff2() {
    for public in [true, false] {
        let mut f = Fixture::new(&format!("fonts-{public}"));
        if public {
            f = f.with_public(false);
        }
        for path in [
            FONT_BODY_PATH,
            FONT_DISPLAY_PATH,
        ] {
            let res = f.go(&Req::get(path));
            assert_eq!(res.status, 200, "{path} with public={public}");
            assert_eq!(res.content_type, "font/woff2", "{path}");
            assert!(
                matches!(res.asset, Some(Asset::FontBody | Asset::FontDisplay)),
                "a font is bytes, not a string: {path}"
            );
        }

        assert_eq!(f.go(&Req::get(FONT_BODY_PATH)).status, 200);
    }
}

#[test]
fn the_language_route_is_reachable_signed_out() {
    let mut f = Fixture::new("lang-anon").with_public(false);
    let res = f.go(&Req::post(public_route::LANGUAGE, "lang=fr"));
    assert_eq!(res.status, 200);
    assert!(
        res.set_cookie
            .as_deref()
            .unwrap_or_default()
            .starts_with(&format!("{LANG_COOKIE}=fr")),
        "{:?}",
        res.set_cookie
    );
}

#[test]
fn an_unknown_language_falls_back_rather_than_reaching_the_cookie() {
    let mut f = Fixture::new("lang-unknown").with_public(false);
    for hostile in [
        "lang=de",
        "lang=",
        "lang=%3Cscript%3Ealert(1)%3C%2Fscript%3E",
        "lang=../../etc/passwd",
        "",
    ] {
        let res = f.go(&Req::post(public_route::LANGUAGE, hostile));
        assert_eq!(res.status, 200, "{hostile}");
        let cookie = res.set_cookie.clone().unwrap_or_default();
        assert!(
            cookie.starts_with(&format!("{LANG_COOKIE}=en")),
            "{hostile}: {cookie}"
        );
        assert!(!cookie.contains("alert(1)"), "{hostile}: {cookie}");
        assert!(!cookie.contains("passwd"), "{hostile}: {cookie}");
        assert!(res.body.contains("<html lang=\"en\""), "{hostile}");
        assert!(!res.body.contains("alert(1)"), "{hostile}: {}", res.body);
        assert!(!res.body.contains("passwd"), "{hostile}: {}", res.body);
    }
}

#[test]
fn a_signed_in_filers_pages_follow_their_chosen_language() {
    let mut f = Fixture::new("lang-through").with_public(false);
    let account = f.signed_in("filer@example.test");
    file_publicly_as(&mut f, &account, "a thing", "intake");

    let filed = f.go(&Req::get(&api_path("requests"))
        .with_cookie(&account)
        .with_lang(Some("fr"), None));
    assert_eq!(filed.status, 200, "{}", filed.body);
    assert!(filed.body.contains("reçue"), "{}", filed.body);

    let by_header = f.go(&Req::get(&api_path("requests"))
        .with_cookie(&account)
        .with_lang(None, Some("fr-CA,fr;q=0.9,en;q=0.5")));
    assert!(by_header.body.contains("reçue"), "{}", by_header.body);

    let english = f.go(&Req::get(&api_path("requests"))
        .with_cookie(&account)
        .with_lang(Some("en"), None));
    assert!(english.body.contains("received"), "{}", english.body);
}

#[test]
fn the_private_surface_is_not_translated() {
    let mut f = Fixture::new("lang-private").with_public(false);
    let device = f.as_admin();
    let res = f.go(&Req::get(private_route::REVIEW)
        .with_cookie(&device)
        .with_lang(Some("fr"), None));
    assert_eq!(res.status, 200);
    assert!(res.body.contains("<html lang=\"en\""), "{}", res.body);
}

#[test]
fn a_public_path_is_strict_when_no_public_surface_is_configured() {
    let mut f = Fixture::new("policy-unconfigured");
    let res = f.go(&Req::get(public_route::SIGNOUT));
    assert_eq!(res.status, 404, "{}", res.body);
    assert_eq!(res.policy, Policy::Strict);
}

#[test]
fn an_account_cannot_file_past_its_daily_cap() {
    let mut f = Fixture::new("daily-cap")
        .with_public(false)
        .with_caps(3, 100);
    let session = f.signed_in("jo@x.com");

    for i in 0..3 {
        let res = try_filing_as(&mut f, &session, &format!("thing {i}"));
        assert_eq!(res.status, 200, "filing {i}: {}", res.body);
    }

    let refused = try_filing_as(&mut f, &session, "one too many");
    assert_eq!(refused.status, 429, "{}", refused.body);
    assert!(refused.body.contains("limit"), "{}", refused.body);
    assert_eq!(f.store.all().unwrap().len(), 3, "nothing extra was written");
}

#[test]
fn the_daily_cap_counts_filings_not_survivors() {
    let mut f = Fixture::new("cap-counts")
        .with_public(false)
        .with_caps(2, 100);
    let session = f.signed_in("jo@x.com");

    file_publicly_as(&mut f, &session, "first", "intake");
    let id = f.store.all().unwrap()[0].id.clone();
    f.store.discard(&id).unwrap();
    file_publicly_as(&mut f, &session, "second", "intake");

    let refused = try_filing_as(&mut f, &session, "third");
    assert_eq!(refused.status, 429, "a discard did not refund the budget");
}

#[test]
fn a_quarantined_filing_still_counts_against_the_cap() {
    let mut f = Fixture::new("cap-quarantined")
        .with_public(true)
        .with_caps(1, 100);
    let session = f.signed_in("jo@x.com");

    file_publicly_as(&mut f, &session, "spam", "intake");
    let id = f.store.all().unwrap()[0].id.clone();
    f.store
        .finish_screening(&id, Some("screened as spam"))
        .unwrap();

    let listed = f.go(&Req::get(&api_path("requests")).with_cookie(&session));
    assert!(
        !listed.body.contains("quarantined") && !listed.body.contains("screened as spam"),
        "a filer was told the screener held it: {}",
        listed.body
    );

    let refused = try_filing_as(&mut f, &session, "another");
    assert_eq!(refused.status, 429, "quarantine did not refund the budget");
}

#[test]
fn a_developers_own_filings_are_outside_the_account_cap() {
    let mut f = Fixture::new("cap-device")
        .with_public(false)
        .with_caps(1, 100);
    let device = f.as_admin();
    for i in 0..3 {
        let res = f.go(
            &Req::post_json(
                &api_path("file"),
                &obj(&[("text", &format!("thing {i}")), ("repo", "alpha"), ("kind", "bug")]),
            )
            .with_cookie(&device),
        );
        assert_eq!(res.status, 200, "administrator filing {i}: {}", res.body);
    }
    assert_eq!(f.store.all().unwrap().len(), 3);
}

#[test]
fn revoking_does_not_free_a_slot_under_the_account_ceiling() {
    let mut f = Fixture::new("ceiling-revoked")
        .with_public(false)
        .with_caps(20, 1);
    f.signed_in("first@x.com");

    let mut accounts = f.store.accounts().unwrap();
    let id = accounts.live()[0].id.clone();
    accounts.revoke(&id);
    f.store.put_accounts(&accounts).unwrap();
    assert!(f.store.accounts().unwrap().live().is_empty());

    let token = link_token_for(&mut f, "second@x.com");
    let res = f.go(&Req::post(
        &format!("{}{token}", public_route::SIGNIN_PREFIX),
        "",
    ));

    assert!(cookie_token(&res).is_none(), "the slot was not freed");
    assert_eq!(f.store.accounts().unwrap().accounts.len(), 1);
}

#[test]
fn the_cap_is_per_account_not_global() {
    let mut f = Fixture::new("cap-per-account")
        .with_public(false)
        .with_caps(1, 100);

    let alice = f.signed_in("alice@x.com");
    file_publicly_as(&mut f, &alice, "alice", "intake");
    assert_eq!(try_filing_as(&mut f, &alice, "more").status, 429);

    let bob = f.signed_in("bob@x.com");
    assert_eq!(
        try_filing_as(&mut f, &bob, "bob").status,
        200,
        "another filer has their own budget"
    );
}

#[test]
fn the_window_rolls_so_a_capped_filer_recovers() {
    let mut f = Fixture::new("cap-rolls")
        .with_public(false)
        .with_caps(1, 100);
    let session = f.signed_in("jo@x.com");
    file_publicly_as(&mut f, &session, "first", "intake");
    assert_eq!(try_filing_as(&mut f, &session, "second").status, 429);

    f.now_ms += FILING_WINDOW_MS + 1;
    let res = try_filing_as(&mut f, &session, "tomorrow");
    assert_eq!(res.status, 200, "{}", res.body);
}

#[test]
fn signup_stops_at_the_account_ceiling() {
    let mut f = Fixture::new("account-cap")
        .with_public(false)
        .with_caps(20, 1);
    f.signed_in("first@x.com");
    assert_eq!(f.store.accounts().unwrap().accounts.len(), 1);

    let token = link_token_for(&mut f, "second@x.com");
    let res = f.go(&Req::post(
        &format!("{}{token}", public_route::SIGNIN_PREFIX),
        "",
    ));

    assert!(cookie_token(&res).is_none(), "no session was opened");
    assert_eq!(
        f.store.accounts().unwrap().accounts.len(),
        1,
        "and no account was created"
    );
}

#[test]
fn an_existing_filer_signs_in_past_the_account_ceiling() {
    let mut f = Fixture::new("account-cap-existing")
        .with_public(false)
        .with_caps(20, 1);
    f.signed_in("jo@x.com");

    let session = f.signed_in("jo@x.com");
    let me = f.go(&Req::get(ME_PATH).with_cookie(&session));
    assert!(
        me.body.contains("\"filer\""),
        "an existing filer was locked out by the signup wall: {}",
        me.body
    );
    assert_eq!(f.store.accounts().unwrap().accounts.len(), 1);
}

#[test]
fn a_public_filing_is_length_capped_like_any_other() {
    let mut f = Fixture::new("public-length").with_public(false);
    let session = f.signed_in("jo@x.com");

    let res = try_filing_as(&mut f, &session, &"word ".repeat(MAX_WORDS + 10));
    assert_eq!(res.status, 400, "{}", res.body);
    assert!(res.body.contains("words"), "{}", res.body);
    assert!(f.store.all().unwrap().is_empty());

    let res = try_filing_as(&mut f, &session, &"x".repeat(MAX_BYTES + 1));
    assert_eq!(res.status, 400, "{}", res.body);
    assert!(res.body.contains("characters"), "{}", res.body);
    assert!(f.store.all().unwrap().is_empty());
}

#[test]
fn a_public_path_is_matched_exactly_and_not_by_prefix() {
    assert!(is_public_path(public_route::FILE));
    assert!(is_public_path(public_route::SIGNIN));
    assert!(is_public_path(public_route::SIGNOUT));
    assert!(is_public_path("/public/signin/abc"));
    assert!(is_public_path("/public/request/abc"));

    for near_miss in [
        "/publicXYZ",
        "/public-admin",
        "/publicsignin/abc",
        "/publi",
        "/enrol",
        "/review",
        "/request/abc",
    ] {
        assert!(!is_public_path(near_miss), "{near_miss} must not be public");
    }

    assert!(is_public_path("/"), "the landing page is public");
}

#[test]
fn public_traffic_and_enrolment_are_counted_separately() {
    let probe = |path: &str| -> Bucket { bucket_for(&None, "", path) };

    assert_eq!(
        probe("/api/v1/ui/signin/password"),
        Bucket::AnonPrivate,
        "guessing passwords over JSON is still guessing passwords"
    );
    assert_eq!(probe("/api/v1/ui/signin"), Bucket::PublicWrite);
    assert_eq!(probe("/api/v1/ui/signout"), Bucket::PublicWrite);

    assert_eq!(probe(public_route::SIGNIN), Bucket::PublicWrite);
    assert_eq!(probe("/public/signin/abc"), Bucket::PublicWrite);
    assert_eq!(probe(public_route::FILE), Bucket::PublicRead);
    assert_eq!(probe("/public/request/abc"), Bucket::PublicRead);

    assert_eq!(probe(public_route::LANDING), Bucket::PublicRead);

    assert_eq!(probe(private_route::SETUP), Bucket::AnonPrivate);
    assert_eq!(probe(private_route::REVIEW), Bucket::AnonPrivate);
}

#[test]
fn an_enrolled_device_is_not_throttled_by_someone_elses_guessing() {
    let mut f = Fixture::new("throttle-isolated");
    let token = f.as_admin();
    for _ in 0..40 {
        f.go(&Req::post("/enrol", "code=GUESS&label=x"));
    }
    assert_eq!(
        f.go(&Req::get(private_route::REVIEW).with_cookie(&token))
            .status,
        200,
        "the developer's own device still works"
    );
}

#[test]
fn form_values_are_percent_decoded() {
    let fields = form_fields("text=add+a+%22health%22+check&repo=alpha");
    assert_eq!(fields.get("text").unwrap(), "add a \"health\" check");
    assert_eq!(fields.get("repo").unwrap(), "alpha");
}

#[test]
fn a_malformed_form_does_not_panic() {
    for body in ["", "=", "&&&", "a", "a=", "%", "%zz", "a=%2"] {
        let _ = form_fields(body);
    }
}

#[test]
fn a_query_string_does_not_change_which_route_runs() {
    let mut f = Fixture::new("query");
    let token = f.as_admin();
    assert_eq!(
        f.go(&Req::get("/review?x=1").with_cookie(&token)).status,
        200
    );
}

#[test]
fn a_listing_shows_what_needs_a_human_first() {
    let mut f = Fixture::new("order");
    let token = f.as_admin();
    let a = f.file(&token, "first", "alpha");
    let b = f.file(&token, "second", "beta");
    f.go(&Req::get(WORK).with_bearer(KEY));
    let payload = drafted_body(&a, "# S", "specs/x");
    f.go(&Req::post(&drafted(&a), &payload).with_bearer(KEY));

    let ordered = listing_order(f.store.all().unwrap());
    assert_eq!(ordered[0].id, a, "the one awaiting review is first");
    assert_eq!(ordered[1].id, b);
}
