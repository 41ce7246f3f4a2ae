//! Signing in and out.

use vstd::prelude::*;
use vstd::string::*;

use crate::config::PublicConfig;
use crate::i18n::{Locale, Strings};
use crate::routes::cookies;
use crate::routes::cookies::{ended_cookie, session_cookie};
use crate::routes::http;
use crate::routes::http::{error, Asset, Policy, Res, ResView};
use crate::routes::pages;
use crate::routes::pages::signin_failed_page;
use crate::routes::public_route;
use crate::routes::step::{Next, NextView};

verus! {

/// Can this server send a sign-in link?
pub open spec fn can_mail(public: Option<&PublicConfig>) -> bool {
    match public {
        Some(p) => p.mail,
        None => false,
    }
}

/// Can this server send a sign-in link?
pub fn has_mail(public: Option<&PublicConfig>) -> (r: bool)
    ensures
        r == can_mail(public),
{
    match public {
        Some(p) => p.mail,
        None => false,
    }
}

// ---------------------------------------------------------------------------
// Asking for a link
// ---------------------------------------------------------------------------

/// What asking for a link needs done.
#[derive(Debug, Clone, Copy, PartialEq, Eq, Structural)]
pub enum LinkAction {
    /// Is this an address at all?
    CheckAddress,
    /// Read the accounts, and look for one with this address.
    FindAccount,
    /// Read the links, drop the expired ones, and count those outstanding.
    CountLinks,
    /// Issue a link for this address.
    Issue,
    WriteLinks,
    /// Send it.
    Mail,
}

/// What has come back so far.
pub struct LinkFacts {
    pub valid: Option<bool>,
    /// Is there an account with this address that was revoked?
    pub revoked: Option<Result<bool, String>>,
    pub outstanding: Option<Result<usize, String>>,
    pub issued: Option<()>,
    pub written: Option<Result<(), String>>,
    /// Whether mail went out. Nothing depends on it.
    pub mailed: Option<bool>,
}

/// What is answered, whatever happened.
pub open spec fn link_sent() -> ResView {
    http::json_res(200, "{\"sent\":true}"@)
}

/// What asking for a link does next. Whether anything was sent, and why not, is
/// never answered: only what is done differs.
pub open spec fn link_next(f: LinkFacts, public: Option<&PublicConfig>) -> NextView<LinkAction> {
    match public {
        None => NextView::Reply(link_sent()),
        Some(p) => match f.valid {
            None => NextView::Do(LinkAction::CheckAddress),
            Some(false) => NextView::Reply(link_sent()),
            Some(true) => match f.revoked {
                None => NextView::Do(LinkAction::FindAccount),
                Some(Ok(false)) => match f.outstanding {
                    None => NextView::Do(LinkAction::CountLinks),
                    Some(Err(_)) => NextView::Reply(link_sent()),
                    Some(Ok(n)) => if n >= p.max_outstanding_links {
                        NextView::Reply(link_sent())
                    } else if f.issued is None {
                        NextView::Do(LinkAction::Issue)
                    } else {
                        match f.written {
                            None => NextView::Do(LinkAction::WriteLinks),
                            Some(Err(_)) => NextView::Reply(link_sent()),
                            Some(Ok(_)) => if f.mailed is None {
                                NextView::Do(LinkAction::Mail)
                            } else {
                                NextView::Reply(link_sent())
                            },
                        }
                    },
                },
                _ => NextView::Reply(link_sent()),
            },
        },
    }
}

/// Send a sign-in link, or do not.
pub fn try_send_link(f: &LinkFacts, public: Option<&PublicConfig>) -> (r: Next<LinkAction>)
    ensures
        r@ == link_next(*f, public),
{
    let sent = Res::json(200, "{\"sent\":true}");
    let p = match public {
        Some(p) => p,
        None => {
            return Next::Reply(sent);
        },
    };
    match f.valid {
        None => {
            return Next::Do(LinkAction::CheckAddress);
        },
        Some(valid) => {
            if !valid {
                return Next::Reply(sent);
            }
        },
    }
    // A revoked account is sent nothing at all.
    match &f.revoked {
        None => {
            return Next::Do(LinkAction::FindAccount);
        },
        Some(Err(_)) => {
            return Next::Reply(sent);
        },
        Some(Ok(revoked)) => {
            if *revoked {
                return Next::Reply(sent);
            }
        },
    }
    match &f.outstanding {
        None => {
            return Next::Do(LinkAction::CountLinks);
        },
        Some(Err(_)) => {
            return Next::Reply(sent);
        },
        Some(Ok(n)) => {
            // The ceiling on what mail costs, before any is sent.
            if *n >= p.max_outstanding_links {
                return Next::Reply(sent);
            }
        },
    }
    if f.issued.is_none() {
        return Next::Do(LinkAction::Issue);
    }
    match &f.written {
        None => {
            return Next::Do(LinkAction::WriteLinks);
        },
        Some(Err(_)) => {
            return Next::Reply(sent);
        },
        Some(Ok(_)) => {},
    }
    if f.mailed.is_none() {
        Next::Do(LinkAction::Mail)
    } else {
        Next::Reply(sent)
    }
}

/// The address of a sign-in link.
pub fn link_url(p: &PublicConfig, token: &str) -> (r: String)
    ensures
        r@ == p.base_url@ + public_route::SIGNIN_PREFIX@ + token@,
{
    p.base_url.clone().concat(public_route::SIGNIN_PREFIX).concat(token)
}

/// Whatever is asked about, the answer is the same: it cannot be used to find out
/// who has an account.
pub proof fn law_asking_for_a_link_reveals_nothing(
    f: LinkFacts,
    g: LinkFacts,
    public: Option<&PublicConfig>,
    a: ResView,
    b: ResView,
)
    requires
        link_next(f, public) == NextView::<LinkAction>::Reply(a),
        link_next(g, public) == NextView::<LinkAction>::Reply(b),
    ensures
        a == b,
{
}

/// Mail is sent only to an address, of nobody revoked, under the ceiling, and
/// for a link that is written down.
pub proof fn law_mail_is_sent_last(f: LinkFacts, p: &PublicConfig)
    requires
        link_next(f, Some(p)) == NextView::<LinkAction>::Do(LinkAction::Mail),
    ensures
        f.valid == Some(true),
        f.revoked matches Some(Ok(revoked)) && !revoked,
        f.outstanding matches Some(Ok(n)) && n < p.max_outstanding_links,
        f.written matches Some(Ok(_)),
{
}

// ---------------------------------------------------------------------------
// Spending a link
// ---------------------------------------------------------------------------

/// Why a link was not accepted.
#[derive(Debug, Clone, Copy, PartialEq, Eq, Structural)]
pub enum LinkError {
    /// It was spent before.
    AlreadyUsed,
    /// Anything else.
    Invalid,
}

/// What there is for the address that a link was sent to.
#[derive(Debug, Clone, Copy, PartialEq, Eq, Structural)]
pub struct AccountState {
    /// An account with this address was revoked.
    pub revoked: bool,
    /// There is a live account with this address.
    pub exists: bool,
    /// How many accounts there are altogether.
    pub accounts: usize,
}

/// What spending a link needs done.
#[derive(Debug, Clone, Copy, PartialEq, Eq, Structural)]
pub enum SpendAction {
    ReadLinks,
    Spend,
    WriteLinks,
    /// Read the accounts, and look for one with this address.
    FindAccount,
    /// Create the account where asked to, and open a session.
    OpenSession { create: bool },
    WriteAccounts,
}

/// What has come back so far.
pub struct SpendFacts {
    pub links: Option<Result<(), String>>,
    pub spent: Option<Result<(), LinkError>>,
    pub links_written: Option<Result<(), String>>,
    pub account: Option<Result<AccountState, String>>,
    pub session: Option<String>,
    pub accounts_written: Option<Result<(), String>>,
}

/// How many accounts there may be.
pub open spec fn account_cap(public: Option<&PublicConfig>) -> usize {
    match public {
        Some(p) => p.max_accounts,
        None => 0,
    }
}

/// The page for a link that did not work.
pub open spec fn failed_res(already_used: bool, locale: Locale, s: Strings) -> ResView {
    http::html_res(200, pages::failed_text(already_used, locale, s))
}

/// The interface, signed in.
pub open spec fn signed_in_res(session: Seq<char>, public: Option<&PublicConfig>) -> ResView {
    ResView {
        policy: Policy::PublicScript,
        set_cookie: Some(cookies::session_words(session, cookies::secured(public))),
        ..http::page_res(200, Asset::Index)
    }
}

/// What spending a link does next, once it is spent. Somebody who has an account
/// is never stopped by the ceiling on how many there may be.
pub open spec fn account_next(
    f: SpendFacts,
    public: Option<&PublicConfig>,
    locale: Locale,
    s: Strings,
) -> NextView<SpendAction> {
    match f.account {
        None => NextView::Do(SpendAction::FindAccount),
        Some(Err(e)) => NextView::Reply(http::error_res(500, e@)),
        Some(Ok(a)) => if a.revoked {
            NextView::Reply(failed_res(false, locale, s))
        } else if !a.exists && a.accounts >= account_cap(public) {
            NextView::Reply(failed_res(false, locale, s))
        } else {
            match f.session {
                None => NextView::Do(SpendAction::OpenSession { create: !a.exists }),
                Some(session) => match f.accounts_written {
                    None => NextView::Do(SpendAction::WriteAccounts),
                    Some(Err(e)) => NextView::Reply(http::error_res(500, e@)),
                    Some(Ok(_)) => NextView::Reply(signed_in_res(session@, public)),
                },
            }
        },
    }
}

/// What spending a link does next.
pub open spec fn spend_next(
    f: SpendFacts,
    public: Option<&PublicConfig>,
    locale: Locale,
    s: Strings,
) -> NextView<SpendAction> {
    match f.links {
        None => NextView::Do(SpendAction::ReadLinks),
        Some(Err(e)) => NextView::Reply(http::error_res(500, e@)),
        Some(Ok(_)) => match f.spent {
            None => NextView::Do(SpendAction::Spend),
            Some(Err(e)) => NextView::Reply(failed_res(e == LinkError::AlreadyUsed, locale, s)),
            Some(Ok(_)) => match f.links_written {
                None => NextView::Do(SpendAction::WriteLinks),
                Some(Err(e)) => NextView::Reply(http::error_res(500, e@)),
                Some(Ok(_)) => account_next(f, public, locale, s),
            },
        },
    }
}

/// The same, answered under a policy.
pub open spec fn under_policy<A>(n: NextView<A>, policy: Policy) -> NextView<A> {
    match n {
        NextView::Do(a) => NextView::Do(a),
        NextView::Reply(r) => NextView::Reply(ResView { policy, ..r }),
    }
}

fn open_account(
    f: &SpendFacts,
    public: Option<&PublicConfig>,
    locale: Locale,
    s: &Strings,
) -> (r: Next<SpendAction>)
    ensures
        r@ == account_next(*f, public, locale, *s),
{
    let found = match &f.account {
        None => {
            return Next::Do(SpendAction::FindAccount);
        },
        Some(Err(e)) => {
            return Next::Reply(error(500, e.as_str()));
        },
        Some(Ok(a)) => *a,
    };
    // Signing in again must not undo a revocation.
    if found.revoked {
        let page = signin_failed_page(false, locale, s);
        return Next::Reply(Res::html(200, page.as_str()));
    }
    let cap: usize = match public {
        Some(p) => p.max_accounts,
        None => 0,
    };
    if !found.exists && found.accounts >= cap {
        let page = signin_failed_page(false, locale, s);
        return Next::Reply(Res::html(200, page.as_str()));
    }
    let session = match &f.session {
        None => {
            return Next::Do(SpendAction::OpenSession { create: !found.exists });
        },
        Some(session) => session,
    };
    match &f.accounts_written {
        None => Next::Do(SpendAction::WriteAccounts),
        Some(Err(e)) => Next::Reply(error(500, e.as_str())),
        Some(Ok(_)) => Next::Reply(
            Res::page(200, Asset::Index).with_policy(Policy::PublicScript).with_set_cookie(
                session_cookie(public, session.as_str()),
            ),
        ),
    }
}

fn spend(
    f: &SpendFacts,
    public: Option<&PublicConfig>,
    locale: Locale,
    s: &Strings,
) -> (r: Next<SpendAction>)
    ensures
        r@ == spend_next(*f, public, locale, *s),
{
    match &f.links {
        None => {
            return Next::Do(SpendAction::ReadLinks);
        },
        Some(Err(e)) => {
            return Next::Reply(error(500, e.as_str()));
        },
        Some(Ok(_)) => {},
    }
    match &f.spent {
        None => {
            return Next::Do(SpendAction::Spend);
        },
        Some(Err(e)) => {
            let page = signin_failed_page(*e == LinkError::AlreadyUsed, locale, s);
            return Next::Reply(Res::html(200, page.as_str()));
        },
        Some(Ok(_)) => {},
    }
    match &f.links_written {
        None => Next::Do(SpendAction::WriteLinks),
        Some(Err(e)) => Next::Reply(error(500, e.as_str())),
        Some(Ok(_)) => open_account(f, public, locale, s),
    }
}

/// Spend a link: create the account where it is new, and open a session.
pub fn complete_sign_in(
    f: &SpendFacts,
    public: Option<&PublicConfig>,
    locale: Locale,
    s: &Strings,
    policy: Policy,
) -> (r: Next<SpendAction>)
    ensures
        r@ == under_policy(spend_next(*f, public, locale, *s), policy),
{
    match spend(f, public, locale, s) {
        Next::Do(a) => Next::Do(a),
        Next::Reply(res) => Next::Reply(res.with_policy(policy)),
    }
}

/// Until a link is spent, nothing is written and nobody is signed in.
pub proof fn law_nothing_is_opened_before_the_link_is_spent(
    f: SpendFacts,
    public: Option<&PublicConfig>,
    locale: Locale,
    s: Strings,
    policy: Policy,
)
    requires
        !(f.spent matches Some(Ok(_))),
    ensures
        match under_policy(spend_next(f, public, locale, s), policy) {
            NextView::Do(a) => a == SpendAction::ReadLinks || a == SpendAction::Spend,
            NextView::Reply(res) => res.set_cookie is None,
        },
{
}

/// A link that is refused is answered a page, without a cookie, whatever else has
/// come back: no session is opened, and neither links nor accounts are written.
pub proof fn law_a_refused_link_opens_nothing(
    f: SpendFacts,
    public: Option<&PublicConfig>,
    locale: Locale,
    s: Strings,
    policy: Policy,
)
    requires
        f.links matches Some(Ok(_)),
        f.spent matches Some(Err(_)),
    ensures
        match under_policy(spend_next(f, public, locale, s), policy) {
            NextView::Do(_) => false,
            NextView::Reply(res) => res.status == 200 && res.set_cookie is None,
        },
{
}

/// The facts with one more of them: what an action was answered, out of all that
/// the volume would answer.
pub open spec fn with_answer(f: SpendFacts, a: SpendAction, volume: SpendFacts) -> SpendFacts {
    match a {
        SpendAction::ReadLinks => SpendFacts { links: volume.links, ..f },
        SpendAction::Spend => SpendFacts { spent: volume.spent, ..f },
        SpendAction::WriteLinks => SpendFacts { links_written: volume.links_written, ..f },
        SpendAction::FindAccount => SpendFacts { account: volume.account, ..f },
        SpendAction::OpenSession { .. } => SpendFacts { session: volume.session, ..f },
        SpendAction::WriteAccounts => SpendFacts { accounts_written: volume.accounts_written, ..f },
    }
}

/// Would a volume answer every action?
pub open spec fn answers(volume: SpendFacts) -> bool {
    &&& volume.links is Some
    &&& volume.spent is Some
    &&& volume.links_written is Some
    &&& volume.account is Some
    &&& volume.session is Some
    &&& volume.accounts_written is Some
}

/// One attempt to sign in: what was done, in order, and what was answered.
#[verifier::ext_equal]
pub struct Attempt {
    pub actions: Seq<SpendAction>,
    pub reply: Option<ResView>,
}

/// An attempt from some facts on, over so many actions at the most.
pub open spec fn attempt_from(
    f: SpendFacts,
    volume: SpendFacts,
    public: Option<&PublicConfig>,
    locale: Locale,
    s: Strings,
    policy: Policy,
    steps: nat,
) -> Attempt
    decreases steps,
{
    match under_policy(spend_next(f, public, locale, s), policy) {
        NextView::Reply(res) => Attempt { actions: Seq::empty(), reply: Some(res) },
        NextView::Do(a) => if steps == 0 {
            Attempt { actions: Seq::empty(), reply: None }
        } else {
            let rest = attempt_from(
                with_answer(f, a, volume),
                volume,
                public,
                locale,
                s,
                policy,
                (steps - 1) as nat,
            );
            Attempt { actions: seq![a] + rest.actions, reply: rest.reply }
        },
    }
}

/// An attempt to sign in, from nothing to its answer.
pub open spec fn attempt(
    volume: SpendFacts,
    public: Option<&PublicConfig>,
    locale: Locale,
    s: Strings,
    policy: Policy,
) -> Attempt {
    attempt_from(
        SpendFacts {
            links: None,
            spent: None,
            links_written: None,
            account: None,
            session: None,
            accounts_written: None,
        },
        volume,
        public,
        locale,
        s,
        policy,
        6,
    )
}

/// Every attempt to sign in ends in an answer, and six actions are enough.
pub proof fn law_an_attempt_ends(
    volume: SpendFacts,
    public: Option<&PublicConfig>,
    locale: Locale,
    s: Strings,
    policy: Policy,
)
    requires
        answers(volume),
    ensures
        attempt(volume, public, locale, s, policy).reply is Some,
{
    reveal_with_fuel(attempt_from, 7);
}

/// A link signs in once. Whoever was given a session had their link spent and
/// written down first; and with a file that refuses a link it has on record as
/// spent, the next attempt is answered a page without a cookie, having read the
/// links, tried this one, and written neither links nor accounts.
pub proof fn law_a_link_signs_in_once(
    first: SpendFacts,
    second: SpendFacts,
    public: Option<&PublicConfig>,
    locale: Locale,
    s: Strings,
    policy: Policy,
)
    requires
        attempt(first, public, locale, s, policy).reply matches Some(res) && res.set_cookie is Some,
        second.links matches Some(Ok(_)),
        first.spent matches Some(Ok(_)) && first.links_written matches Some(Ok(_)) ==> (
        second.spent matches Some(Err(_))),
    ensures
        attempt(first, public, locale, s, policy).actions.take(3) == seq![
            SpendAction::ReadLinks,
            SpendAction::Spend,
            SpendAction::WriteLinks,
        ],
        attempt(second, public, locale, s, policy).actions == seq![
            SpendAction::ReadLinks,
            SpendAction::Spend,
        ],
        attempt(second, public, locale, s, policy).reply matches Some(res) && res.status == 200
            && res.set_cookie is None,
{
    reveal_with_fuel(attempt_from, 7);
}

/// No account is made beyond the ceiling, nor for somebody revoked, nor from a
/// link that is not written down as spent.
pub proof fn law_an_account_is_made_under_the_ceiling(
    f: SpendFacts,
    public: Option<&PublicConfig>,
    locale: Locale,
    s: Strings,
)
    requires
        spend_next(f, public, locale, s) == NextView::<SpendAction>::Do(
            SpendAction::OpenSession { create: true },
        ),
    ensures
        f.spent matches Some(Ok(_)),
        f.links_written matches Some(Ok(_)),
        f.account matches Some(Ok(a)) && !a.revoked && !a.exists && a.accounts < account_cap(
            public,
        ),
{
}

/// Somebody who has an account signs in however many there are.
pub proof fn law_the_ceiling_never_stops_a_filer(
    f: SpendFacts,
    public: Option<&PublicConfig>,
    locale: Locale,
    s: Strings,
)
    requires
        f.links matches Some(Ok(_)),
        f.spent matches Some(Ok(_)),
        f.links_written matches Some(Ok(_)),
        f.account matches Some(Ok(a)) && !a.revoked && a.exists,
        f.session is None,
    ensures
        spend_next(f, public, locale, s) == NextView::<SpendAction>::Do(
            SpendAction::OpenSession { create: false },
        ),
{
}

// ---------------------------------------------------------------------------
// A password
// ---------------------------------------------------------------------------

/// What signing in with a password needs done.
#[derive(Debug, Clone, Copy, PartialEq, Eq, Structural)]
pub enum PasswordAction {
    ReadAccounts,
    /// Check the password. That counts as an attempt, whichever way it goes.
    Check,
    /// Write the attempt down.
    WriteAttempt,
    /// Renew the session that the browser holds, if it is live.
    Refresh,
    /// Open a session.
    Open,
    WriteSession,
}

/// What has come back so far.
pub struct PasswordFacts {
    /// Could the accounts be read?
    pub accounts: Option<bool>,
    /// Was the password accepted?
    pub accepted: Option<bool>,
    pub attempt_written: Option<bool>,
    /// Was the browser's own session renewed?
    pub refreshed: Option<bool>,
    /// The session that was opened.
    pub opened: Option<String>,
    pub session_written: Option<bool>,
}

/// The session that a sign-in ends with: the browser's own where it was renewed.
pub open spec fn session_of(f: PasswordFacts, cookie: Option<Seq<char>>) -> Option<Seq<char>> {
    match cookie {
        Some(token) => if f.refreshed == Some(true) {
            Some(token)
        } else {
            match f.opened {
                Some(s) => Some(s@),
                None => None,
            }
        },
        None => match f.opened {
            Some(s) => Some(s@),
            None => None,
        },
    }
}

/// What signing in with a password does next. Every way that it fails has one
/// answer, and the attempt is written down before its outcome is looked at.
pub open spec fn password_next(
    f: PasswordFacts,
    cookie: Option<Seq<char>>,
    public: Option<&PublicConfig>,
    s: Strings,
) -> NextView<PasswordAction> {
    let wrong = NextView::Reply(http::error_res(401, s.signin_wrong@));
    match f.accounts {
        None => NextView::Do(PasswordAction::ReadAccounts),
        Some(false) => wrong,
        Some(true) => match f.accepted {
            None => NextView::Do(PasswordAction::Check),
            Some(accepted) => match f.attempt_written {
                None => NextView::Do(PasswordAction::WriteAttempt),
                Some(false) => wrong,
                Some(true) => if !accepted {
                    wrong
                } else if cookie is Some && f.refreshed is None {
                    NextView::Do(PasswordAction::Refresh)
                } else {
                    match session_of(f, cookie) {
                        None => NextView::Do(PasswordAction::Open),
                        Some(session) => match f.session_written {
                            None => NextView::Do(PasswordAction::WriteSession),
                            Some(false) => wrong,
                            Some(true) => NextView::Reply(
                                (ResView {
                                    set_cookie: Some(
                                        cookies::session_words(session, cookies::secured(public)),
                                    ),
                                    ..http::json_res(200, "{\"signed_in\":true}"@)
                                }),
                            ),
                        },
                    }
                },
            },
        },
    }
}

/// Check a password and, where it holds, open or renew the session for it.
pub fn check_password_for_session(
    f: &PasswordFacts,
    cookie: Option<&str>,
    public: Option<&PublicConfig>,
    s: &Strings,
) -> (r: Next<PasswordAction>)
    ensures
        r@ == password_next(*f, crate::text::opt_str(cookie), public, *s),
{
    let wrong = error(401, s.signin_wrong.as_str());
    match f.accounts {
        None => {
            return Next::Do(PasswordAction::ReadAccounts);
        },
        Some(read) => {
            if !read {
                return Next::Reply(wrong);
            }
        },
    }
    let accepted = match f.accepted {
        None => {
            return Next::Do(PasswordAction::Check);
        },
        Some(accepted) => accepted,
    };
    match f.attempt_written {
        None => {
            return Next::Do(PasswordAction::WriteAttempt);
        },
        Some(written) => {
            if !written {
                return Next::Reply(wrong);
            }
        },
    }
    if !accepted {
        return Next::Reply(wrong);
    }
    let mut session: Option<&str> = match &f.opened {
        Some(s) => Some(s.as_str()),
        None => None,
    };
    if let Some(token) = cookie {
        match f.refreshed {
            None => {
                return Next::Do(PasswordAction::Refresh);
            },
            Some(refreshed) => {
                if refreshed {
                    session = Some(token);
                }
            },
        }
    }
    let token = match session {
        None => {
            return Next::Do(PasswordAction::Open);
        },
        Some(token) => token,
    };
    match f.session_written {
        None => Next::Do(PasswordAction::WriteSession),
        Some(written) => {
            if !written {
                Next::Reply(wrong)
            } else {
                Next::Reply(
                    Res::json(200, "{\"signed_in\":true}").with_set_cookie(
                        session_cookie(public, token),
                    ),
                )
            }
        },
    }
}

/// No failure can be told from another: a wrong password, an unknown login and a
/// backoff are one answer.
pub proof fn law_a_failed_password_says_nothing(
    f: PasswordFacts,
    g: PasswordFacts,
    cookie: Option<Seq<char>>,
    other: Option<Seq<char>>,
    public: Option<&PublicConfig>,
    s: Strings,
    a: ResView,
    b: ResView,
)
    requires
        password_next(f, cookie, public, s) == NextView::<PasswordAction>::Reply(a),
        password_next(g, other, public, s) == NextView::<PasswordAction>::Reply(b),
        a.status != 200,
        b.status != 200,
    ensures
        a == b,
{
}

/// Nobody is let in whose attempt was not accepted and written down.
pub proof fn law_an_attempt_is_written_first(
    f: PasswordFacts,
    cookie: Option<Seq<char>>,
    public: Option<&PublicConfig>,
    s: Strings,
    res: ResView,
)
    requires
        password_next(f, cookie, public, s) == NextView::<PasswordAction>::Reply(res),
        f.accounts == Some(true),
    ensures
        f.attempt_written is Some,
        res.status == 200 ==> f.accepted == Some(true) && f.attempt_written == Some(true)
            && f.session_written == Some(true),
{
}

// ---------------------------------------------------------------------------
// Signing out
// ---------------------------------------------------------------------------

/// What is answered to a sign-out.
pub open spec fn signed_out(public: Option<&PublicConfig>) -> ResView {
    ResView {
        set_cookie: Some(cookies::ended_words(cookies::secured(public))),
        ..http::json_res(200, "{\"signed_out\":true}"@)
    }
}

/// What is answered to a sign-out, once the session is revoked. Dropping the
/// cookie alone would leave a token that still opens a door.
pub fn api_sign_out(public: Option<&PublicConfig>) -> (r: Res)
    ensures
        r@ == signed_out(public),
{
    Res::json(200, "{\"signed_out\":true}").with_set_cookie(ended_cookie(public))
}

/// What signing out needs done.
#[derive(Debug, Clone, Copy, PartialEq, Eq, Structural)]
pub enum SignOutAction {
    ReadAccounts,
    /// Revoke the session that the token belongs to, where there is one.
    EndSession,
    WriteAccounts,
}

/// What has come back so far.
#[derive(Debug, Clone, Copy, PartialEq, Eq, Structural)]
pub struct SignOutFacts {
    /// Could the accounts be read?
    pub accounts: Option<bool>,
    /// Was there such a session?
    pub ended: Option<bool>,
    /// They were written, or could not be.
    pub written: Option<bool>,
}

/// What signing out does next. The accounts are written only where a session
/// ended, and nothing that fails is told to whoever leaves.
pub open spec fn sign_out_next(
    f: SignOutFacts,
    public: Option<&PublicConfig>,
) -> NextView<SignOutAction> {
    if f.accounts is None {
        NextView::Do(SignOutAction::ReadAccounts)
    } else if f.accounts == Some(true) && f.ended is None {
        NextView::Do(SignOutAction::EndSession)
    } else if f.accounts == Some(true) && f.ended == Some(true) && f.written is None {
        NextView::Do(SignOutAction::WriteAccounts)
    } else {
        NextView::Reply(signed_out(public))
    }
}

/// Sign somebody out.
pub fn sign_out_step(f: &SignOutFacts, public: Option<&PublicConfig>) -> (r: Next<SignOutAction>)
    ensures
        r@ == sign_out_next(*f, public),
{
    match f.accounts {
        None => {
            return Next::Do(SignOutAction::ReadAccounts);
        },
        Some(read) => {
            if !read {
                return Next::Reply(api_sign_out(public));
            }
        },
    }
    match f.ended {
        None => Next::Do(SignOutAction::EndSession),
        Some(ended) => if ended && f.written.is_none() {
            Next::Do(SignOutAction::WriteAccounts)
        } else {
            Next::Reply(api_sign_out(public))
        },
    }
}

/// Whatever comes of signing out, the answer is one and the same, and it takes
/// the cookie back.
pub proof fn law_signing_out_has_one_answer(
    f: SignOutFacts,
    public: Option<&PublicConfig>,
    res: ResView,
)
    requires
        sign_out_next(f, public) == NextView::<SignOutAction>::Reply(res),
    ensures
        res == signed_out(public),
        res.set_cookie is Some,
        f.ended == Some(true) && f.accounts == Some(true) ==> f.written is Some,
{
}

} // verus!
