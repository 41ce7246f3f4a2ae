//! Claiming a server that nobody has claimed.
//!
//! Two steps: the code that stands in the server's own log is spent, and the
//! browser that spent it chooses the credential that will own the server. Once it
//! is claimed neither step exists.

use vstd::prelude::*;
use vstd::string::*;

use crate::config;
use crate::config::PublicConfig;
use crate::json;
use crate::json::json_text;
use crate::routes::admin;
use crate::routes::cookies;
use crate::routes::cookies::{claim_cookie, configured_base, setup_cookie};
use crate::routes::http;
use crate::routes::http::{error, Res, ResView};
use crate::routes::step::{Next, NextView};
use crate::settings::Settings;
use crate::text;
use crate::text::number;

verus! {

/// What the record of who claimed this server says.
#[derive(Debug, Clone, Copy, PartialEq, Eq, Structural)]
pub struct ClaimState {
    /// Has somebody claimed it?
    pub claimed: bool,
    /// Does this browser hold the live token of the setup in progress?
    pub setting_up: bool,
}

// ---------------------------------------------------------------------------
// Where the setup has got to
// ---------------------------------------------------------------------------

/// The step that a browser may take.
pub open spec fn setup_step(mine: bool) -> Seq<char> {
    if mine {
        "admin"@
    } else {
        "code"@
    }
}

/// Where the setup has got to.
pub open spec fn setup_res(
    state: Result<ClaimState, String>,
    public: Option<&PublicConfig>,
    min_password: u64,
) -> ResView {
    match state {
        Err(e) => http::error_res(500, e@),
        Ok(s) => if s.claimed {
            http::error_res(404, "no such endpoint"@)
        } else {
            http::json_res(
                200,
                "{\"base_url\":"@ + json::json_string(cookies::base_of(public))
                    + ",\"min_password\":"@ + text::decimal(min_password as nat) + ",\"step\":\""@
                    + setup_step(s.setting_up) + "\"}"@,
            )
        },
    }
}

/// Where the setup has got to, said outright: a client cannot infer it.
pub fn api_setup_state(
    state: Result<ClaimState, String>,
    public: Option<&PublicConfig>,
    min_password: u64,
) -> (r: Res)
    ensures
        r@ == setup_res(state, public, min_password),
{
    let s = match state {
        Ok(s) => s,
        Err(e) => {
            return error(500, e.as_str());
        },
    };
    if s.claimed {
        return error(404, "no such endpoint");
    }
    let step = if s.setting_up {
        "admin"
    } else {
        "code"
    };
    let base = configured_base(public);
    let shown = json_text(base.as_str());
    let n = number(min_password);
    let body = "{\"base_url\":".to_owned().concat(shown.as_str()).concat(
        ",\"min_password\":",
    ).concat(n.as_str()).concat(",\"step\":\"").concat(step).concat("\"}");
    Res::json(200, body.as_str())
}

// ---------------------------------------------------------------------------
// Spending the code
// ---------------------------------------------------------------------------

/// What spending the code needs done.
#[derive(Debug, Clone, Copy, PartialEq, Eq, Structural)]
pub enum CodeAction {
    /// Read who claimed this server.
    ReadClaim,
    /// Try the code.
    Spend,
    /// Write down that it is spent.
    WriteClaim,
}

/// What has come back so far.
pub struct CodeFacts {
    /// Whether the server is claimed.
    pub claimed: Option<Result<bool, String>>,
    /// The token that the code bought, if it was accepted.
    pub token: Option<Option<String>>,
    pub written: Option<Result<(), String>>,
}

/// What spending the code does next. Every way that a code fails has one answer.
pub open spec fn code_next(
    f: CodeFacts,
    public: Option<&PublicConfig>,
    seconds: u64,
) -> NextView<CodeAction> {
    match f.claimed {
        None => NextView::Do(CodeAction::ReadClaim),
        Some(Err(e)) => NextView::Reply(http::error_res(500, e@)),
        Some(Ok(true)) => NextView::Reply(http::error_res(404, "no such endpoint"@)),
        Some(Ok(false)) => match f.token {
            None => NextView::Do(CodeAction::Spend),
            Some(None) => NextView::Reply(http::error_res(400, "that code was not accepted"@)),
            Some(Some(token)) => match f.written {
                None => NextView::Do(CodeAction::WriteClaim),
                Some(Err(e)) => NextView::Reply(http::error_res(500, e@)),
                Some(Ok(_)) => NextView::Reply(
                    (ResView {
                        set_cookie: Some(
                            cookies::setup_words(
                                token@,
                                config::secure_address(cookies::base_of(public)),
                                seconds,
                            ),
                        ),
                        ..http::json_res(200, "{\"step\":\"admin\"}"@)
                    }),
                ),
            },
        },
    }
}

/// Spend the code. `seconds` is how long a setup lasts.
pub fn api_spend_code(f: &CodeFacts, public: Option<&PublicConfig>, seconds: u64) -> (r: Next<
    CodeAction,
>)
    ensures
        r@ == code_next(*f, public, seconds),
{
    match &f.claimed {
        None => {
            return Next::Do(CodeAction::ReadClaim);
        },
        Some(Err(e)) => {
            return Next::Reply(error(500, e.as_str()));
        },
        Some(Ok(claimed)) => {
            if *claimed {
                return Next::Reply(error(404, "no such endpoint"));
            }
        },
    }
    let token = match &f.token {
        None => {
            return Next::Do(CodeAction::Spend);
        },
        Some(None) => {
            return Next::Reply(error(400, "that code was not accepted"));
        },
        Some(Some(token)) => token,
    };
    match &f.written {
        None => Next::Do(CodeAction::WriteClaim),
        Some(Err(e)) => Next::Reply(error(500, e.as_str())),
        Some(Ok(_)) => Next::Reply(
            Res::json(200, "{\"step\":\"admin\"}").with_set_cookie(
                setup_cookie(public, token.as_str(), seconds),
            ),
        ),
    }
}

// ---------------------------------------------------------------------------
// Choosing the credential
// ---------------------------------------------------------------------------

/// What claiming the server needs done.
#[derive(Debug, Clone, Copy, PartialEq, Eq, Structural)]
pub enum ClaimAction {
    /// Read who claimed this server.
    ReadClaim,
    /// Is the login an address?
    CheckLogin,
    ReadAccounts,
    /// Create the account, and open a session for it.
    CreateLogin,
    WriteAccounts,
    /// Record the login as the one that claimed this server, and write that.
    WriteClaim,
    ReadSettings,
    /// Write these settings: a claimed server is never seeded again.
    WriteSettings { settings: Settings },
}

/// What has come back so far.
pub struct ClaimFacts {
    pub state: Option<Result<ClaimState, String>>,
    /// Is the login an address?
    pub valid: Option<bool>,
    pub accounts: Option<Result<(), String>>,
    /// The session that was opened, or why the account was not created.
    pub session: Option<Result<String, String>>,
    pub accounts_written: Option<Result<(), String>>,
    pub claim_written: Option<Result<(), String>>,
    pub settings: Option<Result<Settings, String>>,
    pub settings_written: Option<Result<(), String>>,
}

/// The status and the words for a setup that did not start in this browser.
pub open spec fn wrong_browser() -> ResView {
    http::error_res(
        400,
        "start again from the claim code - setting this server up has to be finished in the browser that started it"@,
    )
}

/// What claiming the server does next, once its account is created and written.
pub open spec fn claim_end(f: ClaimFacts, public: Option<&PublicConfig>, session: Seq<char>) -> NextView<
    ClaimAction,
> {
    match f.claim_written {
        None => NextView::Do(ClaimAction::WriteClaim),
        Some(Err(e)) => NextView::Reply(http::error_res(500, e@)),
        Some(Ok(_)) => match f.settings {
            None => NextView::Do(ClaimAction::ReadSettings),
            Some(Err(e)) => NextView::Reply(http::error_res(500, e@)),
            Some(Ok(found)) => match f.settings_written {
                None => NextView::Do(
                    ClaimAction::WriteSettings { settings: Settings { seeded: true, ..found } },
                ),
                Some(Err(e)) => NextView::Reply(http::error_res(500, e@)),
                Some(Ok(_)) => NextView::Reply(
                    (ResView {
                        set_cookie: Some(
                            cookies::session_words(
                                session,
                                config::secure_address(cookies::base_of(public)),
                            ),
                        ),
                        ..http::json_res(200, "{\"claimed\":true}"@)
                    }),
                ),
            },
        },
    }
}

/// What claiming the server does next.
///
/// The account is written before the claim: a claim by a login that nobody can
/// sign in as could not be undone, and an account too many can.
pub open spec fn claim_next(f: ClaimFacts, public: Option<&PublicConfig>) -> NextView<ClaimAction> {
    match f.state {
        None => NextView::Do(ClaimAction::ReadClaim),
        Some(Err(e)) => NextView::Reply(http::error_res(500, e@)),
        Some(Ok(s)) => if s.claimed {
            NextView::Reply(http::error_res(404, "no such endpoint"@))
        } else if !s.setting_up {
            NextView::Reply(wrong_browser())
        } else {
            match f.valid {
                None => NextView::Do(ClaimAction::CheckLogin),
                Some(false) => NextView::Reply(http::error_res(400, admin::not_an_address())),
                Some(true) => match f.accounts {
                    None => NextView::Do(ClaimAction::ReadAccounts),
                    Some(Err(e)) => NextView::Reply(http::error_res(500, e@)),
                    Some(Ok(_)) => match f.session {
                        None => NextView::Do(ClaimAction::CreateLogin),
                        Some(Err(e)) => NextView::Reply(http::error_res(400, e@)),
                        Some(Ok(session)) => match f.accounts_written {
                            None => NextView::Do(ClaimAction::WriteAccounts),
                            Some(Err(e)) => NextView::Reply(http::error_res(500, e@)),
                            Some(Ok(_)) => claim_end(f, public, session@),
                        },
                    },
                },
            }
        },
    }
}

fn finish_claim(f: &ClaimFacts, public: Option<&PublicConfig>, session: &str) -> (r: Next<
    ClaimAction,
>)
    ensures
        r@ == claim_end(*f, public, session@),
{
    match &f.claim_written {
        None => {
            return Next::Do(ClaimAction::WriteClaim);
        },
        Some(Err(e)) => {
            return Next::Reply(error(500, e.as_str()));
        },
        Some(Ok(_)) => {},
    }
    let found = match &f.settings {
        None => {
            return Next::Do(ClaimAction::ReadSettings);
        },
        Some(Err(e)) => {
            return Next::Reply(error(500, e.as_str()));
        },
        Some(Ok(s)) => *s,
    };
    match &f.settings_written {
        None => Next::Do(
            ClaimAction::WriteSettings { settings: Settings { seeded: true, ..found } },
        ),
        Some(Err(e)) => Next::Reply(error(500, e.as_str())),
        Some(Ok(_)) => Next::Reply(
            Res::json(200, "{\"claimed\":true}").with_set_cookie(claim_cookie(public, session)),
        ),
    }
}

/// Choose the credential that will own this server.
pub fn api_claim(f: &ClaimFacts, public: Option<&PublicConfig>) -> (r: Next<ClaimAction>)
    ensures
        r@ == claim_next(*f, public),
{
    match &f.state {
        None => {
            return Next::Do(ClaimAction::ReadClaim);
        },
        Some(Err(e)) => {
            return Next::Reply(error(500, e.as_str()));
        },
        Some(Ok(s)) => {
            if s.claimed {
                return Next::Reply(error(404, "no such endpoint"));
            }
            if !s.setting_up {
                return Next::Reply(
                    error(
                        400,
                        "start again from the claim code - setting this server up has to be finished in the browser that started it",
                    ),
                );
            }
        },
    }
    match f.valid {
        None => {
            return Next::Do(ClaimAction::CheckLogin);
        },
        Some(valid) => {
            if let Err(e) = admin::check_login(valid) {
                return Next::Reply(error(400, e.as_str()));
            }
        },
    }
    match &f.accounts {
        None => {
            return Next::Do(ClaimAction::ReadAccounts);
        },
        Some(Err(e)) => {
            return Next::Reply(error(500, e.as_str()));
        },
        Some(Ok(_)) => {},
    }
    let session = match &f.session {
        None => {
            return Next::Do(ClaimAction::CreateLogin);
        },
        Some(Err(e)) => {
            return Next::Reply(error(400, e.as_str()));
        },
        Some(Ok(session)) => session,
    };
    match &f.accounts_written {
        None => Next::Do(ClaimAction::WriteAccounts),
        Some(Err(e)) => Next::Reply(error(500, e.as_str())),
        Some(Ok(_)) => finish_claim(f, public, session.as_str()),
    }
}

/// A server is claimed only by the browser that spent the code, and only where
/// the account that will own it is already written.
pub proof fn law_the_account_is_written_before_the_claim(
    f: ClaimFacts,
    public: Option<&PublicConfig>,
)
    requires
        claim_next(f, public) == NextView::<ClaimAction>::Do(ClaimAction::WriteClaim),
    ensures
        f.state matches Some(Ok(s)) && !s.claimed && s.setting_up,
        f.session matches Some(Ok(_)),
        f.accounts_written matches Some(Ok(_)),
{
}

/// Nothing about a claimed server is set up again: both steps, and the question
/// where the setup stands, are answered as addresses that do not exist, and
/// nothing is written.
pub proof fn law_a_claimed_server_has_no_setup(
    code: CodeFacts,
    claim: ClaimFacts,
    setting_up: bool,
    public: Option<&PublicConfig>,
    seconds: u64,
    min_password: u64,
)
    requires
        code.claimed matches Some(Ok(true)),
        claim.state matches Some(Ok(s)) && s.claimed,
    ensures
        code_next(code, public, seconds) == NextView::<CodeAction>::Reply(
            http::error_res(404, "no such endpoint"@),
        ),
        claim_next(claim, public) == NextView::<ClaimAction>::Reply(
            http::error_res(404, "no such endpoint"@),
        ),
        setup_res(Ok(ClaimState { claimed: true, setting_up }), public, min_password)
            == http::error_res(404, "no such endpoint"@),
{
}

} // verus!
