//! Signing in and out, claiming a server, and the cookies that remember it.

use vstd::prelude::*;
use vstd::string::*;

use crate::config::PublicConfig;
use crate::i18n::{Locale, Strings};
use crate::json;
use crate::routes::cookies;
use crate::routes::http::{Asset, Policy, ResView};
use crate::routes::pages;
use crate::routes::setup;
use crate::routes::setup::{ClaimAction, ClaimFacts, ClaimState, CodeAction, CodeFacts};
use crate::routes::signin;
use crate::routes::signin::{
    AccountState,
    LinkAction,
    LinkError,
    LinkFacts,
    PasswordAction,
    PasswordFacts,
    SignOutAction,
    SignOutFacts,
    SpendAction,
    SpendFacts,
};
use crate::routes::step::NextView;
use crate::settings::Settings;
use crate::text;

verus! {

// ---------------------------------------------------------------------------
// Cookies
// ---------------------------------------------------------------------------

/// The mark that keeps a cookie to encrypted connections.
pub open spec fn secure_mark(secure: bool) -> Seq<char> {
    if secure {
        "; Secure"@
    } else {
        Seq::empty()
    }
}

/// A session's cookie is kept for a year, from every script and from every other
/// site; the one that ends it is dropped at once; a setup's lasts as long as was
/// said; a language's is a preference that a page may read.
#[verifier::spinoff_prover]
pub proof fn law_a_cookie_is_kept_as_it_should_be(
    token: Seq<char>,
    secure: bool,
    seconds: u64,
)
    ensures
        cookies::session_words(token, secure) == "sc_device="@ + token + "; Path=/"@
            + "; HttpOnly"@ + "; SameSite=Strict"@ + secure_mark(secure) + "; Max-Age=31536000"@,
        cookies::ended_words(secure) == "sc_device="@ + "; Path=/"@ + "; HttpOnly"@
            + "; SameSite=Strict"@ + secure_mark(secure) + "; Max-Age=0"@,
        cookies::setup_words(token, secure, seconds) == "sc_setup="@ + token + "; Path=/"@
            + "; HttpOnly"@ + "; SameSite=Lax"@ + secure_mark(secure) + "; Max-Age="@
            + text::decimal(seconds as nat),
        cookies::language_words(Locale::En, secure) == "sc_lang=en"@ + "; Path=/"@
            + "; SameSite=Lax"@ + secure_mark(secure) + "; Max-Age=31536000"@,
        cookies::language_words(Locale::Fr, secure) == "sc_lang=fr"@ + "; Path=/"@
            + "; SameSite=Lax"@ + secure_mark(secure) + "; Max-Age=31536000"@,
{
    reveal_strlit("");
    reveal_strlit("=");
    reveal_strlit("sc_device");
    reveal_strlit("sc_device=");
    reveal_strlit("sc_setup");
    reveal_strlit("sc_setup=");
    reveal_strlit("sc_lang");
    reveal_strlit("sc_lang=en");
    reveal_strlit("sc_lang=fr");
    reveal_strlit("en");
    reveal_strlit("fr");
    reveal_strlit("; Path=/");
    reveal_strlit("; HttpOnly");
    reveal_strlit("; SameSite=Strict");
    reveal_strlit("; SameSite=Lax");
    reveal_strlit("; Path=/; HttpOnly; SameSite=Strict");
    reveal_strlit("=; Path=/; HttpOnly; SameSite=Strict");
    reveal_strlit("; Path=/; HttpOnly; SameSite=Lax");
    reveal_strlit("; Path=/; SameSite=Lax");
    assert(cookies::secure_words(secure) =~= secure_mark(secure));
    assert("sc_device="@ =~= "sc_device"@ + "="@);
    assert("sc_setup="@ =~= "sc_setup"@ + "="@);
    assert("sc_lang=en"@ =~= "sc_lang"@ + "="@ + "en"@);
    assert("sc_lang=fr"@ =~= "sc_lang"@ + "="@ + "fr"@);
    assert("; Path=/; HttpOnly; SameSite=Strict"@ =~= "; Path=/"@ + "; HttpOnly"@
        + "; SameSite=Strict"@);
    assert("=; Path=/; HttpOnly; SameSite=Strict"@ =~= "="@ + "; Path=/"@ + "; HttpOnly"@
        + "; SameSite=Strict"@);
    assert("; Path=/; HttpOnly; SameSite=Lax"@ =~= "; Path=/"@ + "; HttpOnly"@ + "; SameSite=Lax"@);
    assert("; Path=/; SameSite=Lax"@ =~= "; Path=/"@ + "; SameSite=Lax"@);
    assert(cookies::session_words(token, secure) =~= "sc_device="@ + token + "; Path=/"@
        + "; HttpOnly"@ + "; SameSite=Strict"@ + secure_mark(secure) + "; Max-Age=31536000"@);
    assert(cookies::ended_words(secure) =~= "sc_device="@ + "; Path=/"@ + "; HttpOnly"@
        + "; SameSite=Strict"@ + secure_mark(secure) + "; Max-Age=0"@);
    assert(cookies::setup_words(token, secure, seconds) =~= "sc_setup="@ + token + "; Path=/"@
        + "; HttpOnly"@ + "; SameSite=Lax"@ + secure_mark(secure) + "; Max-Age="@ + text::decimal(
        seconds as nat,
    ));
    assert(cookies::language_words(Locale::En, secure) =~= "sc_lang=en"@ + "; Path=/"@
        + "; SameSite=Lax"@ + secure_mark(secure) + "; Max-Age=31536000"@);
    assert(cookies::language_words(Locale::Fr, secure) =~= "sc_lang=fr"@ + "; Path=/"@
        + "; SameSite=Lax"@ + secure_mark(secure) + "; Max-Age=31536000"@);
}

/// Cookies are for encrypted connections where the surface says so, and where
/// there is none.
pub proof fn law_who_keeps_cookies_secure(public: Option<&PublicConfig>)
    ensures
        cookies::secured(public) <==> (public matches Some(p) ==> p.secure_cookies),
        public matches Some(p) ==> cookies::base_of(public) == p.base_url@,
        public is None ==> cookies::base_of(public).len() == 0,
{
    reveal_strlit("");
}

// ---------------------------------------------------------------------------
// Links
// ---------------------------------------------------------------------------

/// Is everything so far in favour of a link?
pub open spec fn link_is_due(f: LinkFacts, p: &PublicConfig) -> bool {
    &&& f.valid == Some(true)
    &&& f.revoked == Some(Ok::<bool, String>(false))
    &&& f.outstanding matches Some(Ok(n)) && n < p.max_outstanding_links
}

/// Asking for a link, step by step: each is taken when those before it went well
/// and it was not, and in the end the one answer is given.
pub proof fn law_a_link_is_sent_step_by_step(f: LinkFacts, p: &PublicConfig)
    ensures
        ({
            let n = signin::link_next(f, Some(p));
            &&& n == NextView::<LinkAction>::Do(LinkAction::CheckAddress) <==> f.valid is None
            &&& n == NextView::<LinkAction>::Do(LinkAction::FindAccount) <==> f.valid == Some(true)
                && f.revoked is None
            &&& n == NextView::<LinkAction>::Do(LinkAction::CountLinks) <==> f.valid == Some(true)
                && f.revoked == Some(Ok::<bool, String>(false)) && f.outstanding is None
            &&& n == NextView::<LinkAction>::Do(LinkAction::Issue) <==> link_is_due(f, p)
                && f.issued is None
            &&& n == NextView::<LinkAction>::Do(LinkAction::WriteLinks) <==> link_is_due(f, p)
                && f.issued is Some && f.written is None
            &&& n == NextView::<LinkAction>::Do(LinkAction::Mail) <==> link_is_due(f, p)
                && f.issued is Some && (f.written matches Some(Ok(_))) && f.mailed is None
            &&& n matches NextView::Reply(res) ==> res.status == 200 && res.body
                == "{\"sent\":true}"@ && res.set_cookie is None
        }),
        signin::link_next(f, None) matches NextView::Reply(res) && res.status == 200 && res.body
            == "{\"sent\":true}"@,
{
}

/// A link is this server's own address with the token behind it.
pub proof fn law_a_link_leads_back_here(p: PublicConfig, token: &str, r: String)
    requires
        call_ensures(signin::link_url, (&p, token), r),
    ensures
        r@ == p.base_url@ + "/public/signin/"@ + token@,
{
}

/// May whoever opens this link be signed in?
pub open spec fn is_let_in(a: AccountState, public: Option<&PublicConfig>) -> bool {
    &&& !a.revoked
    &&& a.exists || (public matches Some(p) && a.accounts < p.max_accounts)
}

/// A link that is live is spent, written down as spent, and opens a session for
/// the account it was sent to, which is made where there is none and there is
/// room; the session that was opened is the one in the cookie.
pub proof fn law_a_link_signs_in_step_by_step(
    f: SpendFacts,
    public: Option<&PublicConfig>,
    locale: Locale,
    s: Strings,
)
    ensures
        ({
            let n = signin::spend_next(f, public, locale, s);
            let read = f.links matches Some(Ok(_));
            let spent = read && (f.spent matches Some(Ok(_)));
            let noted = spent && (f.links_written matches Some(Ok(_)));
            let let_in = noted && (f.account matches Some(Ok(a)) && is_let_in(a, public));
            &&& n == NextView::<SpendAction>::Do(SpendAction::ReadLinks) <==> f.links is None
            &&& n == NextView::<SpendAction>::Do(SpendAction::Spend) <==> read && f.spent is None
            &&& n == NextView::<SpendAction>::Do(SpendAction::WriteLinks) <==> spent
                && f.links_written is None
            &&& n == NextView::<SpendAction>::Do(SpendAction::FindAccount) <==> noted && f.account
                is None
            &&& n == NextView::<SpendAction>::Do(SpendAction::OpenSession { create: true }) <==> let_in
                && f.session is None && !f.account.unwrap().unwrap().exists
            &&& n == NextView::<SpendAction>::Do(SpendAction::OpenSession { create: false })
                <==> let_in && f.session is None && f.account.unwrap().unwrap().exists
            &&& n == NextView::<SpendAction>::Do(SpendAction::WriteAccounts) <==> let_in
                && f.session is Some && f.accounts_written is None
            &&& let_in && (f.accounts_written matches Some(Ok(_))) ==> (f.session matches Some(t)
                ==> n == NextView::<SpendAction>::Reply(
                (ResView {
                    status: 200,
                    content_type: "text/html; charset=utf-8"@,
                    body: Seq::empty(),
                    asset: Some(Asset::Index),
                    payload: None,
                    set_cookie: Some(cookies::session_words(t@, cookies::secured(public))),
                    etag: None,
                    hold_for_work: false,
                    policy: Policy::PublicScript,
                }),
            ))
            &&& n matches NextView::Reply(res) ==> (res.set_cookie is Some ==> let_in && f.session
                is Some && (f.accounts_written matches Some(Ok(_))))
        }),
{
    reveal_strlit("");
    assert(""@ =~= Seq::<char>::empty());
}

/// A link that does not work is answered with a page that says so, and says it
/// was used only where it was; so is one for somebody revoked, and for somebody
/// new where there is no room.
pub proof fn law_a_link_that_fails_says_so(
    f: SpendFacts,
    public: Option<&PublicConfig>,
    locale: Locale,
    s: Strings,
    a: AccountState,
)
    requires
        f.links matches Some(Ok(_)),
    ensures
        ({
            let n = signin::spend_next(f, public, locale, s);
            &&& f.spent == Some(Err::<(), LinkError>(LinkError::AlreadyUsed)) ==> (n matches NextView::Reply(
                res,
            ) && res.status == 200 && res.set_cookie is None && res.body == pages::failed_text(
                true,
                locale,
                s,
            ))
            &&& f.spent == Some(Err::<(), LinkError>(LinkError::Invalid)) ==> (n matches NextView::Reply(
                res,
            ) && res.status == 200 && res.set_cookie is None && res.body == pages::failed_text(
                false,
                locale,
                s,
            ))
            &&& (f.spent matches Some(Ok(_))) && (f.links_written matches Some(Ok(_))) && f.account
                == Some(Ok::<AccountState, String>(a)) && !is_let_in(a, public) ==> (
            n matches NextView::Reply(res) && res.status == 200 && res.set_cookie is None && res.body
                == pages::failed_text(false, locale, s))
        }),
{
}

// ---------------------------------------------------------------------------
// Passwords
// ---------------------------------------------------------------------------

/// Signing in with a password, step by step: the attempt is written before its
/// outcome counts; a session that the browser holds and that could be renewed is
/// kept, else one is opened; and it is written before it is handed out.
pub proof fn law_a_password_signs_in_step_by_step(
    f: PasswordFacts,
    cookie: Option<Seq<char>>,
    public: Option<&PublicConfig>,
    s: Strings,
)
    ensures
        ({
            let n = signin::password_next(f, cookie, public, s);
            let counted = f.accounts == Some(true) && f.accepted is Some && f.attempt_written
                == Some(true);
            let right = counted && f.accepted == Some(true);
            let renewed = cookie is Some && f.refreshed == Some(true);
            let asked = cookie is Some ==> f.refreshed is Some;
            &&& n == NextView::<PasswordAction>::Do(PasswordAction::ReadAccounts) <==> f.accounts
                is None
            &&& n == NextView::<PasswordAction>::Do(PasswordAction::Check) <==> f.accounts == Some(
                true,
            ) && f.accepted is None
            &&& n == NextView::<PasswordAction>::Do(PasswordAction::WriteAttempt) <==> f.accounts
                == Some(true) && f.accepted is Some && f.attempt_written is None
            &&& n == NextView::<PasswordAction>::Do(PasswordAction::Refresh) <==> right && cookie
                is Some && f.refreshed is None
            &&& n == NextView::<PasswordAction>::Do(PasswordAction::Open) <==> right && asked
                && !renewed && f.opened is None
            &&& n == NextView::<PasswordAction>::Do(PasswordAction::WriteSession) <==> right && asked
                && (renewed || f.opened is Some) && f.session_written is None
            &&& right && asked && renewed && f.session_written == Some(true) ==> (
            n matches NextView::Reply(res) && res.status == 200 && res.body
                == "{\"signed_in\":true}"@ && res.set_cookie == Some(
                cookies::session_words(cookie.unwrap(), cookies::secured(public)),
            ))
            &&& right && asked && !renewed && f.session_written == Some(true) ==> (
            f.opened matches Some(t) ==> (n matches NextView::Reply(res) && res.status == 200
                && res.body == "{\"signed_in\":true}"@ && res.set_cookie == Some(
                cookies::session_words(t@, cookies::secured(public)),
            )))
            &&& f.accounts == Some(false) || (counted && !right) || (f.accounts == Some(true)
                && f.accepted is Some && f.attempt_written == Some(false)) || (right && asked && (
            renewed || f.opened is Some) && f.session_written == Some(false)) ==> (
            n matches NextView::Reply(res) && res.status == 401 && res.set_cookie is None && res.body
                == json::error_body(s.signin_wrong@))
        }),
{
}

/// Signing out, step by step: the session is ended, and what ended is written
/// down; whatever came of it, the cookie is taken back.
pub proof fn law_signing_out_step_by_step(f: SignOutFacts, public: Option<&PublicConfig>)
    ensures
        ({
            let n = signin::sign_out_next(f, public);
            &&& n == NextView::<SignOutAction>::Do(SignOutAction::ReadAccounts) <==> f.accounts
                is None
            &&& n == NextView::<SignOutAction>::Do(SignOutAction::EndSession) <==> f.accounts
                == Some(true) && f.ended is None
            &&& n == NextView::<SignOutAction>::Do(SignOutAction::WriteAccounts) <==> f.accounts
                == Some(true) && f.ended == Some(true) && f.written is None
            &&& n matches NextView::Reply(res) ==> res.status == 200 && res.body
                == "{\"signed_out\":true}"@ && res.set_cookie == Some(
                cookies::ended_words(cookies::secured(public)),
            )
        }),
{
}

// ---------------------------------------------------------------------------
// Claiming a server
// ---------------------------------------------------------------------------

/// A code is tried on a server that nobody claimed; what it bought is written
/// down before it is put in the browser's cookie; and a code that is not accepted
/// buys nothing.
pub proof fn law_a_code_is_spent_step_by_step(
    f: CodeFacts,
    public: Option<&PublicConfig>,
    seconds: u64,
)
    ensures
        ({
            let n = setup::code_next(f, public, seconds);
            let free = f.claimed == Some(Ok::<bool, String>(false));
            let secure = public matches Some(p) && "https://"@.is_prefix_of(p.base_url@);
            &&& n == NextView::<CodeAction>::Do(CodeAction::ReadClaim) <==> f.claimed is None
            &&& n == NextView::<CodeAction>::Do(CodeAction::Spend) <==> free && f.token is None
            &&& n == NextView::<CodeAction>::Do(CodeAction::WriteClaim) <==> free && (
            f.token matches Some(Some(_))) && f.written is None
            &&& free && (f.written matches Some(Ok(_))) ==> (f.token matches Some(Some(t)) ==> (
            n matches NextView::Reply(res) && res.status == 200 && res.body
                == "{\"step\":\"admin\"}"@ && res.set_cookie == Some(
                cookies::setup_words(t@, secure, seconds),
            )))
            &&& free && (f.token matches Some(None)) ==> (n matches NextView::Reply(res)
                && res.status == 400 && res.set_cookie is None)
            &&& f.claimed == Some(Ok::<bool, String>(true)) ==> (n matches NextView::Reply(res)
                && res.status == 404 && res.set_cookie is None)
            &&& n matches NextView::Reply(res) ==> (res.set_cookie is Some ==> free
                && f.written matches Some(Ok(_)))
        }),
{
    reveal_strlit("https://");
    reveal_strlit("");
}

/// A server is claimed step by step, each taken when those before it went well:
/// the account is made and written, the claim is written, and the settings are
/// marked as seeded and otherwise left as they were. The session that was opened
/// is the one in the cookie.
pub proof fn law_a_server_is_claimed_step_by_step(f: ClaimFacts, public: Option<&PublicConfig>)
    ensures
        ({
            let n = setup::claim_next(f, public);
            let mine = f.state matches Some(Ok(s)) && !s.claimed && s.setting_up;
            let named = mine && f.valid == Some(true);
            let read = named && (f.accounts matches Some(Ok(_)));
            let made = read && (f.session matches Some(Ok(_)));
            let kept = made && (f.accounts_written matches Some(Ok(_)));
            let claimed = kept && (f.claim_written matches Some(Ok(_)));
            let secure = public matches Some(p) && "https://"@.is_prefix_of(p.base_url@);
            &&& n == NextView::<ClaimAction>::Do(ClaimAction::ReadClaim) <==> f.state is None
            &&& n == NextView::<ClaimAction>::Do(ClaimAction::CheckLogin) <==> mine && f.valid
                is None
            &&& n == NextView::<ClaimAction>::Do(ClaimAction::ReadAccounts) <==> named && f.accounts
                is None
            &&& n == NextView::<ClaimAction>::Do(ClaimAction::CreateLogin) <==> read && f.session
                is None
            &&& n == NextView::<ClaimAction>::Do(ClaimAction::WriteAccounts) <==> made
                && f.accounts_written is None
            &&& n == NextView::<ClaimAction>::Do(ClaimAction::WriteClaim) <==> kept
                && f.claim_written is None
            &&& n == NextView::<ClaimAction>::Do(ClaimAction::ReadSettings) <==> claimed
                && f.settings is None
            &&& claimed && f.settings_written is None ==> (f.settings matches Some(Ok(found)) ==> n
                == NextView::<ClaimAction>::Do(
                ClaimAction::WriteSettings { settings: Settings { seeded: true, ..found } },
            ))
            &&& claimed && (f.settings matches Some(Ok(_))) && (f.settings_written matches Some(
                Ok(_),
            )) ==> (f.session matches Some(Ok(t)) ==> (n matches NextView::Reply(res) && res.status
                == 200 && res.body == "{\"claimed\":true}"@ && res.set_cookie == Some(
                cookies::session_words(t@, secure),
            )))
            &&& n matches NextView::Reply(res) ==> (res.set_cookie is Some ==> claimed
                && f.settings_written matches Some(Ok(_)))
            &&& f.state matches Some(Ok(s)) ==> (s.claimed ==> (n matches NextView::Reply(res)
                && res.status == 404))
            &&& f.state matches Some(Ok(s)) ==> (!s.claimed && !s.setting_up ==> (
            n matches NextView::Reply(res) && res.status == 400))
            &&& mine && f.valid == Some(false) ==> (n matches NextView::Reply(res) && res.status
                == 400)
            &&& read ==> (f.session matches Some(Err(e)) ==> (n matches NextView::Reply(res)
                && res.status == 400 && res.body == json::error_body(e@)))
        }),
{
    reveal_strlit("https://");
    reveal_strlit("");
}

/// Where a setup has got to is said to whoever asks while nobody claimed the
/// server: the step that this browser may take, the address, and how long a
/// password must be.
pub proof fn law_a_setup_says_where_it_stands(
    mine: bool,
    public: Option<&PublicConfig>,
    min_password: u64,
)
    ensures
        ({
            let res = setup::setup_res(
                Ok(ClaimState { claimed: false, setting_up: mine }),
                public,
                min_password,
            );
            &&& res.status == 200
            &&& res.body == "{\"base_url\":"@ + json::json_string(
                match public {
                    Some(p) => p.base_url@,
                    None => Seq::empty(),
                },
            ) + ",\"min_password\":"@ + text::decimal(min_password as nat) + (if mine {
                ",\"step\":\"admin\"}"@
            } else {
                ",\"step\":\"code\"}"@
            })
        }),
{
    reveal_strlit("");
    reveal_strlit(",\"step\":\"");
    reveal_strlit("\"}");
    reveal_strlit("admin");
    reveal_strlit("code");
    reveal_strlit(",\"step\":\"admin\"}");
    reveal_strlit(",\"step\":\"code\"}");
    assert(",\"step\":\"admin\"}"@ =~= ",\"step\":\""@ + "admin"@ + "\"}"@);
    assert(",\"step\":\"code\"}"@ =~= ",\"step\":\""@ + "code"@ + "\"}"@);
    let base = cookies::base_of(public);
    assert(base =~= match public {
        Some(p) => p.base_url@,
        None => Seq::empty(),
    });
    let front = "{\"base_url\":"@ + json::json_string(base) + ",\"min_password\":"@ + text::decimal(
        min_password as nat,
    );
    assert(front + ",\"step\":\""@ + setup::setup_step(mine) + "\"}"@ =~= front + (if mine {
        ",\"step\":\"admin\"}"@
    } else {
        ",\"step\":\"code\"}"@
    }));
}

} // verus!
