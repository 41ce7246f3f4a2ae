//! The cookies that are set, and how.

use vstd::prelude::*;
use vstd::string::*;

use crate::config;
use crate::config::{secure_for, PublicConfig};
use crate::i18n;
use crate::i18n::Locale;
use crate::routes::paths::{COOKIE, LANG_COOKIE, SETUP_COOKIE};
use crate::text;
use crate::text::number;

verus! {

/// The `; Secure` that a cookie carries, or nothing where it would be discarded.
pub open spec fn secure_words(secure: bool) -> Seq<char> {
    if secure {
        "; Secure"@
    } else {
        ""@
    }
}

/// Do this server's cookies carry `Secure`? They do unless a surface says
/// otherwise.
pub open spec fn secured(public: Option<&PublicConfig>) -> bool {
    match public {
        Some(p) => p.secure_cookies,
        None => true,
    }
}

/// The `; Secure` that a cookie carries, or nothing on a loopback server.
pub fn secure_attr(public: Option<&PublicConfig>) -> (r: &'static str)
    ensures
        r@ == secure_words(secured(public)),
{
    match public {
        Some(p) => {
            if p.secure_cookies {
                "; Secure"
            } else {
                ""
            }
        },
        None => "; Secure",
    }
}

/// The same, decided from an address: a server being claimed has no surface yet.
pub fn secure_attr_for(base_url: &str) -> (r: &'static str)
    ensures
        r@ == secure_words(config::secure_address(base_url@)),
{
    if secure_for(base_url) {
        "; Secure"
    } else {
        ""
    }
}

/// Where this server answers. Empty only without a public surface.
pub open spec fn base_of(public: Option<&PublicConfig>) -> Seq<char> {
    match public {
        Some(p) => p.base_url@,
        None => ""@,
    }
}

/// Where this server answers.
pub fn configured_base(public: Option<&PublicConfig>) -> (r: String)
    ensures
        r@ == base_of(public),
{
    match public {
        Some(p) => p.base_url.clone(),
        None => "".to_owned(),
    }
}

/// A session's cookie.
pub open spec fn session_words(session: Seq<char>, secure: bool) -> Seq<char> {
    COOKIE@ + "="@ + session + "; Path=/; HttpOnly; SameSite=Strict"@ + secure_words(secure)
        + "; Max-Age=31536000"@
}

fn session_with(session: &str, secure: &str) -> (r: String)
    ensures
        r@ == COOKIE@ + "="@ + session@ + "; Path=/; HttpOnly; SameSite=Strict"@ + secure@
            + "; Max-Age=31536000"@,
{
    COOKIE.to_owned().concat("=").concat(session).concat(
        "; Path=/; HttpOnly; SameSite=Strict",
    ).concat(secure).concat("; Max-Age=31536000")
}

/// The cookie a fresh session is carried in.
pub fn session_cookie(public: Option<&PublicConfig>, session: &str) -> (r: String)
    ensures
        r@ == session_words(session@, secured(public)),
{
    session_with(session, secure_attr(public))
}

/// The cookie a fresh session is carried in, on a server that has just been
/// claimed: the address decides.
pub fn claim_cookie(public: Option<&PublicConfig>, session: &str) -> (r: String)
    ensures
        r@ == session_words(session@, config::secure_address(base_of(public))),
{
    let base = configured_base(public);
    session_with(session, secure_attr_for(base.as_str()))
}

/// The cookie that ends a session.
pub open spec fn ended_words(secure: bool) -> Seq<char> {
    COOKIE@ + "=; Path=/; HttpOnly; SameSite=Strict"@ + secure_words(secure) + "; Max-Age=0"@
}

/// The cookie that ends a session: one that the browser drops at once.
pub fn ended_cookie(public: Option<&PublicConfig>) -> (r: String)
    ensures
        r@ == ended_words(secured(public)),
{
    COOKIE.to_owned().concat("=; Path=/; HttpOnly; SameSite=Strict").concat(
        secure_attr(public),
    ).concat("; Max-Age=0")
}

/// The cookie that binds a setup to one browser.
pub open spec fn setup_words(token: Seq<char>, secure: bool, seconds: u64) -> Seq<char> {
    SETUP_COOKIE@ + "="@ + token + "; Path=/; HttpOnly; SameSite=Lax"@ + secure_words(secure)
        + "; Max-Age="@ + text::decimal(seconds as nat)
}

/// The cookie that binds a setup to one browser, for as long as the code it was
/// bought with would have lasted. The address decides whether it is `Secure`.
pub fn setup_cookie(public: Option<&PublicConfig>, token: &str, seconds: u64) -> (r: String)
    ensures
        r@ == setup_words(token@, config::secure_address(base_of(public)), seconds),
{
    let base = configured_base(public);
    let n = number(seconds);
    SETUP_COOKIE.to_owned().concat("=").concat(token).concat(
        "; Path=/; HttpOnly; SameSite=Lax",
    ).concat(secure_attr_for(base.as_str())).concat("; Max-Age=").concat(n.as_str())
}

/// The cookie that remembers a language.
pub open spec fn language_words(locale: Locale, secure: bool) -> Seq<char> {
    LANG_COOKIE@ + "="@ + i18n::locale_code(locale) + "; Path=/; SameSite=Lax"@ + secure_words(
        secure,
    ) + "; Max-Age=31536000"@
}

/// The cookie that remembers a language. A preference and no credential, so a
/// page may read it.
pub fn language_cookie(public: Option<&PublicConfig>, locale: Locale) -> (r: String)
    ensures
        r@ == language_words(locale, secured(public)),
{
    LANG_COOKIE.to_owned().concat("=").concat(locale.code()).concat("; Path=/; SameSite=Lax").concat(
        secure_attr(public),
    ).concat("; Max-Age=31536000")
}

} // verus!
