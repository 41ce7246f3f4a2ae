//! The addresses that somebody holding nothing can arrive at.
//!
//! They stand in one place so that what is counted and what is answered cannot
//! disagree about which paths are public.

use vstd::prelude::*;

verus! {

/// The filing form.
pub const FILE: &'static str = "/public";

/// Ask for a sign-in link.
pub const SIGNIN: &'static str = "/public/signin";

/// `/public/signin/<token>`: reading it changes nothing, posting to it spends
/// the link.
pub const SIGNIN_PREFIX: &'static str = "/public/signin/";

/// Where whoever has a password signs in.
pub const SIGNIN_PASSWORD: &'static str = "/public/signin/password";

/// End a session.
pub const SIGNOUT: &'static str = "/public/signout";

/// `/public/request/<id>`: one of the filer's own requests.
pub const REQUEST_PREFIX: &'static str = "/public/request/";

/// Choose a language.
pub const LANGUAGE: &'static str = "/public/language";

/// An address for the interface's script that is labelled in the log, and
/// answered like any address there is nothing at.
pub const SCRIPT: &'static str = "/public/app.js";

/// The same for the two faces.
pub const FONT_BODY: &'static str = "/public/body.woff2";

pub const FONT_DISPLAY: &'static str = "/public/display.woff2";

/// The first thing a stranger sees.
pub const LANDING: &'static str = "/";

} // verus!
