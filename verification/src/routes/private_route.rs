//! The administrator's own addresses.

use vstd::prelude::*;

verus! {

/// The review surface.
pub const REVIEW: &'static str = "/review";

/// Who may file, and the switch that stops them.
pub const ACCOUNTS: &'static str = "/accounts";

/// Who may review, and for what.
pub const OWNERS: &'static str = "/owners";

/// Which repositories the public surface collects for.
pub const REPOS: &'static str = "/repos";

/// Claim an unclaimed server.
pub const SETUP: &'static str = "/setup";

/// Choose the credential that will own the server.
pub const SETUP_ADMIN: &'static str = "/setup/admin";

/// What this server does.
pub const SETTINGS: &'static str = "/settings";

/// Which machines may claim work.
pub const DAEMONS: &'static str = "/daemons";

/// The secrets.
pub const SETTINGS_SECRET: &'static str = "/settings/secret";

pub const SETTINGS_PUBLIC: &'static str = "/settings/public";

pub const SETTINGS_SITE: &'static str = "/settings/site";

pub const SETTINGS_MAIL: &'static str = "/settings/mail";

pub const SETTINGS_SCREEN: &'static str = "/settings/screen";

pub const SETTINGS_CAPS: &'static str = "/settings/caps";

} // verus!
