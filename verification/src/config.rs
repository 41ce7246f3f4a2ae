//! What a deployment decides, as far as the routes read it.

use vstd::prelude::*;
use vstd::string::*;

use crate::text;
use crate::text::{copy_texts, has_prefix, one_of};

verus! {

/// The rolling window that a daily ceiling counts over.
pub const FILING_WINDOW_MS: u64 = 24 * 60 * 60 * 1000;

/// The repositories a public surface collects for.
pub struct Repos {
    pub names: Vec<String>,
}

impl View for Repos {
    type V = Seq<Seq<char>>;

    open spec fn view(&self) -> Seq<Seq<char>> {
        text::texts(self.names@)
    }
}

impl Repos {
    /// Is there exactly one to choose from?
    pub fn is_single(&self) -> (r: bool)
        ensures
            r == (self@.len() == 1),
    {
        self.names.len() == 1
    }

    /// The first of them.
    pub fn first(&self) -> (r: Option<&str>)
        ensures
            match r {
                Some(s) => self@.len() > 0 && s@ == self@[0],
                None => self@.len() == 0,
            },
    {
        if self.names.len() > 0 {
            Some(self.names[0].as_str())
        } else {
            None
        }
    }

    /// Is this one of them? Matched exactly.
    pub fn accepts(&self, name: &str) -> (r: bool)
        ensures
            r == self@.contains(name@),
    {
        one_of(self.names.as_slice(), name)
    }

    /// Their names, in order.
    pub fn list(&self) -> (r: Vec<String>)
        ensures
            text::texts(r@) == self@,
    {
        copy_texts(self.names.as_slice())
    }
}

/// The public surface, where one is configured.
pub struct PublicConfig {
    /// What it collects for.
    pub repos: Repos,
    /// What its pages are headed.
    pub site_name: String,
    /// The address this server answers on.
    pub base_url: String,
    /// Whether cookies carry `Secure`.
    pub secure_cookies: bool,
    /// Whether a mail provider is configured.
    pub mail: bool,
    /// Whether a screener is configured.
    pub screen: bool,
    /// May a filer read the spec drafted from their own request?
    pub show_spec: bool,
    pub max_daily_filings: usize,
    pub max_daily_drafts: usize,
    pub max_accounts: usize,
    pub max_outstanding_links: usize,
    /// Signing in through GitHub, where it is configured.
    pub github: Option<GithubConfig>,
}

/// What signing in through GitHub needs.
pub struct GithubConfig {
    pub client_id: String,
    pub client_secret: String,
}

/// Do cookies for an address carry `Secure`? They do where it is encrypted.
pub open spec fn secure_address(base_url: Seq<char>) -> bool {
    "https://"@.is_prefix_of(base_url)
}

/// Do cookies for an address carry `Secure`?
pub fn secure_for(base_url: &str) -> (r: bool)
    ensures
        r == secure_address(base_url@),
{
    has_prefix(base_url, "https://")
}

} // verus!
