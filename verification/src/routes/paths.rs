//! Which address is which.

use vstd::prelude::*;
use vstd::string::*;

use crate::caller::{Bucket, BucketView, Caller, CallerView};
use crate::routes::private_route;
use crate::routes::public_route;
use crate::text::{has_prefix, owned, same};

verus! {

/// The cookie that carries a session.
pub const COOKIE: &'static str = "sc_device";

/// The cookie that carries a half-finished setup. A name of its own: a setup
/// token is no session, and grants nothing once the server is claimed.
pub const SETUP_COOKIE: &'static str = "sc_setup";

/// The cookie that remembers the reader's language.
pub const LANG_COOKIE: &'static str = "sc_lang";

/// What the interface's endpoints all start with.
pub const PREFIX: &'static str = "/api/v1/ui/";

/// Where a daemon asks for work.
pub const WORK: &'static str = "/api/v1/work";

/// Who am I?
pub const ME_PATH: &'static str = "/api/v1/ui/me";

/// The interface's words.
pub const STRINGS_PATH: &'static str = "/api/v1/ui/strings";

/// The interface's script.
pub const SCRIPT_PATH: &'static str = "/ui/app.js";

/// The interface's stylesheet.
pub const STYLE_PATH: &'static str = "/ui/app.css";

/// The face that text is set in.
pub const FONT_BODY_PATH: &'static str = "/ui/body.woff2";

/// The face that headings are set in.
pub const FONT_DISPLAY_PATH: &'static str = "/ui/display.woff2";

/// The verbs that decide a request's fate.
pub const REVIEW_VERBS: [&'static str; 4] = ["accept", "send-back", "discard", "release"];

/// The verbs an owner may reach. `accept` is the one that no owner has.
pub const OWNER_VERBS: [&'static str; 3] = ["send-back", "discard", "release"];

/// The addresses that change a secret.
pub const SENSITIVE_VERBS: [&'static str; 1] = [private_route::SETTINGS_SECRET];

/// Is this one of the public surface's paths? A fixed one is matched whole, and
/// only what ends in a slash as a prefix.
pub open spec fn public_path(path: Seq<char>) -> bool {
    ||| path == public_route::LANDING@
    ||| path == public_route::FILE@
    ||| path == public_route::SIGNIN@
    ||| path == public_route::SIGNOUT@
    ||| path == public_route::LANGUAGE@
    ||| public_route::SIGNIN_PREFIX@.is_prefix_of(path)
    ||| public_route::REQUEST_PREFIX@.is_prefix_of(path)
}

/// Is this one of the public surface's paths?
pub fn is_public_path(path: &str) -> (r: bool)
    ensures
        r == public_path(path@),
{
    same(path, public_route::LANDING) || same(path, public_route::FILE) || same(
        path,
        public_route::SIGNIN,
    ) || same(path, public_route::SIGNOUT) || same(path, public_route::LANGUAGE) || has_prefix(
        path,
        public_route::SIGNIN_PREFIX,
    ) || has_prefix(path, public_route::REQUEST_PREFIX)
}

/// Text that follows the filing form's address without a slash between makes
/// another address, and no public one.
pub proof fn law_a_public_path_is_matched_exactly(tail: Seq<char>)
    requires
        tail.len() > 0,
        tail[0] != '/',
    ensures
        !public_path(public_route::FILE@ + tail),
{
    let path = public_route::FILE@ + tail;
    reveal_strlit("/");
    reveal_strlit("/public");
    reveal_strlit("/public/signin");
    reveal_strlit("/public/signout");
    reveal_strlit("/public/language");
    reveal_strlit("/public/signin/");
    reveal_strlit("/public/request/");
    assert(path.len() > 7);
    assert(path[7] == tail[0]);
    assert(public_route::SIGNIN@[7] == '/');
    assert(public_route::SIGNOUT@[7] == '/');
    assert(public_route::LANGUAGE@[7] == '/');
    assert(public_route::SIGNIN_PREFIX@[7] == '/');
    assert(public_route::REQUEST_PREFIX@[7] == '/');
}

/// Is this a path that the interface's document answers? A list, and not
/// everything that matched nothing else.
pub open spec fn document_path(path: Seq<char>) -> bool {
    ||| path == public_route::LANDING@
    ||| path == public_route::FILE@
    ||| path == public_route::SIGNIN@
    ||| public_route::REQUEST_PREFIX@.is_prefix_of(path)
    ||| path == private_route::REVIEW@
    ||| path == private_route::SETTINGS@
    ||| path == private_route::REPOS@
    ||| path == private_route::OWNERS@
    ||| path == private_route::DAEMONS@
    ||| path == private_route::ACCOUNTS@
    ||| "/request/"@.is_prefix_of(path)
    ||| path == private_route::SETUP@
}

/// Is this a path that the interface's document answers?
pub fn wants_document(path: &str) -> (r: bool)
    ensures
        r == document_path(path@),
{
    same(path, public_route::LANDING) || same(path, public_route::FILE) || same(
        path,
        public_route::SIGNIN,
    ) || has_prefix(path, public_route::REQUEST_PREFIX) || same(path, private_route::REVIEW)
        || same(path, private_route::SETTINGS) || same(path, private_route::REPOS) || same(
        path,
        private_route::OWNERS,
    ) || same(path, private_route::DAEMONS) || same(path, private_route::ACCOUNTS) || has_prefix(
        path,
        "/request/",
    ) || same(path, private_route::SETUP)
}

/// One of the interface's endpoints, spelled from the prefix.
pub fn api_path(rest: &str) -> (r: String)
    ensures
        r@ == PREFIX@ + rest@,
{
    PREFIX.to_owned().concat(rest)
}

/// Who somebody is counted as.
pub open spec fn counted_as(caller: CallerView) -> Seq<char> {
    match caller {
        CallerView::Daemon { label } => label,
        CallerView::Admin { login } => login,
        CallerView::Account { id } => id,
        CallerView::Owner { login, .. } => login,
    }
}

/// The budget of a stranger at a path.
pub open spec fn stranger_bucket(path: Seq<char>) -> BucketView {
    if path == public_route::SIGNIN_PASSWORD@ || path == PREFIX@ + "signin/password"@ {
        BucketView::AnonPrivate
    } else if path == PREFIX@ + "signin"@ || path == PREFIX@ + "signout"@ || path == PREFIX@
        + "language"@ {
        BucketView::PublicWrite
    } else if path == ME_PATH@ || path == STRINGS_PATH@ || path == SCRIPT_PATH@ || path
        == STYLE_PATH@ {
        BucketView::PublicRead
    } else if !public_path(path) {
        BucketView::AnonPrivate
    } else if path == public_route::SIGNIN@ || public_route::SIGNIN_PREFIX@.is_prefix_of(path) {
        BucketView::PublicWrite
    } else {
        BucketView::PublicRead
    }
}

/// Who somebody is counted as: the text whose digest keys their budget. It is
/// what they turned out to be, never anything they chose to send.
pub fn identity_of(c: &Caller) -> (r: &str)
    ensures
        r@ == counted_as(c@),
{
    match c {
        Caller::Daemon { label } => label.as_str(),
        Caller::Admin { login } => login.as_str(),
        Caller::Account { id } => id.as_str(),
        Caller::Owner { login, .. } => login.as_str(),
    }
}

/// Which budget a request is counted against: the one that the digest of whoever
/// it turned out to be keys, or else one that depends on the path.
pub open spec fn bucket_of(
    caller: Option<CallerView>,
    digest: Seq<char>,
    path: Seq<char>,
) -> BucketView {
    match caller {
        Some(_) => BucketView::Credential(digest),
        None => stranger_bucket(path),
    }
}

fn stranger_bucket_for(path: &str) -> (r: Bucket)
    ensures
        r@ == stranger_bucket(path@),
{
    let password = api_path("signin/password");
    if same(path, public_route::SIGNIN_PASSWORD) || same(path, password.as_str()) {
        return Bucket::AnonPrivate;
    }
    let signin = api_path("signin");
    let signout = api_path("signout");
    let language = api_path("language");
    if same(path, signin.as_str()) || same(path, signout.as_str()) || same(
        path,
        language.as_str(),
    ) {
        return Bucket::PublicWrite;
    }
    if same(path, ME_PATH) || same(path, STRINGS_PATH) || same(path, SCRIPT_PATH) || same(
        path,
        STYLE_PATH,
    ) {
        return Bucket::PublicRead;
    }
    if !is_public_path(path) {
        return Bucket::AnonPrivate;
    }
    // Asking for a link costs an email, and spending one a write.
    if same(path, public_route::SIGNIN) || has_prefix(path, public_route::SIGNIN_PREFIX) {
        Bucket::PublicWrite
    } else {
        Bucket::PublicRead
    }
}

/// Which budget a request is counted against. `digest` is the digest of what
/// [`identity_of`] gives for the caller, so that no key names a person or a
/// machine; for a stranger it is not looked at.
pub fn bucket_for(caller: &Option<Caller>, digest: &str, path: &str) -> (r: Bucket)
    ensures
        r@ == bucket_of(crate::caller::caller_view(*caller), digest@, path@),
{
    match caller {
        Some(_) => Bucket::Credential(owned(digest)),
        None => stranger_bucket_for(path),
    }
}

/// Somebody who is known has a budget that no path can change, and that nothing
/// but the digest of who they are decides: two callers share one exactly where
/// their digests are one.
pub proof fn law_a_known_caller_has_one_budget(
    caller: CallerView,
    another: CallerView,
    digest: Seq<char>,
    second: Seq<char>,
    path: Seq<char>,
    other: Seq<char>,
)
    ensures
        bucket_of(Some(caller), digest, path) == bucket_of(Some(caller), digest, other),
        bucket_of(Some(caller), digest, path) == bucket_of(Some(another), second, other)
            <==> digest == second,
{
}

/// A stranger's budget is the path's, whatever digest stands beside it, and is
/// never that of somebody who is known.
pub proof fn law_a_strangers_budget_is_the_paths(
    caller: CallerView,
    digest: Seq<char>,
    second: Seq<char>,
    path: Seq<char>,
    other: Seq<char>,
)
    ensures
        bucket_of(None, digest, path) == bucket_of(None, second, path),
        bucket_of(None, digest, path) != bucket_of(Some(caller), second, other),
{
}

/// Guessing a password is not counted against what a filer needs: the two
/// addresses where one can be guessed share a budget that neither asking for a
/// link, by either address, nor reading any public page draws on.
pub proof fn law_guessing_is_counted_apart(digest: Seq<char>, path: Seq<char>)
    requires
        public_path(path),
        path != public_route::SIGNIN_PASSWORD@,
    ensures
        bucket_of(None, digest, public_route::SIGNIN_PASSWORD@) == BucketView::AnonPrivate,
        bucket_of(None, digest, PREFIX@ + "signin/password"@) == BucketView::AnonPrivate,
        bucket_of(None, digest, PREFIX@ + "signin"@) == BucketView::PublicWrite,
        path != PREFIX@ + "signin/password"@ ==> bucket_of(None, digest, path)
            != BucketView::AnonPrivate,
{
    reveal_strlit("/api/v1/ui/");
    reveal_strlit("signin");
    reveal_strlit("signin/password");
    reveal_strlit("/public/signin/password");
    assert((PREFIX@ + "signin"@).len() != (PREFIX@ + "signin/password"@).len());
    assert((PREFIX@ + "signin"@)[1] == 'a');
    assert(public_route::SIGNIN_PASSWORD@[1] == 'p');
}

} // verus!
