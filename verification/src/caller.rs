//! Who is calling, and what they are counted against.

use vstd::prelude::*;
use vstd::string::*;

use crate::config::PublicConfig;
use crate::text;
use crate::text::{copy_texts, one_of, same, to_lower};

verus! {

/// Who is calling.
pub enum Caller {
    /// A machine that drafts, by the operator's label for it.
    Daemon { label: String },
    /// Whoever claimed this server.
    Admin { login: String },
    /// Somebody who files.
    Account { id: String },
    /// Somebody who reviews some repositories.
    Owner { login: String, repos: Vec<String> },
}

/// Who is calling, as contracts speak of it.
pub enum CallerView {
    Daemon { label: Seq<char> },
    Admin { login: Seq<char> },
    Account { id: Seq<char> },
    Owner { login: Seq<char>, repos: Seq<Seq<char>> },
}

impl View for Caller {
    type V = CallerView;

    open spec fn view(&self) -> CallerView {
        match self {
            Caller::Daemon { label } => CallerView::Daemon { label: label@ },
            Caller::Admin { login } => CallerView::Admin { login: login@ },
            Caller::Account { id } => CallerView::Account { id: id@ },
            Caller::Owner { login, repos } => CallerView::Owner {
                login: login@,
                repos: text::texts(repos@),
            },
        }
    }
}

/// A caller that may be nobody.
pub open spec fn caller_view(o: Option<Caller>) -> Option<CallerView> {
    match o {
        Some(c) => Some(c@),
        None => None,
    }
}

impl Clone for Caller {
    fn clone(&self) -> (r: Self)
        ensures
            r@ == self@,
    {
        match self {
            Caller::Daemon { label } => Caller::Daemon { label: label.clone() },
            Caller::Admin { login } => Caller::Admin { login: login.clone() },
            Caller::Account { id } => Caller::Account { id: id.clone() },
            Caller::Owner { login, repos } => Caller::Owner {
                login: login.clone(),
                repos: copy_texts(repos.as_slice()),
            },
        }
    }
}

/// A copy of a caller that may be nobody.
pub fn copy_caller(o: &Option<Caller>) -> (r: Option<Caller>)
    ensures
        caller_view(r) == caller_view(*o),
{
    match o {
        Some(c) => Some(c.clone()),
        None => None,
    }
}

/// The digest of one daemon's key, under the operator's label for the machine.
pub struct DaemonKey {
    pub label: String,
    pub key_hash: String,
}

/// The account that a session belongs to.
pub struct SessionAccount {
    pub id: String,
    /// The login, for somebody who has one. Whoever signs in by a link has none.
    pub login: Option<String>,
}

/// What the roster says of an owner.
pub struct OwnerRecord {
    pub login: String,
    pub repos: Vec<String>,
}

/// What the credentials on one request turned out to be.
pub struct Credentials {
    /// The digest of the bearer token, where one was sent.
    pub bearer_hash: Option<String>,
    /// The machines that may claim work.
    pub daemon_keys: Vec<DaemonKey>,
    /// The live account that the session cookie belongs to.
    pub session: Option<SessionAccount>,
    /// Whether that account's login claimed this server. `None` where the claim
    /// could not be read.
    pub is_admin: Option<bool>,
    /// What the roster says of that login. `None` where the roster could not be
    /// read.
    pub owner: Option<Option<OwnerRecord>>,
}

/// The label of the first key that a digest matches.
pub open spec fn matching_label(keys: Seq<DaemonKey>, hash: Seq<char>) -> Option<Seq<char>>
    decreases keys.len(),
{
    if keys.len() == 0 {
        None
    } else if keys[0].key_hash@ == hash {
        Some(keys[0].label@)
    } else {
        matching_label(keys.skip(1), hash)
    }
}

/// The repositories among these that a surface serves, in order.
pub open spec fn served_among(repos: Seq<Seq<char>>, served: Seq<Seq<char>>) -> Seq<Seq<char>> {
    repos.filter(|r: Seq<char>| served.contains(r))
}

/// Who an account is: whoever claimed the server before anything else, an owner
/// of what the surface serves, or somebody who files. Nothing above a filer
/// without a login.
pub open spec fn account_caller(
    c: Credentials,
    account: SessionAccount,
    public: Option<&PublicConfig>,
) -> Option<CallerView> {
    let filer = Some(CallerView::Account { id: account.id@ });
    match account.login {
        None => filer,
        Some(login) => match c.is_admin {
            None => None,
            Some(true) => Some(CallerView::Admin { login: text::lower(login@) }),
            Some(false) => match public {
                None => filer,
                Some(p) => match c.owner {
                    None => None,
                    Some(None) => filer,
                    Some(Some(o)) => {
                        let repos = served_among(text::texts(o.repos@), p.repos@);
                        if repos.len() > 0 {
                            Some(CallerView::Owner { login: o.login@, repos })
                        } else {
                            filer
                        }
                    },
                },
            },
        },
    }
}

/// Who is calling, if anyone: a daemon whose key was presented, or else the
/// account whose session was.
pub open spec fn identified(c: Credentials, public: Option<&PublicConfig>) -> Option<CallerView> {
    let daemon = match c.bearer_hash {
        Some(h) => matching_label(c.daemon_keys@, h@),
        None => None,
    };
    match daemon {
        Some(label) => Some(CallerView::Daemon { label }),
        None => match c.session {
            Some(account) => account_caller(c, account, public),
            None => None,
        },
    }
}

fn find_label(keys: &Vec<DaemonKey>, hash: &str) -> (r: Option<String>)
    ensures
        text::opt_view(r) == matching_label(keys@, hash@),
{
    let mut i: usize = 0;
    assert(keys@.skip(0) =~= keys@);
    while i < keys.len()
        invariant
            i <= keys@.len(),
            matching_label(keys@.skip(i as int), hash@) == matching_label(keys@, hash@),
        decreases keys@.len() - i,
    {
        assert(keys@.skip(i as int).skip(1) =~= keys@.skip(i + 1));
        if same(keys[i].key_hash.as_str(), hash) {
            return Some(keys[i].label.clone());
        }
        i = i + 1;
    }
    None
}

/// The names among these that are served, in order.
pub fn keep_served(names: &[String], served: &[String]) -> (r: Vec<String>)
    ensures
        text::texts(r@) == served_among(text::texts(names@), text::texts(served@)),
{
    let ghost keep = |x: Seq<char>| text::texts(served@).contains(x);
    let ghost all = text::texts(names@);
    let mut out: Vec<String> = Vec::new();
    let mut i: usize = 0;
    proof {
        reveal(Seq::filter);
    }
    assert(text::texts(out@) =~= all.take(0).filter(keep));
    while i < names.len()
        invariant
            i <= names@.len(),
            all == text::texts(names@),
            keep == (|x: Seq<char>| text::texts(served@).contains(x)),
            text::texts(out@) == all.take(i as int).filter(keep),
        decreases names@.len() - i,
    {
        let ghost before = out@;
        proof {
            reveal(Seq::filter);
            assert(all.take(i + 1).drop_last() =~= all.take(i as int));
            assert(all[i as int] == names@[i as int]@);
        }
        if one_of(served, names[i].as_str()) {
            out.push(names[i].clone());
            assert(text::texts(out@) =~= text::texts(before).push(all[i as int]));
        }
        i = i + 1;
    }
    assert(all.take(i as int) =~= all);
    out
}

/// Who is calling, if anyone.
///
/// Whoever claimed the server is found before the roster is asked: somebody who
/// is also named there must not lose the server to a file they can edit.
pub fn identify(c: &Credentials, public: Option<&PublicConfig>) -> (r: Option<Caller>)
    ensures
        caller_view(r) == identified(*c, public),
{
    if let Some(h) = &c.bearer_hash {
        if let Some(label) = find_label(&c.daemon_keys, h.as_str()) {
            return Some(Caller::Daemon { label });
        }
    }
    let account = match &c.session {
        Some(a) => a,
        None => {
            return None;
        },
    };
    let login = match &account.login {
        Some(l) => l,
        None => {
            return Some(Caller::Account { id: account.id.clone() });
        },
    };
    match c.is_admin {
        None => {
            return None;
        },
        Some(yes) => {
            if yes {
                return Some(Caller::Admin { login: to_lower(login.as_str()) });
            }
        },
    }
    if let Some(p) = public {
        match &c.owner {
            None => {
                return None;
            },
            Some(None) => {},
            Some(Some(o)) => {
                let repos = keep_served(o.repos.as_slice(), p.repos.names.as_slice());
                assert(text::texts(repos@).len() == repos@.len());
                if repos.len() > 0 {
                    return Some(Caller::Owner { login: o.login.clone(), repos });
                }
            },
        }
    }
    Some(Caller::Account { id: account.id.clone() })
}

/// Whoever claimed the server is its administrator, whatever the roster says of
/// them and whether or not there is a public surface.
pub proof fn law_the_administrator_is_never_demoted(
    c: Credentials,
    account: SessionAccount,
    login: String,
    public: Option<&PublicConfig>,
)
    requires
        c.bearer_hash is None,
        c.session == Some(account),
        account.login == Some(login),
        c.is_admin == Some(true),
    ensures
        identified(c, public) == Some(CallerView::Admin { login: text::lower(login@) }),
{
}

/// A login is needed for anything above a filer: an account without one is an
/// account, whatever any record says.
pub proof fn law_no_login_is_a_filer(
    c: Credentials,
    account: SessionAccount,
    public: Option<&PublicConfig>,
)
    requires
        c.bearer_hash is None,
        c.session == Some(account),
        account.login is None,
    ensures
        identified(c, public) == Some(CallerView::Account { id: account.id@ }),
{
}

/// An owner is given nothing that the surface does not serve, and is an owner of
/// something: one whose repositories are all gone is a filer here.
pub proof fn law_an_owner_owns_what_is_served(c: Credentials, p: &PublicConfig)
    requires
        identified(c, Some(p)) is Some,
    ensures
        identified(c, Some(p)).unwrap() matches CallerView::Owner { login, repos } ==> repos.len()
            > 0 && forall|i: int| 0 <= i < repos.len() ==> p.repos@.contains(#[trigger] repos[i]),
{
    broadcast use vstd::seq_lib::group_filter_ensures;

    match identified(c, Some(p)).unwrap() {
        CallerView::Owner { login, repos } => {
            let o = c.owner.unwrap().unwrap();
            let named = text::texts(o.repos@);
            let keep = |r: Seq<char>| p.repos@.contains(r);
            assert(repos == named.filter(keep));
            assert forall|i: int| 0 <= i < repos.len() implies p.repos@.contains(
                #[trigger] repos[i],
            ) by {
                assert(keep(repos[i]));
            }
        },
        _ => {},
    }
}

// ---------------------------------------------------------------------------
// Budgets
// ---------------------------------------------------------------------------

/// Which budget a request is counted against.
#[derive(Debug, PartialEq, Eq)]
pub enum Bucket {
    /// Somebody's own. It holds the digest of who they turned out to be, never
    /// anything they chose to send.
    Credential(String),
    /// A stranger on the private surface, or guessing a credential.
    AnonPrivate,
    /// A stranger doing what costs something on the public one.
    PublicWrite,
    /// A stranger reading it.
    PublicRead,
}

/// Which budget a request is counted against, as contracts speak of it.
pub enum BucketView {
    Credential(Seq<char>),
    AnonPrivate,
    PublicWrite,
    PublicRead,
}

impl View for Bucket {
    type V = BucketView;

    open spec fn view(&self) -> BucketView {
        match self {
            Bucket::Credential(s) => BucketView::Credential(s@),
            Bucket::AnonPrivate => BucketView::AnonPrivate,
            Bucket::PublicWrite => BucketView::PublicWrite,
            Bucket::PublicRead => BucketView::PublicRead,
        }
    }
}

} // verus!
