//! Who somebody turns out to be.

use vstd::prelude::*;

use crate::caller;
use crate::caller::{CallerView, Credentials, OwnerRecord, SessionAccount};
use crate::config::PublicConfig;
use crate::text;

verus! {

/// Is this one of the names?
pub open spec fn named_in(v: Seq<String>, name: Seq<char>) -> bool {
    exists|k: int| 0 <= k < v.len() && (#[trigger] v[k])@ == name
}

/// Was no key presented that a machine has?
pub open spec fn no_machine(c: Credentials) -> bool {
    c.bearer_hash matches Some(h) ==> forall|k: int|
        0 <= k < c.daemon_keys@.len() ==> (#[trigger] c.daemon_keys@[k]).key_hash@ != h@
}

proof fn lemma_no_label(keys: Seq<caller::DaemonKey>, hash: Seq<char>)
    requires
        forall|k: int| 0 <= k < keys.len() ==> (#[trigger] keys[k]).key_hash@ != hash,
    ensures
        caller::matching_label(keys, hash) is None,
    decreases keys.len(),
{
    if keys.len() > 0 {
        let rest = keys.skip(1);
        assert forall|k: int| 0 <= k < rest.len() implies (#[trigger] rest[k]).key_hash@
            != hash by {
            assert(rest[k] == keys[k + 1]);
        }
        assert(keys[0].key_hash@ != hash);
        lemma_no_label(rest, hash);
    }
}

proof fn lemma_first_label(keys: Seq<caller::DaemonKey>, hash: Seq<char>, k: int)
    requires
        0 <= k < keys.len(),
        keys[k].key_hash@ == hash,
        forall|j: int| 0 <= j < k ==> (#[trigger] keys[j]).key_hash@ != hash,
    ensures
        caller::matching_label(keys, hash) == Some(keys[k].label@),
    decreases keys.len(),
{
    if k > 0 {
        let rest = keys.skip(1);
        assert forall|j: int| 0 <= j < k - 1 implies (#[trigger] rest[j]).key_hash@ != hash by {
            assert(rest[j] == keys[j + 1]);
        }
        assert(keys[0].key_hash@ != hash);
        assert(rest[k - 1] == keys[k]);
        lemma_first_label(rest, hash, k - 1);
    }
}

proof fn lemma_texts_hold(v: Seq<String>, name: Seq<char>)
    ensures
        text::texts(v).contains(name) == named_in(v, name),
{
    if text::texts(v).contains(name) {
        let k = choose|k: int| 0 <= k < text::texts(v).len() && text::texts(v)[k] == name;
        assert(v[k]@ == name);
    }
    if named_in(v, name) {
        let k = choose|k: int| 0 <= k < v.len() && (#[trigger] v[k])@ == name;
        assert(text::texts(v)[k] == name);
    }
}

/// Whoever presents a machine's key is that machine, under the label that the
/// key was minted for, whatever else they carry.
pub proof fn law_a_key_names_its_machine(
    c: Credentials,
    public: Option<&PublicConfig>,
    hash: String,
    k: int,
)
    requires
        c.bearer_hash == Some(hash),
        0 <= k < c.daemon_keys@.len(),
        c.daemon_keys@[k].key_hash@ == hash@,
        forall|j: int| 0 <= j < k ==> (#[trigger] c.daemon_keys@[j]).key_hash@ != hash@,
    ensures
        caller::identified(c, public) == Some(
            CallerView::Daemon { label: c.daemon_keys@[k].label@ },
        ),
{
    lemma_first_label(c.daemon_keys@, hash@, k);
}

/// Nobody without a key and without a session is anybody.
pub proof fn law_no_credential_is_nobody(c: Credentials, public: Option<&PublicConfig>)
    requires
        no_machine(c),
        c.session is None,
    ensures
        caller::identified(c, public) is None,
{
    if let Some(h) = c.bearer_hash {
        lemma_no_label(c.daemon_keys@, h@);
    }
}

/// Somebody with a session and no machine's key is never a machine: they are
/// whoever claimed the server, under their login in small letters, where it was
/// they who claimed it, and otherwise no administrator.
pub proof fn law_the_administrator_is_whoever_claimed_the_server(
    c: Credentials,
    account: SessionAccount,
    login: String,
    public: Option<&PublicConfig>,
)
    requires
        no_machine(c),
        c.session == Some(account),
        account.login == Some(login),
    ensures
        c.is_admin == Some(true) ==> (caller::identified(c, public) matches Some(
            CallerView::Admin { login: shown },
        ) && shown.len() == login@.len() && forall|i: int|
            0 <= i < shown.len() ==> (#[trigger] shown[i]) as int == (if 'A' <= login@[i] <= 'Z' {
                login@[i] as int + 32
            } else {
                login@[i] as int
            })),
        c.is_admin != Some(true) ==> !(caller::identified(c, public) matches Some(
            CallerView::Admin { .. },
        )),
        c.is_admin is None ==> caller::identified(c, public) is None,
        !(caller::identified(c, public) matches Some(CallerView::Daemon { .. })),
{
    if let Some(h) = c.bearer_hash {
        lemma_no_label(c.daemon_keys@, h@);
    }
}

/// Somebody whom the roster names owns every repository that it names for them
/// and that the surface serves, in the roster's order, and no other: they list,
/// read and decide on all of them. Where there is none such, they file.
pub proof fn law_an_owner_is_given_all_of_theirs_that_is_served(
    c: Credentials,
    account: SessionAccount,
    login: String,
    o: OwnerRecord,
    p: &PublicConfig,
    repo: Seq<char>,
)
    requires
        no_machine(c),
        c.session == Some(account),
        account.login == Some(login),
        c.is_admin == Some(false),
        c.owner == Some(Some(o)),
    ensures
        match caller::identified(c, Some(p)) {
            Some(CallerView::Owner { login: shown, repos }) => {
                &&& shown == o.login@
                &&& repos.len() > 0
                &&& repos.contains(repo) <==> named_in(o.repos@, repo) && named_in(
                    p.repos.names@,
                    repo,
                )
                &&& repos == o.repos@.map_values(|s: String| s@).filter(
                    |r: Seq<char>| named_in(p.repos.names@, r),
                )
            },
            Some(CallerView::Account { id }) => {
                &&& id == account.id@
                &&& !(named_in(o.repos@, repo) && named_in(p.repos.names@, repo))
            },
            _ => false,
        },
{
    broadcast use vstd::seq_lib::group_filter_ensures;

    if let Some(h) = c.bearer_hash {
        lemma_no_label(c.daemon_keys@, h@);
    }
    let all = text::texts(o.repos@);
    let served = p.repos@;
    let keep = |r: Seq<char>| served.contains(r);
    let keep_named = |r: Seq<char>| named_in(p.repos.names@, r);
    assert forall|r: Seq<char>| served.contains(r) == named_in(p.repos.names@, r) by {
        lemma_texts_hold(p.repos.names@, r);
    }
    assert(keep =~= keep_named);
    let kept = all.filter(keep);
    assert(kept == caller::served_among(all, served));
    assert(all == o.repos@.map_values(|s: String| s@));
    lemma_texts_hold(o.repos@, repo);
    if kept.contains(repo) {
        all.lemma_filter_contains_rev(keep, repo);
        let i = choose|i: int| 0 <= i < kept.len() && kept[i] == repo;
        assert(keep(kept[i]));
    }
    if all.contains(repo) && keep(repo) {
        let i = choose|i: int| 0 <= i < all.len() && all[i] == repo;
        assert(kept.contains(all[i]));
    }
}

/// Somebody signed in whom nothing names files: without a login, without a public
/// surface, or where the roster does not know them.
pub proof fn law_anybody_else_signed_in_files(
    c: Credentials,
    account: SessionAccount,
    public: Option<&PublicConfig>,
)
    requires
        no_machine(c),
        c.session == Some(account),
        account.login is None || (c.is_admin == Some(false) && (public is None || c.owner == Some(
            None::<OwnerRecord>,
        ))),
    ensures
        caller::identified(c, public) == Some(CallerView::Account { id: account.id@ }),
{
    if let Some(h) = c.bearer_hash {
        lemma_no_label(c.daemon_keys@, h@);
    }
}

/// Where the roster of a surface could not be read, somebody with a login is
/// nobody, rather than less than they are.
pub proof fn law_an_unread_roster_makes_nobody_less(
    c: Credentials,
    account: SessionAccount,
    login: String,
    p: &PublicConfig,
)
    requires
        no_machine(c),
        c.session == Some(account),
        account.login == Some(login),
        c.is_admin == Some(false),
        c.owner is None,
    ensures
        caller::identified(c, Some(p)) is None,
{
    if let Some(h) = c.bearer_hash {
        lemma_no_label(c.daemon_keys@, h@);
    }
}

} // verus!
