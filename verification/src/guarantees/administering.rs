//! Changing the settings, and who may do what.

use vstd::prelude::*;
use vstd::string::*;

use crate::config::PublicConfig;
use crate::json;
use crate::json::{Body, FieldView};
use crate::routes::admin;
use crate::routes::admin::{AdminList, ChangeAction, ChangeFacts};
use crate::routes::http::{Res, ResView};
use crate::routes::step::{Next, NextView};
use crate::settings::Settings;

verus! {

/// What a change says of a ceiling: nothing, a number, or no number.
pub open spec fn cap_after(
    sent: Option<FieldView>,
    was: Option<usize>,
    now: Option<usize>,
) -> bool {
    match sent {
        None => now == was,
        Some(FieldView::Number(Some(n))) => n <= usize::MAX ==> (now matches Some(m) && m == n),
        Some(_) => now is None,
    }
}

/// A change sets what it names to what it says, each under its own name, and
/// leaves the rest.
pub proof fn law_a_change_sets_what_it_names(s: Settings, fields: Seq<(Seq<char>, FieldView)>)
    ensures
        ({
            let t = admin::changed_settings(s, fields);
            &&& t.public == (match json::field(fields, "public"@) {
                Some(FieldView::Flag(v)) => v,
                _ => s.public,
            })
            &&& t.show_spec == (match json::field(fields, "show_spec"@) {
                Some(FieldView::Flag(v)) => Some(v),
                _ => s.show_spec,
            })
            &&& cap_after(
                json::field(fields, "max_daily_filings"@),
                s.max_daily_filings,
                t.max_daily_filings,
            )
            &&& cap_after(
                json::field(fields, "max_daily_drafts"@),
                s.max_daily_drafts,
                t.max_daily_drafts,
            )
            &&& cap_after(json::field(fields, "max_accounts"@), s.max_accounts, t.max_accounts)
            &&& cap_after(
                json::field(fields, "max_outstanding_links"@),
                s.max_outstanding_links,
                t.max_outstanding_links,
            )
            &&& t.seeded == s.seeded
        }),
{
}

/// Does a change name something that a deployment sets in its environment?
pub open spec fn names_the_environment(fields: Seq<(Seq<char>, FieldView)>) -> bool {
    ||| json::field(fields, "base_url"@) is Some
    ||| json::field(fields, "site_name"@) is Some
    ||| json::field(fields, "mail_provider"@) is Some
    ||| json::field(fields, "mail_from"@) is Some
    ||| json::field(fields, "mail_from_name"@) is Some
    ||| json::field(fields, "mail_key"@) is Some
}

/// A change is taken unless it names something of the environment's, and is then
/// refused with that name; settings that could not be read are not changed.
pub proof fn law_a_change_is_taken_or_refused(
    read: Result<Settings, String>,
    body: Body,
    r: Result<Settings, Res>,
)
    requires
        call_ensures(admin::api_settings, (read, &body), r),
    ensures
        r is Ok <==> read is Ok && !names_the_environment(body@),
        r matches Ok(t) ==> t == admin::changed_settings(read.unwrap(), body@),
        r matches Err(res) ==> (read is Ok ==> res@.status == 400 && exists|name: Seq<char>|
            json::field(body@, name) is Some && res@.body == json::error_body(
                name + " is set in the environment - change it in the stack and redeploy"@,
            )),
        r matches Err(res) ==> (read matches Err(e) ==> res@.status == 500 && res@.body
            == json::error_body(e@)),
{
    if let Err(res) = r {
        if read is Ok {
            let name = admin::fixed_field(body@).unwrap();
            assert(json::field(body@, name) is Some);
        }
    }
}

/// Adding to a list, step by step: it is read, changed and marked as somebody's
/// own, written whatever changed, and answered with the list as it then stands.
/// What is refused is not changed.
pub proof fn law_adding_step_by_step(f: ChangeFacts, no: ResView)
    ensures
        ({
            let n = admin::add_next(None, f);
            let read = f.read matches Some(Ok(_));
            let written = read && f.changed is Some && (f.written matches Some(Ok(_)));
            &&& n == NextView::<ChangeAction>::Do(ChangeAction::Read) <==> f.read is None
            &&& n == NextView::<ChangeAction>::Do(ChangeAction::Change { administered: true })
                <==> read && f.changed is None
            &&& n != NextView::<ChangeAction>::Do(ChangeAction::Change { administered: false })
            &&& n == NextView::<ChangeAction>::Do(ChangeAction::Write) <==> read && f.changed is Some
                && f.written is None
            &&& n == NextView::<ChangeAction>::Do(ChangeAction::Render) <==> written && f.rendered
                is None
            &&& written ==> (f.rendered matches Some(Ok(b)) ==> (n matches NextView::Reply(res)
                && res.status == 200 && res.body == b@))
            &&& n matches NextView::Reply(res) ==> (res.status == 200 ==> written)
        }),
        f.read matches Some(Ok(_)) ==> admin::add_next(Some(no), f) == NextView::<
            ChangeAction,
        >::Reply(no),
{
}

/// Taking from a list, step by step: it is read and changed, written where
/// anything changed, and answered with the list as it then stands.
pub proof fn law_taking_step_by_step(f: ChangeFacts, no: ResView)
    ensures
        ({
            let n = admin::revoke_next(None, f);
            let read = f.read matches Some(Ok(_));
            let settled = read && (f.changed == Some(false) && f.written is None || (f.changed
                is Some && (f.written matches Some(Ok(_)))));
            &&& n == NextView::<ChangeAction>::Do(ChangeAction::Read) <==> f.read is None
            &&& n == NextView::<ChangeAction>::Do(ChangeAction::Change { administered: false })
                <==> read && f.changed is None
            &&& n != NextView::<ChangeAction>::Do(ChangeAction::Change { administered: true })
            &&& n == NextView::<ChangeAction>::Do(ChangeAction::Write) <==> read && f.changed
                == Some(true) && f.written is None
            &&& n == NextView::<ChangeAction>::Do(ChangeAction::Render) <==> settled && f.rendered
                is None
            &&& settled ==> (f.rendered matches Some(Ok(b)) ==> (n matches NextView::Reply(res)
                && res.status == 200 && res.body == b@))
            &&& n matches NextView::Reply(res) ==> (res.status == 200 ==> settled)
        }),
        f.read matches Some(Ok(_)) ==> admin::revoke_next(Some(no), f) == NextView::<
            ChangeAction,
        >::Reply(no),
{
}

/// An owner has an address and a repository at least, and is then added; one
/// without is not, whatever the list holds.
pub proof fn law_an_owner_owns_something(
    valid: bool,
    repos: Vec<String>,
    f: ChangeFacts,
    r: Next<ChangeAction>,
)
    requires
        call_ensures(admin::api_add_owner, (valid, &repos, &f), r),
    ensures
        valid && repos@.len() > 0 ==> r@ == admin::add_next(None, f),
        !valid || repos@.len() == 0 ==> (r@ matches NextView::Reply(res) && res.status == 400),
{
}

/// A repository is added that a machine offers, or that somebody insists on.
pub proof fn law_a_repository_is_offered_or_insisted_on(
    offered: bool,
    anyway: bool,
    f: ChangeFacts,
    r: Next<ChangeAction>,
)
    requires
        call_ensures(admin::api_add_repo, (offered, anyway, &f), r),
        f.read matches Some(Ok(_)),
    ensures
        offered || anyway ==> r@ == admin::add_next(None, f),
        !offered && !anyway ==> (r@ matches NextView::Reply(res) && res.status == 409),
{
}

/// A key is minted step by step: the list is read and changed, and the key and
/// the label it goes by are handed over once that is written.
pub proof fn law_a_key_is_minted_step_by_step(label: Seq<char>, key: Seq<char>, f: ChangeFacts)
    ensures
        ({
            let n = admin::mint_next(label, key, f);
            let read = f.read matches Some(Ok(_));
            &&& n == NextView::<ChangeAction>::Do(ChangeAction::Read) <==> f.read is None
            &&& n == NextView::<ChangeAction>::Do(ChangeAction::Change { administered: true })
                <==> read && f.changed is None
            &&& n == NextView::<ChangeAction>::Do(ChangeAction::Write) <==> read && f.changed is Some
                && f.written is None
            &&& read && f.changed is Some && (f.written matches Some(Ok(_))) ==> (
            n matches NextView::Reply(res) && res.status == 200 && res.body == "{\"key\":"@
                + json::json_string(key) + ",\"label\":"@ + json::json_string(label) + "}"@)
            &&& n matches NextView::Reply(res) ==> (res.status == 200 ==> read && f.changed is Some
                && f.written matches Some(Ok(_)))
        }),
{
}

/// Something is taken from the list that was named, and a list that there is not
/// has nothing to take.
pub proof fn law_a_revocation_names_its_list(list: Seq<char>)
    ensures
        admin::revocable("accounts"@) == Some(AdminList::Accounts),
        admin::revocable("owners"@) == Some(AdminList::Owners),
        admin::revocable("daemons"@) == Some(AdminList::Daemons),
        admin::revocable("repos"@) == Some(AdminList::Repos),
        list != "accounts"@ && list != "owners"@ && list != "daemons"@ && list != "repos"@
            ==> admin::revocable(list) is None,
{
    reveal_strlit("accounts");
    reveal_strlit("owners");
    reveal_strlit("daemons");
    reveal_strlit("repos");
    assert("accounts"@.len() == 8 && "owners"@.len() == 6);
    assert("daemons"@.len() == 7 && "repos"@.len() == 5);
}

/// Taking from a list that there is not is an address that there is not.
pub proof fn law_there_are_four_lists_to_take_from(
    list: Option<AdminList>,
    f: ChangeFacts,
    r: Next<ChangeAction>,
)
    requires
        call_ensures(admin::api_revoke, (list, &f), r),
        f.read matches Some(Ok(_)),
    ensures
        list is Some ==> r@ == admin::revoke_next(None, f),
        list is None ==> (r@ matches NextView::Reply(res) && res.status == 404),
{
}

/// A repository is granted where it was asked for and is served.
pub proof fn law_what_is_asked_for_and_served_is_granted(
    p: PublicConfig,
    asked: Seq<Seq<char>>,
    repo: Seq<char>,
)
    ensures
        admin::granted(Some(&p), asked).contains(repo) <==> (exists|k: int|
            0 <= k < asked.len() && #[trigger] asked[k] == repo) && (exists|k: int|
            0 <= k < p.repos.names@.len() && (#[trigger] p.repos.names@[k])@ == repo),
        !admin::granted(None, asked).contains(repo),
{
    broadcast use vstd::seq_lib::group_filter_ensures;

    let served = p.repos@;
    let keep = |r: Seq<char>| served.contains(r);
    let kept = asked.filter(keep);
    assert(served.contains(repo) == (exists|k: int|
        0 <= k < p.repos.names@.len() && (#[trigger] p.repos.names@[k])@ == repo)) by {
        if served.contains(repo) {
            let k = choose|k: int| 0 <= k < served.len() && served[k] == repo;
            assert(p.repos.names@[k]@ == repo);
        }
        if exists|k: int| 0 <= k < p.repos.names@.len() && (#[trigger] p.repos.names@[k])@ == repo {
            let k = choose|k: int|
                0 <= k < p.repos.names@.len() && (#[trigger] p.repos.names@[k])@ == repo;
            assert(served[k] == repo);
        }
    }
    if kept.contains(repo) {
        asked.lemma_filter_contains_rev(keep, repo);
        let i = choose|i: int| 0 <= i < kept.len() && kept[i] == repo;
        assert(keep(kept[i]));
    }
    if asked.contains(repo) && keep(repo) {
        let i = choose|i: int| 0 <= i < asked.len() && asked[i] == repo;
        assert(kept.contains(asked[i]));
    }
}

} // verus!
