//! Administering the server: its settings, and who may do what.

use vstd::prelude::*;
use vstd::string::*;

use crate::caller;
use crate::caller::keep_served;
use crate::config::PublicConfig;
use crate::json;
use crate::json::{json_text, Body, FieldView};
use crate::routes::http;
use crate::routes::http::{error, Res, ResView};
use crate::routes::step::{Next, NextView};
use crate::settings::Settings;
use crate::text;
use crate::text::{bytes_in, chars_of, same};

verus! {

/// What is said of a login that is no address.
pub open spec fn not_an_address() -> Seq<char> {
    "that is not an email address"@
}

/// Is this a login that this server will store? `valid` is whether it is an
/// address. One rule for setting up and for naming owners.
pub fn check_login(valid: bool) -> (r: Result<(), String>)
    ensures
        match r {
            Ok(_) => valid,
            Err(e) => !valid && e@ == not_an_address(),
        },
{
    if valid {
        Ok(())
    } else {
        Err("that is not an email address".to_owned())
    }
}

// ---------------------------------------------------------------------------
// Settings
// ---------------------------------------------------------------------------

/// Which list an administrator asks for.
#[derive(Debug, Clone, Copy, PartialEq, Eq, Structural)]
pub enum AdminList {
    Settings,
    Owners,
    Repos,
    Daemons,
    Accounts,
}

/// The field of a body that is set in the environment, if it names one.
pub open spec fn fixed_field(fields: Seq<(Seq<char>, FieldView)>) -> Option<Seq<char>> {
    if json::field(fields, "base_url"@) is Some {
        Some("base_url"@)
    } else if json::field(fields, "site_name"@) is Some {
        Some("site_name"@)
    } else if json::field(fields, "mail_provider"@) is Some {
        Some("mail_provider"@)
    } else if json::field(fields, "mail_from"@) is Some {
        Some("mail_from"@)
    } else if json::field(fields, "mail_from_name"@) is Some {
        Some("mail_from_name"@)
    } else if json::field(fields, "mail_key"@) is Some {
        Some("mail_key"@)
    } else {
        None
    }
}

fn find_fixed(body: &Body) -> (r: Option<&'static str>)
    ensures
        text::opt_str(r) == fixed_field(body@),
{
    if body.has("base_url") {
        Some("base_url")
    } else if body.has("site_name") {
        Some("site_name")
    } else if body.has("mail_provider") {
        Some("mail_provider")
    } else if body.has("mail_from") {
        Some("mail_from")
    } else if body.has("mail_from_name") {
        Some("mail_from_name")
    } else if body.has("mail_key") {
        Some("mail_key")
    } else {
        None
    }
}

/// A ceiling after a change: as it was where the body does not name it, and the
/// built-in default where it names no number.
pub open spec fn new_cap(
    fields: Seq<(Seq<char>, FieldView)>,
    name: Seq<char>,
    was: Option<usize>,
) -> Option<usize> {
    if json::field(fields, name) is None {
        was
    } else {
        match json::number_field(fields, name) {
            Some(n) => Some(n as usize),
            None => None,
        }
    }
}

fn next_cap(body: &Body, name: &str, was: Option<usize>) -> (r: Option<usize>)
    ensures
        r == new_cap(body@, name@, was),
{
    if !body.has(name) {
        return was;
    }
    match body.number(name) {
        Some(n) => Some(n as usize),
        None => None,
    }
}

/// The settings after a change.
pub open spec fn changed_settings(s: Settings, fields: Seq<(Seq<char>, FieldView)>) -> Settings {
    Settings {
        public: match json::flag_field(fields, "public"@) {
            Some(v) => v,
            None => s.public,
        },
        show_spec: match json::flag_field(fields, "show_spec"@) {
            Some(v) => Some(v),
            None => s.show_spec,
        },
        max_daily_filings: new_cap(fields, "max_daily_filings"@, s.max_daily_filings),
        max_daily_drafts: new_cap(fields, "max_daily_drafts"@, s.max_daily_drafts),
        max_accounts: new_cap(fields, "max_accounts"@, s.max_accounts),
        max_outstanding_links: new_cap(fields, "max_outstanding_links"@, s.max_outstanding_links),
        seeded: s.seeded,
    }
}

/// Change some settings. What a deployment sets in its environment is refused,
/// and then nothing is changed.
pub fn api_settings(read: Result<Settings, String>, body: &Body) -> (r: Result<Settings, Res>)
    ensures
        match r {
            Ok(s) => read matches Ok(before) && fixed_field(body@) is None && s
                == changed_settings(before, body@),
            Err(res) => match read {
                Err(e) => res@ == http::error_res(500, e@),
                Ok(_) => fixed_field(body@) matches Some(name) && res@ == http::error_res(
                    400,
                    name + " is set in the environment - change it in the stack and redeploy"@,
                ),
            },
        },
{
    let mut s = match read {
        Ok(s) => s,
        Err(e) => {
            return Err(error(500, e.as_str()));
        },
    };
    if let Some(name) = find_fixed(body) {
        let said = name.to_owned().concat(
            " is set in the environment - change it in the stack and redeploy",
        );
        return Err(error(400, said.as_str()));
    }
    if let Some(v) = body.flag("public") {
        s.public = v;
    }
    if let Some(v) = body.flag("show_spec") {
        s.show_spec = Some(v);
    }
    s.max_daily_filings = next_cap(body, "max_daily_filings", s.max_daily_filings);
    s.max_daily_drafts = next_cap(body, "max_daily_drafts", s.max_daily_drafts);
    s.max_accounts = next_cap(body, "max_accounts", s.max_accounts);
    s.max_outstanding_links = next_cap(body, "max_outstanding_links", s.max_outstanding_links);
    Ok(s)
}

/// A change leaves alone what it does not name.
pub proof fn law_a_change_leaves_the_rest_alone(
    s: Settings,
    fields: Seq<(Seq<char>, FieldView)>,
)
    ensures
        ({
            let t = changed_settings(s, fields);
            &&& json::field(fields, "public"@) is None ==> t.public == s.public
            &&& json::field(fields, "show_spec"@) is None ==> t.show_spec == s.show_spec
            &&& json::field(fields, "max_daily_filings"@) is None ==> t.max_daily_filings
                == s.max_daily_filings
            &&& json::field(fields, "max_daily_drafts"@) is None ==> t.max_daily_drafts
                == s.max_daily_drafts
            &&& json::field(fields, "max_accounts"@) is None ==> t.max_accounts == s.max_accounts
            &&& json::field(fields, "max_outstanding_links"@) is None ==> t.max_outstanding_links
                == s.max_outstanding_links
            &&& t.seeded == s.seeded
        }),
{
}

// ---------------------------------------------------------------------------
// Who may do what
// ---------------------------------------------------------------------------

/// What a change to one of the lists needs done.
#[derive(Debug, Clone, Copy, PartialEq, Eq, Structural)]
pub enum ChangeAction {
    Read,
    /// Make the change to what was read. Where `administered`, mark the roster as
    /// somebody's own too, so that no later start applies the environment to it.
    Change { administered: bool },
    Write,
    /// Write the answer down from the list as it stands.
    Render,
}

/// What has come back so far.
pub struct ChangeFacts {
    pub read: Option<Result<(), String>>,
    /// Did anything change?
    pub changed: Option<bool>,
    pub written: Option<Result<(), String>>,
    pub rendered: Option<Result<String, String>>,
}

/// What a change that was made does next: it is written where it has to be, and
/// answered with the list as it stands.
pub open spec fn made_next(write: bool, f: ChangeFacts) -> NextView<ChangeAction> {
    if write && f.written is None {
        NextView::Do(ChangeAction::Write)
    } else {
        match f.written {
            Some(Err(e)) => NextView::Reply(http::error_res(500, e@)),
            _ => match f.rendered {
                None => NextView::Do(ChangeAction::Render),
                Some(Err(e)) => NextView::Reply(http::error_res(500, e@)),
                Some(Ok(body)) => NextView::Reply(http::json_res(200, body@)),
            },
        }
    }
}

/// What adding to one of the lists does next: it is refused, if it is, once the
/// list could be read. It marks the roster, so it is written whether or not
/// anything else changed.
pub open spec fn add_next(refusal: Option<ResView>, f: ChangeFacts) -> NextView<ChangeAction> {
    match f.read {
        None => NextView::Do(ChangeAction::Read),
        Some(Err(e)) => NextView::Reply(http::error_res(500, e@)),
        Some(Ok(_)) => match refusal {
            Some(res) => NextView::Reply(res),
            None => match f.changed {
                None => NextView::Do(ChangeAction::Change { administered: true }),
                Some(_) => made_next(true, f),
            },
        },
    }
}

/// What taking from one of the lists does next: it is refused, if it is, once the
/// list could be read, and written only where something changed.
pub open spec fn revoke_next(refusal: Option<ResView>, f: ChangeFacts) -> NextView<ChangeAction> {
    match f.read {
        None => NextView::Do(ChangeAction::Read),
        Some(Err(e)) => NextView::Reply(http::error_res(500, e@)),
        Some(Ok(_)) => match refusal {
            Some(res) => NextView::Reply(res),
            None => match f.changed {
                None => NextView::Do(ChangeAction::Change { administered: false }),
                Some(changed) => made_next(changed, f),
            },
        },
    }
}

/// A refusal that may not be one.
pub open spec fn refusal_view(o: Option<Res>) -> Option<ResView> {
    match o {
        Some(r) => Some(r@),
        None => None,
    }
}

fn made_step(write: bool, f: &ChangeFacts) -> (r: Next<ChangeAction>)
    ensures
        r@ == made_next(write, *f),
{
    if write && f.written.is_none() {
        return Next::Do(ChangeAction::Write);
    }
    if let Some(Err(e)) = &f.written {
        return Next::Reply(error(500, e.as_str()));
    }
    match &f.rendered {
        None => Next::Do(ChangeAction::Render),
        Some(Err(e)) => Next::Reply(error(500, e.as_str())),
        Some(Ok(body)) => Next::Reply(Res::json(200, body.as_str())),
    }
}

/// Add to one of the lists.
pub fn add_step(refusal: Option<Res>, f: &ChangeFacts) -> (r: Next<ChangeAction>)
    ensures
        r@ == add_next(refusal_view(refusal), *f),
{
    match &f.read {
        None => {
            return Next::Do(ChangeAction::Read);
        },
        Some(Err(e)) => {
            return Next::Reply(error(500, e.as_str()));
        },
        Some(Ok(_)) => {},
    }
    if let Some(res) = refusal {
        return Next::Reply(res);
    }
    match f.changed {
        None => Next::Do(ChangeAction::Change { administered: true }),
        Some(_) => made_step(true, f),
    }
}

/// Take from one of the lists.
pub fn revoke_step(refusal: Option<Res>, f: &ChangeFacts) -> (r: Next<ChangeAction>)
    ensures
        r@ == revoke_next(refusal_view(refusal), *f),
{
    match &f.read {
        None => {
            return Next::Do(ChangeAction::Read);
        },
        Some(Err(e)) => {
            return Next::Reply(error(500, e.as_str()));
        },
        Some(Ok(_)) => {},
    }
    if let Some(res) = refusal {
        return Next::Reply(res);
    }
    match f.changed {
        None => Next::Do(ChangeAction::Change { administered: false }),
        Some(changed) => made_step(changed, f),
    }
}

/// A refused change is not made: nothing is changed and nothing is written.
pub proof fn law_a_refused_change_is_not_made(refusal: ResView, f: ChangeFacts)
    ensures
        match add_next(Some(refusal), f) {
            NextView::Do(a) => a == ChangeAction::Read,
            NextView::Reply(_) => true,
        },
        match revoke_next(Some(refusal), f) {
            NextView::Do(a) => a == ChangeAction::Read,
            NextView::Reply(_) => true,
        },
{
}

/// Asking for a state that already holds succeeds, and writes nothing.
pub proof fn law_revoking_twice_is_no_error(f: ChangeFacts)
    requires
        f.read matches Some(Ok(_)),
        f.changed == Some(false),
        f.written is None,
    ensures
        f.rendered is None ==> revoke_next(None, f) == NextView::<ChangeAction>::Do(
            ChangeAction::Render,
        ),
        f.rendered matches Some(Ok(body)) ==> revoke_next(None, f)
            == NextView::<ChangeAction>::Reply(http::json_res(200, body@)),
{
}

/// What was added is answered only once it is written down, with the mark that
/// keeps a later start from applying the environment over it, even where it
/// changed nothing else. Taking away leaves no such mark.
pub proof fn law_an_administered_roster_is_written_as_such(
    label: Seq<char>,
    key: Seq<char>,
    f: ChangeFacts,
)
    ensures
        match add_next(None, f) {
            NextView::Do(ChangeAction::Change { administered }) => administered,
            NextView::Do(_) => true,
            NextView::Reply(res) => res.status == 200 ==> f.changed is Some && f.written matches Some(
                Ok(_),
            ),
        },
        match mint_next(label, key, f) {
            NextView::Do(ChangeAction::Change { administered }) => administered,
            NextView::Do(_) => true,
            NextView::Reply(res) => res.status == 200 ==> f.changed is Some && f.written matches Some(
                Ok(_),
            ),
        },
        match revoke_next(None, f) {
            NextView::Do(ChangeAction::Change { administered }) => !administered,
            _ => true,
        },
{
}

/// The repositories among those asked for that this surface serves.
pub open spec fn granted(public: Option<&PublicConfig>, asked: Seq<Seq<char>>) -> Seq<Seq<char>> {
    match public {
        Some(p) => caller::served_among(asked, p.repos@),
        None => Seq::empty(),
    }
}

/// The repositories among those asked for that this surface serves.
pub fn grant(public: Option<&PublicConfig>, asked: &Vec<String>) -> (r: Vec<String>)
    ensures
        text::texts(r@) == granted(public, text::texts(asked@)),
{
    match public {
        Some(p) => keep_served(asked.as_slice(), p.repos.names.as_slice()),
        None => {
            let none: Vec<String> = Vec::new();
            assert(text::texts(none@) =~= Seq::<Seq<char>>::empty());
            none
        },
    }
}

/// Why nobody is named an owner, if nobody is. `valid` is whether the login is
/// an address, and `repos` what they were granted.
pub open spec fn owner_refusal(valid: bool, repos: Seq<Seq<char>>) -> Option<ResView> {
    if !valid {
        Some(http::error_res(400, not_an_address()))
    } else if repos.len() == 0 {
        Some(http::error_res(400, "pick at least one repository this server serves"@))
    } else {
        None
    }
}

/// Name somebody an owner of some repositories. One of nothing is refused: it
/// would look like a promotion and grant nothing.
pub fn api_add_owner(valid: bool, repos: &Vec<String>, f: &ChangeFacts) -> (r: Next<ChangeAction>)
    ensures
        r@ == (match owner_refusal(valid, text::texts(repos@)) {
            Some(res) => NextView::Reply(res),
            None => add_next(None, *f),
        }),
{
    if let Err(e) = check_login(valid) {
        return Next::Reply(error(400, e.as_str()));
    }
    if repos.len() == 0 {
        return Next::Reply(error(400, "pick at least one repository this server serves"));
    }
    add_step(None, f)
}

/// Why a repository is not enabled, if it is not: no machine has offered it and
/// nobody insists.
pub open spec fn repo_refusal(offered: bool, anyway: bool) -> Option<ResView> {
    if !anyway && !offered {
        Some(
            http::error_res(
                409,
                "no machine has offered that repository - send anyway: true to enable it regardless"@,
            ),
        )
    } else {
        None
    }
}

/// Enable a repository for public filing.
pub fn api_add_repo(offered: bool, anyway: bool, f: &ChangeFacts) -> (r: Next<ChangeAction>)
    ensures
        r@ == add_next(repo_refusal(offered, anyway), *f),
{
    let refusal = if !anyway && !offered {
        Some(
            error(
                409,
                "no machine has offered that repository - send anyway: true to enable it regardless",
            ),
        )
    } else {
        None
    };
    add_step(refusal, f)
}

/// May this stand in a machine's name?
pub open spec fn label_char(c: char) -> bool {
    'a' <= c <= 'z' || 'A' <= c <= 'Z' || '0' <= c <= '9' || c == '-' || c == '_'
}

/// What is wrong with a machine's name.
pub open spec fn label_problem(label: Seq<char>) -> Option<Seq<char>> {
    if label.len() == 0 || text::byte_len(label) > 64 {
        Some("a machine needs a name"@)
    } else if !(forall|i: int| 0 <= i < label.len() ==> label_char(#[trigger] label[i])) {
        Some("letters, numbers, dashes and underscores"@)
    } else {
        None
    }
}

/// Is this a name for a machine? It is kept to what reads back unambiguously.
pub fn check_label(label: &str) -> (r: Result<(), &'static str>)
    ensures
        match r {
            Ok(_) => label_problem(label@) is None,
            Err(e) => label_problem(label@) == Some(e@),
        },
{
    if label.is_empty() || bytes_in(label) > 64 {
        return Err("a machine needs a name");
    }
    let chars = chars_of(label);
    let mut i: usize = 0;
    while i < chars.len()
        invariant
            chars@ == label@,
            i <= chars@.len(),
            label@.len() > 0,
            text::byte_len(label@) <= 64,
            forall|j: int| 0 <= j < i ==> label_char(#[trigger] label@[j]),
        decreases chars@.len() - i,
    {
        let c = chars[i];
        if !(('a' <= c && c <= 'z') || ('A' <= c && c <= 'Z') || ('0' <= c && c <= '9') || c == '-'
            || c == '_') {
            assert(!label_char(label@[i as int]));
            return Err("letters, numbers, dashes and underscores");
        }
        i = i + 1;
    }
    Ok(())
}

/// What is answered when a key was minted: the only copy of it there is.
pub open spec fn minted_body(label: Seq<char>, key: Seq<char>) -> Seq<char> {
    "{\"key\":"@ + json::json_string(key) + ",\"label\":"@ + json::json_string(label) + "}"@
}

/// What is answered when a key was minted.
pub fn minted_json(label: &str, key: &str) -> (r: String)
    ensures
        r@ == minted_body(label@, key@),
{
    let k = json_text(key);
    let l = json_text(label);
    "{\"key\":".to_owned().concat(k.as_str()).concat(",\"label\":").concat(l.as_str()).concat("}")
}

/// What minting a key does next. The answer is the key itself, once what it is
/// known by is written.
pub open spec fn mint_next(label: Seq<char>, key: Seq<char>, f: ChangeFacts) -> NextView<
    ChangeAction,
> {
    match f.read {
        None => NextView::Do(ChangeAction::Read),
        Some(Err(e)) => NextView::Reply(http::error_res(500, e@)),
        Some(Ok(_)) => if f.changed is None {
            NextView::Do(ChangeAction::Change { administered: true })
        } else {
            match f.written {
                None => NextView::Do(ChangeAction::Write),
                Some(Err(e)) => NextView::Reply(http::error_res(500, e@)),
                Some(Ok(_)) => NextView::Reply(http::json_res(200, minted_body(label, key))),
            }
        },
    }
}

/// Mint a key for a machine, under a label that [`check_label`] let through.
pub fn api_mint_daemon(label: &str, key: &str, f: &ChangeFacts) -> (r: Next<ChangeAction>)
    ensures
        r@ == mint_next(label@, key@, *f),
{
    match &f.read {
        None => {
            return Next::Do(ChangeAction::Read);
        },
        Some(Err(e)) => {
            return Next::Reply(error(500, e.as_str()));
        },
        Some(Ok(_)) => {},
    }
    if f.changed.is_none() {
        return Next::Do(ChangeAction::Change { administered: true });
    }
    match &f.written {
        None => Next::Do(ChangeAction::Write),
        Some(Err(e)) => Next::Reply(error(500, e.as_str())),
        Some(Ok(_)) => Next::Reply(Res::json(200, minted_json(label, key).as_str())),
    }
}

/// A key is handed over only when the server will know it: every other answer
/// is a failure.
pub proof fn law_a_key_is_handed_over_once_it_is_known(
    label: Seq<char>,
    key: Seq<char>,
    f: ChangeFacts,
)
    ensures
        mint_next(label, key, f) matches NextView::Reply(res) ==> {
            ||| f.written matches Some(Ok(_)) && res == http::json_res(200, minted_body(label, key))
            ||| exists|e: Seq<char>| res == #[trigger] http::error_res(500, e)
        },
{
}

/// The list that a revocation is about.
pub open spec fn revocable(list: Seq<char>) -> Option<AdminList> {
    if list == "accounts"@ {
        Some(AdminList::Accounts)
    } else if list == "owners"@ {
        Some(AdminList::Owners)
    } else if list == "daemons"@ {
        Some(AdminList::Daemons)
    } else if list == "repos"@ {
        Some(AdminList::Repos)
    } else {
        None
    }
}

/// The list that a revocation is about.
pub fn revoked_from(list: &str) -> (r: Option<AdminList>)
    ensures
        r == revocable(list@),
{
    if same(list, "accounts") {
        Some(AdminList::Accounts)
    } else if same(list, "owners") {
        Some(AdminList::Owners)
    } else if same(list, "daemons") {
        Some(AdminList::Daemons)
    } else if same(list, "repos") {
        Some(AdminList::Repos)
    } else {
        None
    }
}

/// Revoke an account, an owner or a machine, or disable a repository. A list
/// that there is not is an address that there is not; a record already in the
/// state asked for is no failure.
pub fn api_revoke(list: Option<AdminList>, f: &ChangeFacts) -> (r: Next<ChangeAction>)
    ensures
        r@ == revoke_next(
            if list is Some {
                None
            } else {
                Some(http::error_res(404, "no such endpoint"@))
            },
            *f,
        ),
{
    let refusal = if list.is_some() {
        None
    } else {
        Some(error(404, "no such endpoint"))
    };
    revoke_step(refusal, f)
}

/// What is answered with a list: the list, or why it could not be read.
pub fn api_admin(body: Result<String, String>) -> (r: Res)
    ensures
        r@ == (match body {
            Ok(b) => http::json_res(200, b@),
            Err(e) => http::error_res(500, e@),
        }),
{
    match body {
        Ok(b) => Res::json(200, b.as_str()),
        Err(e) => error(500, e.as_str()),
    }
}

} // verus!
