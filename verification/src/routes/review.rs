//! Reading requests, and deciding what becomes of them.

use vstd::prelude::*;
use vstd::string::*;

use crate::caller::{Caller, CallerView};
use crate::caller;
use crate::config::{PublicConfig, FILING_WINDOW_MS};
use crate::i18n::Locale;
use crate::json;
use crate::json::Body;
use crate::request;
use crate::request::{Request, RequestState, RequestView};
use crate::routes::filing;
use crate::routes::http;
use crate::routes::http::{error, Payload, PayloadView, Res, ResView};
use crate::routes::paths::{OWNER_VERBS, REVIEW_VERBS};
use crate::store;
use crate::store::{Refusal, Store, StoreError};
use crate::text;
use crate::text::{number, one_of, same};

verus! {

// ---------------------------------------------------------------------------
// Reading
// ---------------------------------------------------------------------------

/// May a filer read what was drafted from their request?
pub open spec fn spec_shown(public: Option<&PublicConfig>) -> bool {
    match public {
        Some(p) => p.show_spec,
        None => false,
    }
}

fn show_spec(public: Option<&PublicConfig>) -> (r: bool)
    ensures
        r == spec_shown(public),
{
    match public {
        Some(p) => p.show_spec,
        None => false,
    }
}

/// The requests about these repositories.
pub open spec fn about(s: Seq<RequestView>, repos: Seq<Seq<char>>) -> Seq<RequestView> {
    s.filter(|q: RequestView| repos.contains(q.repo))
}

/// The requests an account filed.
pub open spec fn filed_by(s: Seq<RequestView>, account_id: Seq<char>) -> Seq<RequestView> {
    s.filter(|q: RequestView| q.account_id == Some(account_id))
}

/// The list of requests, according to who is asking: everything for whoever
/// claimed the server, their repositories for an owner, their own for a filer.
pub open spec fn requests_answer(
    s: Seq<RequestView>,
    public: Option<&PublicConfig>,
    caller: Option<CallerView>,
    locale: Locale,
) -> ResView {
    match caller {
        Some(CallerView::Admin { .. }) => http::data_res(
            PayloadView::Reviewed { requests: s, artifacts: true },
        ),
        Some(CallerView::Owner { repos, .. }) => http::data_res(
            PayloadView::Reviewed { requests: about(s, repos), artifacts: false },
        ),
        Some(CallerView::Account { id }) => http::data_res(
            PayloadView::Filings {
                requests: filed_by(s, id),
                show_spec: spec_shown(public),
                locale,
            },
        ),
        Some(CallerView::Daemon { .. }) | None => http::json_res(200, "[]"@),
    }
}

fn all_about(store: &Store, repos: &Vec<String>) -> (r: Vec<Request>)
    ensures
        store::views(r@) == about(store@, text::texts(repos@)),
{
    let all = store.all();
    let ghost keep = |q: RequestView| text::texts(repos@).contains(q.repo);
    let mut out: Vec<Request> = Vec::new();
    let mut i: usize = 0;
    proof {
        reveal(Seq::filter);
    }
    assert(store::views(out@) =~= store@.take(0).filter(keep));
    while i < all.len()
        invariant
            i <= all@.len(),
            store::views(all@) == store@,
            keep == (|q: RequestView| text::texts(repos@).contains(q.repo)),
            store::views(out@) == store@.take(i as int).filter(keep),
        decreases all@.len() - i,
    {
        let ghost before = out@;
        proof {
            reveal(Seq::filter);
            assert(store@.take(i + 1).drop_last() =~= store@.take(i as int));
            assert(store::views(all@)[i as int] == all@[i as int]@);
        }
        if one_of(repos.as_slice(), all[i].repo.as_str()) {
            out.push(all[i].clone());
            assert(store::views(out@) =~= store::views(before).push(store@[i as int]));
        }
        i = i + 1;
    }
    assert(store@.take(i as int) =~= store@);
    out
}

fn all_filed_by(store: &Store, account_id: &str) -> (r: Vec<Request>)
    ensures
        store::views(r@) == filed_by(store@, account_id@),
{
    let all = store.all();
    let ghost keep = |q: RequestView| q.account_id == Some(account_id@);
    let mut out: Vec<Request> = Vec::new();
    let mut i: usize = 0;
    proof {
        reveal(Seq::filter);
    }
    assert(store::views(out@) =~= store@.take(0).filter(keep));
    while i < all.len()
        invariant
            i <= all@.len(),
            store::views(all@) == store@,
            keep == (|q: RequestView| q.account_id == Some(account_id@)),
            store::views(out@) == store@.take(i as int).filter(keep),
        decreases all@.len() - i,
    {
        let ghost before = out@;
        proof {
            reveal(Seq::filter);
            assert(store@.take(i + 1).drop_last() =~= store@.take(i as int));
            assert(store::views(all@)[i as int] == all@[i as int]@);
        }
        if all[i].filed_by(account_id) {
            out.push(all[i].clone());
            assert(store::views(out@) =~= store::views(before).push(store@[i as int]));
        }
        i = i + 1;
    }
    assert(store@.take(i as int) =~= store@);
    out
}

/// The list of requests, according to who is asking.
pub fn api_requests(
    store: &Store,
    public: Option<&PublicConfig>,
    caller: &Option<Caller>,
    locale: Locale,
) -> (r: Res)
    ensures
        r@ == requests_answer(store@, public, caller::caller_view(*caller), locale),
{
    match caller {
        Some(Caller::Admin { .. }) => Res::data(
            Payload::Reviewed { requests: store.all(), artifacts: true },
        ),
        Some(Caller::Owner { repos, .. }) => Res::data(
            Payload::Reviewed { requests: all_about(store, repos), artifacts: false },
        ),
        Some(Caller::Account { id }) => Res::data(
            Payload::Filings {
                requests: all_filed_by(store, id.as_str()),
                show_spec: show_spec(public),
                locale,
            },
        ),
        Some(Caller::Daemon { .. }) | None => Res::json(200, "[]"),
    }
}

/// A request whose record could not be read.
pub struct Unreadable {
    pub id: String,
    /// What reading it said.
    pub why: String,
}

/// Why the record of a request could not be read, where it could not.
pub open spec fn why_lost(lost: Seq<Unreadable>, id: Seq<char>) -> Option<Seq<char>>
    decreases lost.len(),
{
    if lost.len() == 0 {
        None
    } else if lost[0].id@ == id {
        Some(lost[0].why@)
    } else {
        why_lost(lost.skip(1), id)
    }
}

/// Why the record of a request could not be read, where it could not.
pub fn why_unreadable<'a>(lost: &'a Vec<Unreadable>, id: &str) -> (r: Option<&'a str>)
    ensures
        said(r) == why_lost(lost@, id@),
{
    let mut i: usize = 0;
    assert(lost@.skip(0) =~= lost@);
    while i < lost.len()
        invariant
            i <= lost.len(),
            why_lost(lost@, id@) == why_lost(lost@.skip(i as int), id@),
        decreases lost.len() - i,
    {
        if same(lost[i].id.as_str(), id) {
            return Some(lost[i].why.as_str());
        }
        assert(lost@.skip(i as int).skip(1) =~= lost@.skip(i + 1));
        i = i + 1;
    }
    None
}

/// A reason, as text.
pub open spec fn said(why: Option<&str>) -> Option<Seq<char>> {
    match why {
        Some(w) => Some(w@),
        None => None,
    }
}

/// One request, according to who is asking. What is not theirs and what does not
/// exist are one answer; a record that could not be read is a failure of ours.
pub open spec fn request_answer(
    s: Seq<RequestView>,
    unreadable: Option<Seq<char>>,
    public: Option<&PublicConfig>,
    caller: Option<CallerView>,
    locale: Locale,
    id: Seq<char>,
) -> ResView {
    let nothing = http::error_res(404, "no such request"@);
    match (unreadable, store::record(s, id)) {
        (Some(why), _) => http::error_res(500, why),
        (None, None) => nothing,
        (None, Some(q)) => match caller {
            Some(CallerView::Admin { .. }) => http::data_res(
                PayloadView::Review { request: q, artifacts: true, coverage: true },
            ),
            Some(CallerView::Owner { repos, .. }) => if repos.contains(q.repo) {
                http::data_res(
                    PayloadView::Review { request: q, artifacts: false, coverage: true },
                )
            } else {
                nothing
            },
            Some(CallerView::Account { id }) => if q.account_id == Some(id) {
                http::data_res(
                    PayloadView::Filing { request: q, show_spec: spec_shown(public), locale },
                )
            } else {
                nothing
            },
            _ => nothing,
        },
    }
}

/// One request, according to who is asking. `unreadable` says why its record
/// could not be read, where it could not.
pub fn api_request(
    store: &Store,
    unreadable: Option<&str>,
    public: Option<&PublicConfig>,
    caller: &Option<Caller>,
    locale: Locale,
    id: &str,
) -> (r: Res)
    requires
        store.wf(),
    ensures
        r@ == request_answer(
            store@,
            said(unreadable),
            public,
            caller::caller_view(*caller),
            locale,
            id@,
        ),
{
    if let Some(why) = unreadable {
        return error(500, why);
    }
    let found = match store.get(id) {
        Some(q) => q,
        None => {
            return error(404, "no such request");
        },
    };
    match caller {
        Some(Caller::Admin { .. }) => Res::data(
            Payload::Review { request: found, artifacts: true, coverage: true },
        ),
        Some(Caller::Owner { repos, .. }) => {
            if one_of(repos.as_slice(), found.repo.as_str()) {
                Res::data(Payload::Review { request: found, artifacts: false, coverage: true })
            } else {
                error(404, "no such request")
            }
        },
        Some(Caller::Account { id }) => {
            if found.filed_by(id.as_str()) {
                Res::data(
                    Payload::Filing { request: found, show_spec: show_spec(public), locale },
                )
            } else {
                error(404, "no such request")
            }
        },
        _ => error(404, "no such request"),
    }
}

/// A request that somebody may not see is answered as one that does not exist.
pub proof fn law_forbidden_and_absent_are_one_answer(
    s: Seq<RequestView>,
    t: Seq<RequestView>,
    public: Option<&PublicConfig>,
    caller: Option<CallerView>,
    locale: Locale,
    id: Seq<char>,
    missing: Seq<char>,
)
    requires
        store::record(s, id) matches Some(q) && match caller {
            Some(CallerView::Admin { .. }) => false,
            Some(CallerView::Owner { repos, .. }) => !repos.contains(q.repo),
            Some(CallerView::Account { id: account }) => q.account_id != Some(account),
            Some(CallerView::Daemon { .. }) | None => true,
        },
        store::record(t, missing) is None,
    ensures
        request_answer(s, None, public, caller, locale, id) == request_answer(
            t,
            None,
            public,
            caller,
            locale,
            missing,
        ),
{
}

// ---------------------------------------------------------------------------
// Deciding
// ---------------------------------------------------------------------------

/// What may be done to a request.
#[derive(Debug, Clone, Copy, PartialEq, Eq, Structural)]
pub enum Verb {
    Accept,
    SendBack,
    Discard,
    Release,
}

/// The verb an address names.
pub open spec fn verb_named(name: Seq<char>) -> Option<Verb> {
    if name == "send-back"@ {
        Some(Verb::SendBack)
    } else if name == "discard"@ {
        Some(Verb::Discard)
    } else if name == "release"@ {
        Some(Verb::Release)
    } else if name == "accept"@ {
        Some(Verb::Accept)
    } else {
        None
    }
}

/// The verbs are those that are listed, and an owner has every one but approval.
pub proof fn law_the_verbs_are_these(name: Seq<char>)
    ensures
        verb_named(name) is Some <==> exists|i: int|
            0 <= i < 4 && name == (#[trigger] REVIEW_VERBS[i])@,
        (verb_named(name) is Some && verb_named(name) != Some(Verb::Accept)) <==> exists|i: int|
            0 <= i < 3 && name == (#[trigger] OWNER_VERBS[i])@,
{
    assert(REVIEW_VERBS[0]@ == "accept"@);
    assert(REVIEW_VERBS[1]@ == "send-back"@);
    assert(REVIEW_VERBS[2]@ == "discard"@);
    assert(REVIEW_VERBS[3]@ == "release"@);
    assert(OWNER_VERBS[0]@ == "send-back"@);
    assert(OWNER_VERBS[1]@ == "discard"@);
    assert(OWNER_VERBS[2]@ == "release"@);
}

/// The verb an address names.
pub fn verb_of(name: &str) -> (r: Option<Verb>)
    ensures
        r == verb_named(name@),
{
    if same(name, "send-back") {
        Some(Verb::SendBack)
    } else if same(name, "discard") {
        Some(Verb::Discard)
    } else if same(name, "release") {
        Some(Verb::Release)
    } else if same(name, "accept") {
        Some(Verb::Accept)
    } else {
        None
    }
}

/// Does this put a request back in the queue, for another drafting run?
pub open spec fn buys_a_run(v: Option<Verb>) -> bool {
    v == Some(Verb::SendBack) || v == Some(Verb::Release)
}

/// How many runs a repository has had in the window, where that is all it may
/// have.
pub open spec fn over_budget(
    s: Seq<RequestView>,
    public: Option<&PublicConfig>,
    repo: Seq<char>,
    now_ms: u64,
) -> Option<nat> {
    match public {
        None => None,
        Some(p) => {
            let n = store::in_word(store::runs_for(s, repo, filing::window_start(now_ms)));
            if n >= p.max_daily_drafts {
                Some(n)
            } else {
                None
            }
        },
    }
}

/// What is said of a repository that has had its runs.
pub open spec fn budget_res(repo: Seq<char>, n: nat) -> ResView {
    http::error_res(
        429,
        repo + " has been drafted "@ + text::decimal(n)
            + " times today, which is the limit. Every send-back and release buys another full drafting run on the developer's machine, so the cap is what stops one repository spending a day's budget on one request."@,
    )
}

/// Refuse what would buy another run where the repository has had its day.
///
/// Bounded for each repository rather than for each person: two owners of one
/// share what it may cost.
pub fn drafting_budget(
    store: &Store,
    public: Option<&PublicConfig>,
    repo: &str,
    now_ms: u64,
) -> (r: Result<(), Res>)
    ensures
        match r {
            Ok(_) => over_budget(store@, public, repo@, now_ms) is None,
            Err(e) => over_budget(store@, public, repo@, now_ms) matches Some(n) && e@
                == budget_res(repo@, n),
        },
{
    let p = match public {
        Some(p) => p,
        None => {
            return Ok(());
        },
    };
    let since = now_ms.saturating_sub(FILING_WINDOW_MS);
    let n: usize = store.drafts_since(repo, since);
    if n >= p.max_daily_drafts {
        let said = repo.to_owned().concat(" has been drafted ").concat(
            number(n as u64).as_str(),
        ).concat(
            " times today, which is the limit. Every send-back and release buys another full drafting run on the developer's machine, so the cap is what stops one repository spending a day's budget on one request.",
        );
        Err(error(429, said.as_str()))
    } else {
        Ok(())
    }
}

/// The refusal of a run that a verb would buy for a request, if it is refused. A
/// request that is not there is not charged.
pub open spec fn charge_refusal(
    s: Seq<RequestView>,
    public: Option<&PublicConfig>,
    id: Seq<char>,
    verb: Option<Verb>,
    now_ms: u64,
) -> Option<ResView> {
    if !buys_a_run(verb) {
        None
    } else {
        match store::record(s, id) {
            None => None,
            Some(q) => match over_budget(s, public, q.repo, now_ms) {
                Some(n) => Some(budget_res(q.repo, n)),
                None => None,
            },
        }
    }
}

/// Charge what puts a request back in the queue against its repository.
pub fn charge_a_draft(
    store: &Store,
    public: Option<&PublicConfig>,
    id: &str,
    verb: Option<Verb>,
    now_ms: u64,
) -> (r: Result<(), Res>)
    requires
        store.wf(),
    ensures
        match r {
            Ok(_) => charge_refusal(store@, public, id@, verb, now_ms) is None,
            Err(e) => charge_refusal(store@, public, id@, verb, now_ms) == Some(e@),
        },
{
    match verb {
        Some(Verb::SendBack) | Some(Verb::Release) => {},
        _ => {
            return Ok(());
        },
    }
    match store.get(id) {
        Some(q) => drafting_budget(store, public, q.repo.as_str(), now_ms),
        None => Ok(()),
    }
}

/// Why a verb does nothing to a request, if it does nothing.
pub open spec fn verb_refusal(
    s: Seq<RequestView>,
    id: Seq<char>,
    verb: Verb,
    note: Seq<char>,
    digest: Seq<char>,
) -> Option<Refusal> {
    match verb {
        Verb::Accept => store::accept_refusal(s, id, digest),
        Verb::SendBack => store::send_back_refusal(s, id, note),
        Verb::Discard => store::discard_refusal(s, id),
        Verb::Release => store::release_refusal(s, id),
    }
}

/// What a verb makes of a request.
pub open spec fn verb_becomes(q: RequestView, verb: Verb, note: Seq<char>) -> RequestView {
    match verb {
        Verb::Accept => store::moved(q, RequestState::Accepted),
        Verb::SendBack => store::sent_back(q, note),
        Verb::Discard => store::moved(q, RequestState::Discarded),
        Verb::Release => store::moved(q, RequestState::Queued),
    }
}

/// The records after a verb.
pub open spec fn after_verb(
    s: Seq<RequestView>,
    id: Seq<char>,
    verb: Verb,
    note: Seq<char>,
    digest: Seq<char>,
) -> Seq<RequestView> {
    match verb_refusal(s, id, verb, note, digest) {
        Some(_) => s,
        None => {
            let i = store::position(s, id).unwrap();
            s.update(i, store::cleaned(verb_becomes(s[i], verb, note)))
        },
    }
}

fn act(store: &mut Store, id: &str, verb: Verb, note: &str, digest: &str) -> (r: Result<
    Request,
    StoreError,
>)
    requires
        old(store).wf(),
    ensures
        final(store).wf(),
        final(store).home() == old(store).home(),
        final(store)@ == after_verb(old(store)@, id@, verb, note@, digest@),
        match r {
            Ok(_) => verb_refusal(old(store)@, id@, verb, note@, digest@) is None,
            Err(e) => verb_refusal(old(store)@, id@, verb, note@, digest@) == Some(e@),
        },
{
    match verb {
        Verb::Accept => store.accept(id, digest),
        Verb::SendBack => store.send_back(id, note),
        Verb::Discard => store.discard(id),
        Verb::Release => store.release(id),
    }
}

/// A verb done, and what is answered: the request as it stands, or why nothing
/// was done.
pub open spec fn settled(
    s: Seq<RequestView>,
    public: Option<&PublicConfig>,
    caller: Option<CallerView>,
    locale: Locale,
    id: Seq<char>,
    verb: Verb,
    note: Seq<char>,
    digest: Seq<char>,
) -> (ResView, Seq<RequestView>) {
    match verb_refusal(s, id, verb, note, digest) {
        Some(e) => (http::error_res(400, store::refusal_text(e)), s),
        None => {
            let t = after_verb(s, id, verb, note, digest);
            (request_answer(t, None, public, caller, locale, id), t)
        },
    }
}

fn settle(
    store: &mut Store,
    public: Option<&PublicConfig>,
    caller: &Option<Caller>,
    locale: Locale,
    id: &str,
    verb: Verb,
    note: &str,
    digest: &str,
) -> (r: Res)
    requires
        old(store).wf(),
    ensures
        final(store).wf(),
        final(store).home() == old(store).home(),
        (r@, final(store)@) == settled(
            old(store)@,
            public,
            caller::caller_view(*caller),
            locale,
            id@,
            verb,
            note@,
            digest@,
        ),
{
    match act(store, id, verb, note, digest) {
        Ok(_) => api_request(store, None, public, caller, locale, id),
        Err(e) => error(400, e.message().as_str()),
    }
}

/// What asking for a verb does, and what is answered.
///
/// Whoever claimed the server has every verb, an owner every one but approval
/// and only on their repositories, and nobody else has any. Nothing is done to a
/// record that could not be read, and it is not charged.
pub open spec fn verb_answer(
    s: Seq<RequestView>,
    unreadable: Option<Seq<char>>,
    public: Option<&PublicConfig>,
    caller: Option<CallerView>,
    locale: Locale,
    id: Seq<char>,
    name: Seq<char>,
    sent: json::Sent,
    now_ms: u64,
) -> (ResView, Seq<RequestView>) {
    match sent {
        Err(e) => (http::error_res(400, "that body is not JSON: "@ + e), s),
        Ok(fields) => {
            let note = json::text_or_empty(fields, "note"@);
            let digest = json::text_or_empty(fields, "digest"@);
            let verb = verb_named(name);
            let charge = match unreadable {
                Some(_) => None,
                None => charge_refusal(s, public, id, verb, now_ms),
            };
            match caller {
                Some(CallerView::Admin { .. }) => match charge {
                    Some(res) => (res, s),
                    None => match verb {
                        None => (http::error_res(404, "no such verb"@), s),
                        Some(v) => if v == Verb::Accept && digest.len() == 0 {
                            (
                                http::error_res(
                                    400,
                                    "accepting needs the digest of the spec you read"@,
                                ),
                                s,
                            )
                        } else {
                            match unreadable {
                                Some(why) => (http::error_res(400, why), s),
                                None => settled(s, public, caller, locale, id, v, note, digest),
                            }
                        },
                    },
                },
                Some(CallerView::Owner { repos, .. }) => if unreadable is Some {
                    (http::error_res(500, unreadable.unwrap()), s)
                } else if store::record(s, id) is Some && repos.contains(
                    store::record(s, id).unwrap().repo,
                ) {
                    match charge {
                        Some(res) => (res, s),
                        None => match verb {
                            None => (http::error_res(404, "no such verb"@), s),
                            Some(v) => if v == Verb::Accept {
                                (http::error_res(404, "no such verb"@), s)
                            } else {
                                settled(s, public, caller, locale, id, v, note, digest)
                            },
                        },
                    }
                } else {
                    (http::error_res(404, "no such request"@), s)
                },
                _ => (http::error_res(404, "no such request"@), s),
            }
        },
    }
}

/// Act on a request: approve it, send it back, discard it or release it.
/// `unreadable` says why its record could not be read, where it could not.
pub fn api_verb(
    store: &mut Store,
    unreadable: Option<&str>,
    public: Option<&PublicConfig>,
    caller: &Option<Caller>,
    locale: Locale,
    id: &str,
    name: &str,
    sent: Result<Body, String>,
    now_ms: u64,
) -> (r: Res)
    requires
        old(store).wf(),
    ensures
        final(store).wf(),
        final(store).home() == old(store).home(),
        (r@, final(store)@) == verb_answer(
            old(store)@,
            said(unreadable),
            public,
            caller::caller_view(*caller),
            locale,
            id@,
            name@,
            json::sent_view(sent),
            now_ms,
        ),
{
    let fields = match sent {
        Ok(b) => b,
        Err(e) => {
            return error(400, "that body is not JSON: ".to_owned().concat(e.as_str()).as_str());
        },
    };
    let note = fields.text_or_empty("note");
    let digest = fields.text_or_empty("digest");
    let verb = verb_of(name);
    match caller {
        Some(Caller::Admin { .. }) => {
            // The cap states what one repository may cost in a day, whoever asks.
            if unreadable.is_none() {
                if let Err(res) = charge_a_draft(store, public, id, verb, now_ms) {
                    return res;
                }
            }
            let v = match verb {
                Some(v) => v,
                None => {
                    return error(404, "no such verb");
                },
            };
            // Approving means approving these bytes.
            if v == Verb::Accept && digest.is_empty() {
                return error(400, "accepting needs the digest of the spec you read");
            }
            if let Some(why) = unreadable {
                return error(400, why);
            }
            settle(store, public, caller, locale, id, v, note, digest)
        },
        Some(Caller::Owner { repos, .. }) => {
            if let Some(why) = unreadable {
                return error(500, why);
            }
            match store.get(id) {
                Some(q) => {
                    if !one_of(repos.as_slice(), q.repo.as_str()) {
                        return error(404, "no such request");
                    }
                },
                None => {
                    return error(404, "no such request");
                },
            }
            if let Err(res) = charge_a_draft(store, public, id, verb, now_ms) {
                return res;
            }
            let v = match verb {
                Some(v) => v,
                None => {
                    return error(404, "no such verb");
                },
            };
            if v == Verb::Accept {
                return error(404, "no such verb");
            }
            settle(store, public, caller, locale, id, v, note, digest)
        },
        _ => error(404, "no such request"),
    }
}

/// No owner approves anything: whatever they send, no record becomes accepted
/// that was not.
pub proof fn law_no_owner_accepts(
    s: Seq<RequestView>,
    unreadable: Option<Seq<char>>,
    public: Option<&PublicConfig>,
    login: Seq<char>,
    repos: Seq<Seq<char>>,
    locale: Locale,
    id: Seq<char>,
    name: Seq<char>,
    sent: json::Sent,
    now_ms: u64,
    i: int,
)
    requires
        0 <= i < s.len(),
        s[i].state != RequestState::Accepted,
    ensures
        ({
            let t = verb_answer(
                s,
                unreadable,
                public,
                Some(CallerView::Owner { login, repos }),
                locale,
                id,
                name,
                sent,
                now_ms,
            ).1;
            t.len() == s.len() && t[i].state != RequestState::Accepted
        }),
{
}

/// Nobody but an owner of its repository or whoever claimed the server changes
/// a request by a verb.
pub proof fn law_only_a_reviewer_decides(
    s: Seq<RequestView>,
    unreadable: Option<Seq<char>>,
    public: Option<&PublicConfig>,
    caller: Option<CallerView>,
    locale: Locale,
    id: Seq<char>,
    name: Seq<char>,
    sent: json::Sent,
    now_ms: u64,
)
    requires
        !(caller matches Some(CallerView::Admin { .. })),
        caller matches Some(CallerView::Owner { repos, .. }) ==> (store::record(
            s,
            id,
        ) matches Some(q) ==> !repos.contains(q.repo)),
    ensures
        ({
            let (res, after) = verb_answer(
                s,
                unreadable,
                public,
                caller,
                locale,
                id,
                name,
                sent,
                now_ms,
            );
            &&& after == s
            &&& res.status == 404 || res.status == 400 || (res.status == 500 && unreadable is Some)
        }),
{
}

/// A verb touches the request it names and no other.
pub proof fn law_a_verb_touches_one_request(
    s: Seq<RequestView>,
    unreadable: Option<Seq<char>>,
    public: Option<&PublicConfig>,
    caller: Option<CallerView>,
    locale: Locale,
    id: Seq<char>,
    name: Seq<char>,
    sent: json::Sent,
    now_ms: u64,
    i: int,
)
    requires
        0 <= i < s.len(),
        s[i].id != id,
    ensures
        verb_answer(s, unreadable, public, caller, locale, id, name, sent, now_ms).1.len() == s.len(),
        verb_answer(s, unreadable, public, caller, locale, id, name, sent, now_ms).1[i] == s[i],
{
}

/// A repository that has had its runs for the day gets no further one by a verb,
/// whoever asks: nothing changes.
pub proof fn law_the_drafting_budget_binds_everybody(
    s: Seq<RequestView>,
    unreadable: Option<Seq<char>>,
    p: &PublicConfig,
    caller: Option<CallerView>,
    locale: Locale,
    id: Seq<char>,
    name: Seq<char>,
    sent: json::Sent,
    now_ms: u64,
)
    requires
        buys_a_run(verb_named(name)),
        store::record(s, id) matches Some(q) && over_budget(s, Some(p), q.repo, now_ms) is Some,
    ensures
        verb_answer(s, unreadable, Some(p), caller, locale, id, name, sent, now_ms).1 == s,
{
}

/// A record that could not be read is left as it is, whoever asks for what, and
/// nobody is told that it is gone.
pub proof fn law_an_unreadable_record_is_left_alone(
    s: Seq<RequestView>,
    why: Seq<char>,
    public: Option<&PublicConfig>,
    caller: Option<CallerView>,
    locale: Locale,
    id: Seq<char>,
    name: Seq<char>,
    sent: json::Sent,
    now_ms: u64,
)
    ensures
        request_answer(s, Some(why), public, caller, locale, id) == http::error_res(500, why),
        verb_answer(s, Some(why), public, caller, locale, id, name, sent, now_ms).1 == s,
        verb_answer(s, Some(why), public, caller, locale, id, name, sent, now_ms).0.status != 200,
{
}

} // verus!
