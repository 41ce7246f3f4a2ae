//! The operations themselves: what a call is given, and what it leaves behind.

use vstd::prelude::*;
use vstd::string::*;

use crate::caller;
use crate::caller::{Bucket, BucketView, Caller, CallerView, Credentials, OwnerRecord, SessionAccount};
use crate::config::PublicConfig;
use crate::guarantees::{access, addresses, counting, drafting, filing, listing, screening, storing};
use crate::i18n::{Locale, Strings};
use crate::json;
use crate::request::{DraftView, IntakeKind, Request, RequestState, RequestView};
use crate::routes::admin;
use crate::routes::admin::{ChangeAction, ChangeFacts};
use crate::routes::cookies;
use crate::routes::daemon;
use crate::routes::daemon::{Received, Report};
use crate::routes::dispatch;
use crate::routes::dispatch::Ctx;
use crate::routes::filing as filings;
use crate::routes::filing::FilingRefused;
use crate::routes::http;
use crate::routes::http::{PayloadView, Policy, Req, Res, WorkItem};
use crate::routes::listing as lists;
use crate::routes::review as reviews;
use crate::routes::setup;
use crate::routes::setup::{ClaimAction, ClaimFacts, ClaimState, CodeAction, CodeFacts};
use crate::routes::signin;
use crate::routes::signin::{
    LinkAction,
    LinkFacts,
    PasswordAction,
    PasswordFacts,
    SignOutAction,
    SignOutFacts,
    SpendAction,
    SpendFacts,
};
use crate::routes::step::{Next, NextView};
use crate::routes::words;
use crate::screen;
use crate::seal::SealKey;
use crate::serve;
use crate::serve::{ArmFacts, ArmStep, SeedFacts, SeedStep, StartFacts, StartStep};
use crate::settings::{FileRead, Settings, SettingsCache};
use crate::store;
use crate::store::Store;
use crate::text;

verus! {

// ---------------------------------------------------------------------------
// Drafting
// ---------------------------------------------------------------------------

/// A work item is the request it was made of: its id, its text to the last
/// character, its repository, its kind, and what was said when it was sent back.
pub proof fn law_a_work_item_is_its_request(q: Request, r: WorkItem)
    requires
        call_ensures(daemon::work_item, (&q,), r),
    ensures
        r.id@ == q.id@,
        r.text@ == q.text@,
        r.repo@ == q.repo@,
        r.kind == q.kind,
        q.send_back_note is None <==> r.send_back_note is None,
        q.send_back_note matches Some(n) ==> (r.send_back_note matches Some(m) && m@ == n@),
{
    assert(r@ == daemon::work_of(q@));
    assert(r@.text == q@.text);
}

/// A poll hands out the oldest request there is to draft, as it stands, and claims
/// it for whoever asked.
pub proof fn law_a_poll_claims_what_it_hands_out(
    kept: &mut Store,
    declared: &Vec<String>,
    by: &str,
    now_ms: u64,
    r: Res,
    i: int,
)
    requires
        old(kept).wf(),
        call_ensures(daemon::poll, (kept, declared, by, now_ms), r),
        drafting::there_to_draft(old(kept)@, text::texts(declared@), now_ms, i),
        forall|j: int|
            0 <= j < i ==> !drafting::there_to_draft(old(kept)@, text::texts(declared@), now_ms, j),
    ensures
        r@.status == 200,
        r@.payload matches Some(PayloadView::Work { item }) && item.id == old(kept)@[i].id
            && item.text == old(kept)@[i].text && item.repo == old(kept)@[i].repo && item.kind
            == old(kept)@[i].kind && item.send_back_note == old(kept)@[i].send_back_note,
        final(kept)@[i].state == RequestState::Claimed,
        final(kept)@[i].claimed_by == Some(by@),
        final(kept)@[i].claimed_ms == Some(now_ms),
        final(kept)@[i].id == old(kept)@[i].id,
        final(kept)@[i].text == old(kept)@[i].text,
        final(kept)@[i].repo == old(kept)@[i].repo,
        final(kept)@[i].kind == old(kept)@[i].kind,
{
    drafting::law_a_poll_hands_out_the_oldest_request_as_it_stands(
        old(kept)@,
        text::texts(declared@),
        by@,
        now_ms,
        i,
    );
}

/// A report is taken as it was sent: a draft awaits review with the very text, the
/// digest and the directory in it; a failure says why; what was handed back is
/// queued. No other record changes.
pub proof fn law_a_report_is_stored_as_it_was_sent(
    kept: &mut Store,
    id: &str,
    by: &str,
    report: Report,
    now_ms: u64,
    r: Res,
    i: int,
    j: int,
)
    requires
        old(kept).wf(),
        call_ensures(
            daemon::take_report,
            (kept, None, id, by, Received::Read(report), now_ms),
            r,
        ),
        0 <= i < old(kept)@.len(),
        old(kept)@[i].id == id@,
        drafting::holds_the_claim(old(kept)@[i], by@),
        0 <= j < old(kept)@.len(),
        j != i,
    ensures
        r@.status == 200,
        final(kept)@.len() == old(kept)@.len(),
        final(kept)@[j] == old(kept)@[j],
        final(kept)@[i].id == id@,
        final(kept)@[i].text == old(kept)@[i].text,
        final(kept)@[i].repo == old(kept)@[i].repo,
        final(kept)@[i].kind == old(kept)@[i].kind,
        final(kept)@[i].claimed_by is None,
        match report {
            Report::Drafted { spec, digest, artifact_dir } => {
                &&& final(kept)@[i].state == RequestState::AwaitingReview
                &&& final(kept)@[i].spec == Some(DraftView { text: spec@, digest: digest@ })
                &&& final(kept)@[i].artifact_dir == Some(artifact_dir@)
                &&& final(kept)@[i].drafted_ms == Some(now_ms)
            },
            Report::Failed { reason } => {
                &&& final(kept)@[i].state == RequestState::Failed
                &&& final(kept)@[i].note == Some(reason@)
            },
            Report::Released { reason } => {
                &&& final(kept)@[i].state == RequestState::Queued
                &&& final(kept)@[i].note == Some(by@ + " handed this back: "@ + reason@)
            },
        },
{
    drafting::law_a_report_is_taken_as_it_was_sent(old(kept)@, i, by@, report, now_ms, j);
}

/// A drafting budget is spent exactly where the runs of the repository, dated
/// within the twenty-four hours up to now, are as many as it may have.
pub proof fn law_a_budget_is_a_days_runs(
    kept: Store,
    p: &PublicConfig,
    repo: &str,
    now_ms: u64,
    r: Result<(), Res>,
)
    requires
        call_ensures(reviews::drafting_budget, (&kept, Some(p), repo, now_ms), r),
    ensures
        r is Err <==> Set::new(
            |k: (int, int)|
                0 <= k.0 < kept@.len() && kept@[k.0].repo == repo@ && 0 <= k.1
                    < kept@[k.0].drafts.len() && kept@[k.0].drafts[k.1] + 86_400_000 >= now_ms,
        ).len() >= p.max_daily_drafts,
        r matches Err(e) ==> e@.status == 429,
{
    let runs = Set::new(
        |k: (int, int)|
            0 <= k.0 < kept@.len() && kept@[k.0].repo == repo@ && 0 <= k.1 < kept@[k.0].drafts.len()
                && kept@[k.0].drafts[k.1] + 86_400_000 >= now_ms,
    );
    let since = filings::window_start(now_ms);
    counting::lemma_runs(kept@, repo@, since);
    assert(runs =~= counting::runs_since(kept@, repo@, since as int));
}

/// Without a surface there is no ceiling on drafting.
pub proof fn law_no_surface_bounds_no_drafting(
    kept: Store,
    repo: &str,
    now_ms: u64,
    r: Result<(), Res>,
)
    requires
        call_ensures(reviews::drafting_budget, (&kept, None, repo, now_ms), r),
    ensures
        r is Ok,
{
}

// ---------------------------------------------------------------------------
// Who is asking
// ---------------------------------------------------------------------------

/// Somebody whom the roster names is given every repository that it names for
/// them and that is served, and no other.
pub proof fn law_an_owner_is_told_all_they_own(
    c: Credentials,
    account: SessionAccount,
    login: String,
    o: OwnerRecord,
    p: &PublicConfig,
    r: Option<Caller>,
    repo: Seq<char>,
)
    requires
        call_ensures(caller::identify, (&c, Some(p)), r),
        access::no_machine(c),
        c.session == Some(account),
        account.login == Some(login),
        c.is_admin == Some(false),
        c.owner == Some(Some(o)),
    ensures
        match r {
            Some(Caller::Owner { login: shown, repos }) => {
                &&& shown@ == o.login@
                &&& access::named_in(repos@, repo) <==> access::named_in(o.repos@, repo)
                    && access::named_in(p.repos.names@, repo)
            },
            Some(Caller::Account { id }) => {
                &&& id@ == account.id@
                &&& !(access::named_in(o.repos@, repo) && access::named_in(p.repos.names@, repo))
            },
            _ => false,
        },
{
    access::law_an_owner_is_given_all_of_theirs_that_is_served(c, account, login, o, p, repo);
    if let Some(Caller::Owner { repos, .. }) = r {
        let all = text::texts(repos@);
        if all.contains(repo) {
            let k = choose|k: int| 0 <= k < all.len() && all[k] == repo;
            assert(repos@[k]@ == repo);
        }
        if access::named_in(repos@, repo) {
            let k = choose|k: int| 0 <= k < repos@.len() && (#[trigger] repos@[k])@ == repo;
            assert(all[k] == repo);
            assert(all.contains(repo));
        }
    }
}

/// Whoever presents a machine's key is that machine, and nobody is anybody who
/// presents nothing.
pub proof fn law_a_key_and_no_key(
    c: Credentials,
    public: Option<&PublicConfig>,
    hash: String,
    k: int,
    r: Option<Caller>,
)
    requires
        call_ensures(caller::identify, (&c, public), r),
    ensures
        c.bearer_hash == Some(hash) && 0 <= k < c.daemon_keys@.len() && c.daemon_keys@[k].key_hash@
            == hash@ && (forall|j: int|
            0 <= j < k ==> (#[trigger] c.daemon_keys@[j]).key_hash@ != hash@) ==> (
        r matches Some(Caller::Daemon { label }) && label@ == c.daemon_keys@[k].label@),
        access::no_machine(c) && c.session is None ==> r is None,
{
    if c.bearer_hash == Some(hash) && 0 <= k < c.daemon_keys@.len() && c.daemon_keys@[k].key_hash@
        == hash@ && (forall|j: int|
        0 <= j < k ==> (#[trigger] c.daemon_keys@[j]).key_hash@ != hash@) {
        access::law_a_key_names_its_machine(c, public, hash, k);
    }
    if access::no_machine(c) && c.session is None {
        access::law_no_credential_is_nobody(c, public);
    }
}

/// A request is counted as whoever sent it, under the digest of who they are; one
/// that is looked at again is not counted.
pub proof fn law_a_request_is_counted_as_its_sender(
    ctx: Ctx,
    digest: &str,
    req: Req,
    sender: Option<String>,
    r: Option<Bucket>,
)
    requires
        call_ensures(dispatch::counted, (&ctx,), sender),
        call_ensures(dispatch::budget, (&ctx, digest, &req), r),
    ensures
        dispatch::who(ctx) is None <==> sender is None,
        dispatch::who(ctx) matches Some(CallerView::Daemon { label }) ==> (sender matches Some(s)
            && s@ == label),
        dispatch::who(ctx) matches Some(CallerView::Admin { login }) ==> (sender matches Some(s)
            && s@ == login),
        dispatch::who(ctx) matches Some(CallerView::Owner { login, .. }) ==> (sender matches Some(s)
            && s@ == login),
        dispatch::who(ctx) matches Some(CallerView::Account { id }) ==> (sender matches Some(s) && s@
            == id),
        r is None <==> ctx.rechecking,
        r matches Some(b) ==> (dispatch::who(ctx) is Some ==> b@ == BucketView::Credential(digest@)),
{
}

// ---------------------------------------------------------------------------
// Filing
// ---------------------------------------------------------------------------

/// What is filed is stored as it was given: its words without the space around
/// them, its repository, its kind, its account and its moment; no other record
/// changes.
pub proof fn law_a_filing_is_stored_as_it_was_given(
    kept: &mut Store,
    p: &PublicConfig,
    account: &str,
    named: Option<&str>,
    words: &str,
    kind: IntakeKind,
    now_ms: u64,
    id: &str,
    q: Request,
    repo: Seq<char>,
    other: Seq<char>,
)
    requires
        old(kept).wf(),
        call_ensures(
            filings::file_now,
            (kept, Some(p), account, named, words, kind, now_ms, id),
            Ok(q),
        ),
        filing::lands_in(p.repos.names@, text::opt_str(named), repo),
        other != id@,
    ensures
        q@.id == id@,
        q@.text == text::trimmed(words@),
        q@.repo == repo,
        q@.kind == kind,
        q@.account_id == Some(account@),
        q@.filed_ms == now_ms,
        q@.state == (if p.screen {
            RequestState::Screening
        } else {
            RequestState::Queued
        }),
        q@.spec is None,
        store::record(final(kept)@, id@) == Some(q@),
        store::record(final(kept)@, other) == store::record(old(kept)@, other),
{
    filing::lemma_lands(p.repos.names@, text::opt_str(named));
    assert(store::cleaned(q@) =~= q@);
    store::lemma_with_record_kept(old(kept)@, q@);
}

/// A filing that is refused changes nothing, and is refused where it has no words,
/// or too many, or no place, or comes after all that its account may file in the
/// twenty-four hours up to now; and nowhere else.
pub proof fn law_a_filing_is_refused_by_the_rules(
    kept: &mut Store,
    p: &PublicConfig,
    account: &str,
    named: Option<&str>,
    words: &str,
    kind: IntakeKind,
    now_ms: u64,
    id: &str,
    r: Result<Request, FilingRefused>,
)
    requires
        old(kept).wf(),
        call_ensures(
            filings::file_now,
            (kept, Some(p), account, named, words, kind, now_ms, id),
            r,
        ),
    ensures
        r is Err ==> final(kept)@ == old(kept)@,
        r is Ok <==> (exists|repo: Seq<char>|
            filing::lands_in(p.repos.names@, text::opt_str(named), repo)) && text::trimmed(
            words@,
        ).len() > 0 && filing::short_enough(text::trimmed(words@)) && filing::filings_of_a_day(
            old(kept)@,
            account@,
            now_ms,
        ).len() < p.max_daily_filings,
{
    filing::lemma_lands(p.repos.names@, text::opt_str(named));
    filing::lemma_filings(old(kept)@, account@, now_ms);
    if let Some(repo) = filings::chosen_repo(p.repos@, text::opt_str(named)) {
        assert(filing::lands_in(p.repos.names@, text::opt_str(named), repo));
    }
}

// ---------------------------------------------------------------------------
// The store
// ---------------------------------------------------------------------------

/// What is written is found under its id, without the marks of a claim it does not
/// have, and everything else is found as before.
pub proof fn law_what_is_put_is_kept(kept: &mut Store, q: Request, other: Seq<char>)
    requires
        old(kept).wf(),
        call_ensures(Store::put, (kept, &q), ()),
        other != q@.id,
    ensures
        store::record(final(kept)@, q@.id) matches Some(found) && found.text == q@.text
            && found.repo == q@.repo && found.kind == q@.kind && found.state == q@.state
            && found.filed_ms == q@.filed_ms && found.account_id == q@.account_id && found.spec
            == q@.spec && found.drafts == q@.drafts && found.note == q@.note && (q@.state
            == RequestState::Claimed ==> found == q@) && (q@.state != RequestState::Claimed
            ==> found.claimed_by is None && found.claimed_ms is None),
        store::record(final(kept)@, other) == store::record(old(kept)@, other),
{
    store::lemma_with_record_kept(old(kept)@, store::cleaned(q@));
}

/// Looking for claims that were left behind says how many there were.
pub proof fn law_reclaiming_says_how_many(kept: &mut Store, now_ms: u64, r: usize, i: int)
    requires
        old(kept).wf(),
        call_ensures(Store::reclaim_stale, (kept, now_ms), r),
        0 <= i < old(kept)@.len(),
    ensures
        r == Set::new(
            |k: int| 0 <= k < old(kept)@.len() && drafting::left_behind(old(kept)@[k], now_ms),
        ).len(),
        final(kept)@.len() == old(kept)@.len(),
        drafting::left_behind(old(kept)@[i], now_ms) ==> final(kept)@[i].state
            == RequestState::Queued && final(kept)@[i].claimed_by is None,
        old(kept)@[i].state != RequestState::Claimed ==> final(kept)@[i] == old(kept)@[i],
{
    let s = old(kept)@;
    let f = |q: RequestView| store::stale(q, now_ms);
    counting::lemma_places(s, f);
    assert(counting::places(s, f) =~= Set::new(
        |k: int| 0 <= k < s.len() && drafting::left_behind(s[k], now_ms),
    ));
    storing::law_what_was_left_behind_is_queued(s, now_ms, i);
}

/// Approving by the digest that was read approves that draft, and nothing else of
/// the store changes; with another digest nothing does.
pub proof fn law_a_draft_is_approved_by_its_digest(
    kept: &mut Store,
    id: &str,
    digest: &str,
    r: Result<Request, store::StoreError>,
    i: int,
)
    requires
        old(kept).wf(),
        call_ensures(Store::accept, (kept, id, digest), r),
        0 <= i < old(kept)@.len(),
        old(kept)@[i].id == id@,
    ensures
        r is Ok <==> old(kept)@[i].state == RequestState::AwaitingReview && (
        old(kept)@[i].spec matches Some(d) && d.digest == digest@),
        r is Err ==> final(kept)@ == old(kept)@,
        r matches Ok(q) ==> q@ == (RequestView { state: RequestState::Accepted, ..old(kept)@[i] })
            && final(kept)@ == old(kept)@.update(i, q@),
{
    store::lemma_position(old(kept)@, id@, i);
    let q = RequestView { state: RequestState::Accepted, ..old(kept)@[i] };
    assert(old(kept)@[i] == store::cleaned(old(kept)@[i]));
    if old(kept)@[i].state == RequestState::AwaitingReview {
        assert(store::cleaned(q) =~= q);
    }
}

/// A verb that somebody may use does to the request what it says: sending back
/// queues it with the note, where one awaits review and something is said.
pub proof fn law_a_draft_is_sent_back_with_its_note(
    kept: &mut Store,
    id: &str,
    note: &str,
    r: Result<Request, store::StoreError>,
    i: int,
)
    requires
        old(kept).wf(),
        call_ensures(Store::send_back, (kept, id, note), r),
        0 <= i < old(kept)@.len(),
        old(kept)@[i].id == id@,
    ensures
        r is Ok <==> old(kept)@[i].state == RequestState::AwaitingReview && text::trimmed(
            note@,
        ).len() > 0,
        r is Err ==> final(kept)@ == old(kept)@,
        r matches Ok(q) ==> q@ == (RequestView {
            state: RequestState::Queued,
            send_back_note: Some(text::trimmed(note@)),
            note: Some("sent back: "@ + text::trimmed(note@)),
            spec: None,
            ..old(kept)@[i]
        }) && final(kept)@ == old(kept)@.update(i, q@),
{
    store::lemma_position(old(kept)@, id@, i);
    assert(old(kept)@[i] == store::cleaned(old(kept)@[i]));
    if let Ok(q) = r {
        assert(store::cleaned(q@) =~= q@);
    }
}

/// Releasing what is held queues it, and discarding drops what is not approved.
pub proof fn law_what_is_held_is_released_and_what_is_not_wanted_dropped(
    kept: &mut Store,
    other: &mut Store,
    id: &str,
    released: Result<Request, store::StoreError>,
    dropped: Result<Request, store::StoreError>,
    i: int,
    k: int,
)
    requires
        old(kept).wf(),
        old(other).wf(),
        call_ensures(Store::release, (kept, id), released),
        call_ensures(Store::discard, (other, id), dropped),
        0 <= i < old(kept)@.len(),
        old(kept)@[i].id == id@,
        0 <= k < old(other)@.len(),
        old(other)@[k].id == id@,
    ensures
        released is Ok <==> old(kept)@[i].state == RequestState::Quarantined,
        released is Err ==> final(kept)@ == old(kept)@,
        released matches Ok(q) ==> final(kept)@ == old(kept)@.update(
            i,
            RequestView { state: RequestState::Queued, ..old(kept)@[i] },
        ),
        dropped is Ok <==> old(other)@[k].state != RequestState::Accepted,
        dropped is Err ==> final(other)@ == old(other)@,
        dropped matches Ok(q) ==> final(other)@ == old(other)@.update(
            k,
            RequestView {
                state: RequestState::Discarded,
                claimed_by: None,
                claimed_ms: None,
                ..old(other)@[k]
            },
        ),
{
    store::lemma_position(old(kept)@, id@, i);
    store::lemma_position(old(other)@, id@, k);
    assert(old(kept)@[i] == store::cleaned(old(kept)@[i]));
}

/// A request is handed out as it is claimed, and what is asked of the server is
/// done as it is sent: what a call leaves is what the request leads to.
pub proof fn law_a_request_leads_where_it_leads(
    ctx: &mut Ctx,
    req: Req,
    clock: u64,
    r: crate::routes::answer::Answer,
)
    requires
        old(ctx).store.wf(),
        call_ensures(dispatch::handle_at, (ctx, &req, clock), r),
    ensures
        ({
            let o = dispatch::outcome_of(*old(ctx), req@, json::json_fields(req@.body), clock);
            &&& r@ == o.answer
            &&& final(ctx).store@ == o.records
            &&& final(ctx).minted == o.minted
            &&& final(ctx).public == old(ctx).public
            &&& final(ctx).credentials == old(ctx).credentials
        }),
{
}

/// A sweep screens with the screener it is given, and settles each of the four
/// that have waited longest by a verdict that the screener may give on its words.
pub proof fn law_a_sweep_screens_and_settles<S: screen::Screener + ?Sized>(
    kept: &mut Store,
    screener: &S,
    i: int,
)
    requires
        old(kept).wf(),
        call_ensures(serve::screen_pending::<S>, (kept, screener), ()),
        0 <= i < old(kept)@.len(),
    ensures
        final(kept)@.len() == old(kept)@.len(),
        !(screening::waits(old(kept)@[i]) && screening::in_front(old(kept)@, i) < 4)
            ==> final(kept)@[i] == old(kept)@[i],
        screening::waits(old(kept)@[i]) && screening::in_front(old(kept)@, i) < 4 ==> {
            ||| crate::screen_eval::may_say(screener, old(kept)@[i].text, screen::Verdict::Admit)
                && final(kept)@[i] == (RequestView { state: RequestState::Queued, ..old(kept)@[i] })
            ||| crate::screen_eval::may_say(
                screener,
                old(kept)@[i].text,
                screen::Verdict::Quarantine,
            ) && final(kept)@[i] == (RequestView {
                state: RequestState::Quarantined,
                note: Some("screened as spam"@),
                ..old(kept)@[i]
            })
        },
{
    let s = old(kept)@;
    let verdicts = choose|verdicts: Seq<screen::Verdict>|
        #[trigger] serve::screened_as(screener, serve::batch(s), verdicts) && final(kept)@
            == serve::after_verdicts(s, serve::batch(s), verdicts);
    screening::law_a_sweep_takes_the_four_oldest(s, i);
    screening::law_a_sweep_settles_each_by_its_own_verdict(s, verdicts, i);
    if screening::waits(s[i]) && screening::in_front(s, i) < 4 {
        let k = screening::in_front(s, i) as int;
        assert(crate::screen_eval::may_say(screener, serve::batch(s)[k].text, verdicts[k]));
    }
}

// ---------------------------------------------------------------------------
// Settings
// ---------------------------------------------------------------------------

/// A look at the settings hands out what the file holds where its time has
/// changed, and what was last read where it has not; after they are forgotten, the
/// next look at a file that is there reads it.
pub proof fn law_a_look_hands_out_the_settings(
    cache: &mut SettingsCache,
    mtime: Option<u128>,
    s: Settings,
    r: Settings,
)
    requires
        call_ensures(SettingsCache::current, (cache, mtime, FileRead::Read(s)), r),
    ensures
        mtime != old(cache).mtime ==> r == s && final(cache).value == s && final(cache).mtime
            == mtime,
        mtime == old(cache).mtime ==> r == old(cache).value && *final(cache) == *old(cache),
{
}

/// Forgetting leaves the settings, and makes the next look read.
pub proof fn law_forgetting_keeps_the_settings(cache: &mut SettingsCache)
    requires
        call_ensures(SettingsCache::invalidate, (cache,), ()),
    ensures
        final(cache).mtime is None,
        final(cache).value == old(cache).value,
{
}

/// The environment is taken once: every value it gives on the first boot, and
/// nothing after.
pub proof fn law_the_environment_is_taken_once(
    s: &mut Settings,
    p: &PublicConfig,
    r: bool,
)
    requires
        call_ensures(serve::seed_settings, (s, Some(p)), r),
    ensures
        r <==> !old(s).seeded,
        old(s).seeded ==> *final(s) == *old(s),
        !old(s).seeded ==> {
            &&& final(s).seeded
            &&& final(s).public
            &&& final(s).show_spec == Some(p.show_spec)
            &&& final(s).max_daily_filings == Some(p.max_daily_filings)
            &&& final(s).max_daily_drafts == Some(p.max_daily_drafts)
            &&& final(s).max_accounts == Some(p.max_accounts)
            &&& final(s).max_outstanding_links == Some(p.max_outstanding_links)
        },
{
}

// ---------------------------------------------------------------------------
// Entry points
// ---------------------------------------------------------------------------

/// What is read off the wire is the method, the address and the body as they came,
/// and each header under its name: here the last of them.
pub proof fn law_a_request_is_read_off_the_wire(
    method: &str,
    path: &str,
    headers: &Vec<(String, String)>,
    body: &str,
    r: Req,
)
    requires
        call_ensures(serve::read, (method, path, headers, body), r),
        headers@.len() == 0 || text::lower(headers@.last().0@) == "origin"@,
    ensures
        headers@.len() == 0 ==> r@ == http::bare(method@, path@, body@),
        headers@.len() > 0 ==> r@.origin == Some(headers@.last().1@),
        headers@.len() == 0 ==> r@.method == method@ && r@.path == path@ && r@.body == body@,
{
    let all = serve::pairs(headers@);
    if headers@.len() > 0 {
        let last = (headers@.last().0@, headers@.last().1@);
        assert(all.last() == last);
        assert(all =~= all.drop_last().push(last));
        crate::guarantees::reading::law_a_header_is_kept_under_its_name(
            http::bare(method@, path@, body@),
            all.drop_last(),
            last.0,
            last.1,
        );
    } else {
        assert(all =~= Seq::<(Seq<char>, Seq<char>)>::empty());
    }
}

/// A response is written with its content type first and the five headers behind
/// it.
pub proof fn law_a_response_is_written_with_its_headers(res: Res, r: Vec<(String, String)>)
    requires
        call_ensures(serve::write_headers, (&res,), r),
    ensures
        r@.len() >= 6,
        r@[0].0@ == "Content-Type"@ && r@[0].1@ == res@.content_type,
        r@[1].0@ == "Referrer-Policy"@ && r@[1].1@ == "no-referrer"@,
        r@[2].0@ == "Cache-Control"@ && r@[2].1@ == "no-store"@,
        r@[3].0@ == "Content-Security-Policy"@ && r@[3].1@ == http::csp_text(res@.policy),
        r@[4].0@ == "X-Content-Type-Options"@ && r@[4].1@ == "nosniff"@,
        r@[5].0@ == "X-Frame-Options"@ && r@[5].1@ == "DENY"@,
        res@.set_cookie matches Some(c) ==> r@.len() >= 7 && r@[6].0@ == "Set-Cookie"@ && r@[6].1@
            == c,
{
    let all = serve::pairs(r@);
    assert(all.len() == r@.len());
    assert(all[0] == (r@[0].0@, r@[0].1@) && all[1] == (r@[1].0@, r@[1].1@));
    assert(all[2] == (r@[2].0@, r@[2].1@) && all[3] == (r@[3].0@, r@[3].1@));
    assert(all[4] == (r@[4].0@, r@[4].1@) && all[5] == (r@[5].0@, r@[5].1@));
    if res@.set_cookie is Some {
        assert(all[6] == (r@[6].0@, r@[6].1@));
    }
}

/// A log never says a token: an address that holds one is logged by its route.
pub proof fn law_a_token_is_never_logged(path: &str, token: Seq<char>, r: &str)
    requires
        call_ensures(serve::route_label, (path,), r),
        text::head(path@, '?') == "/public/signin/"@ + token,
    ensures
        r@ == "/public/signin/:token"@,
{
    addresses::law_a_log_says_the_route(token);
}

/// A list is put in order: nothing is lost, and what needs somebody comes first.
pub proof fn law_a_list_is_put_in_order(all: Vec<Request>, r: Vec<Request>, i: int, j: int)
    requires
        call_ensures(lists::listing_order, (all,), r),
        0 <= i < j < r@.len(),
    ensures
        r@.len() == all@.len(),
        listing::turn(r@[i]@.state) <= listing::turn(r@[j]@.state),
        r@[i]@.state == r@[j]@.state ==> r@[i]@.filed_ms >= r@[j]@.filed_ms,
{
    let after = store::views(r@);
    assert(after[i] == r@[i]@ && after[j] == r@[j]@);
    listing::law_a_list_is_in_order(store::views(all@), after, i, j);
}

/// The summary of a request is its first line.
pub proof fn law_a_summary_is_the_first_line(
    q: Request,
    line: Seq<char>,
    rest: Seq<char>,
    r: &str,
)
    requires
        call_ensures(Request::summary, (&q,), r),
        !line.contains('\n'),
        q.text@ == line || q.text@ == line + seq!['\n'] + rest,
    ensures
        r@ == text::trimmed(line),
{
    listing::law_a_first_line_ends_at_the_break(line, rest);
}

/// The words are handed out with their tag, and a chosen language is remembered
/// with them.
pub proof fn law_chosen_words_are_handed_out(
    public: Option<&PublicConfig>,
    locale: Locale,
    body: &str,
    digest: &str,
    chosen: Res,
    fresh: Res,
)
    requires
        call_ensures(words::api_set_language, (public, locale, body, digest), chosen),
        call_ensures(words::api_ui_strings, (body, digest, None), fresh),
    ensures
        chosen@.status == 200 && chosen@.body == body@,
        chosen@.etag == Some(seq!['"'] + digest@ + seq!['"']),
        chosen@.set_cookie == Some(cookies::language_words(locale, cookies::secured(public))),
        fresh@.status == 200 && fresh@.body == body@ && fresh@.set_cookie is None,
        fresh@.etag == Some(seq!['"'] + digest@ + seq!['"']),
{
    crate::guarantees::languages::law_words_are_sent_once(body@, digest@, None);
}

/// What each step of signing in, signing out and setting up does next is what its
/// facts say.
pub proof fn law_each_step_goes_by_its_facts(
    public: Option<&PublicConfig>,
    locale: Locale,
    s: Strings,
    policy: Policy,
    cookie: Option<&str>,
    seconds: u64,
    link: (LinkFacts, Next<LinkAction>),
    spend: (SpendFacts, Next<SpendAction>),
    password: (PasswordFacts, Next<PasswordAction>),
    out: (SignOutFacts, Next<SignOutAction>),
    code: (CodeFacts, Next<CodeAction>),
    claim: (ClaimFacts, Next<ClaimAction>),
)
    requires
        call_ensures(signin::try_send_link, (&link.0, public), link.1),
        call_ensures(
            signin::complete_sign_in,
            (&spend.0, public, locale, &s, policy),
            spend.1,
        ),
        call_ensures(
            signin::check_password_for_session,
            (&password.0, cookie, public, &s),
            password.1,
        ),
        call_ensures(signin::sign_out_step, (&out.0, public), out.1),
        call_ensures(setup::api_spend_code, (&code.0, public, seconds), code.1),
        call_ensures(setup::api_claim, (&claim.0, public), claim.1),
    ensures
        link.1@ == signin::link_next(link.0, public),
        match (spend.1@, signin::spend_next(spend.0, public, locale, s)) {
            (NextView::Do(a), NextView::Do(b)) => a == b,
            (NextView::Reply(a), NextView::Reply(b)) => a.status == b.status && a.body == b.body
                && a.set_cookie == b.set_cookie && a.asset == b.asset && a.policy == policy,
            _ => false,
        },
        password.1@ == signin::password_next(password.0, text::opt_str(cookie), public, s),
        out.1@ == signin::sign_out_next(out.0, public),
        code.1@ == setup::code_next(code.0, public, seconds),
        claim.1@ == setup::claim_next(claim.0, public),
{
}

/// Where a setup stands, and what minting a key does next, is what the facts say.
pub proof fn law_setting_up_and_minting_go_by_their_facts(
    state: Result<ClaimState, String>,
    public: Option<&PublicConfig>,
    min_password: u64,
    stands: Res,
    label: &str,
    key: &str,
    f: ChangeFacts,
    minted: Next<ChangeAction>,
)
    requires
        call_ensures(setup::api_setup_state, (state, public, min_password), stands),
        call_ensures(admin::api_mint_daemon, (label, key, &f), minted),
    ensures
        stands@ == setup::setup_res(state, public, min_password),
        minted@ == admin::mint_next(label@, key@, f),
        minted@ matches NextView::Reply(res) ==> (res.status == 200 ==> res.body == "{\"key\":"@
            + json::json_string(key@) + ",\"label\":"@ + json::json_string(label@) + "}"@),
{
}

/// Arming, seeding and starting do next what their facts say, and a screener is
/// sent the completion that asks the prompt.
pub proof fn law_starting_goes_by_its_facts(
    arm: (ArmFacts, ArmStep),
    seed: (SeedFacts, SeedStep),
    start: (StartFacts, StartStep),
    key: Option<&SealKey>,
    model: &str,
    words: &str,
    nonce: &str,
    sent: String,
)
    requires
        call_ensures(serve::arm_claim, (&arm.0,), arm.1),
        call_ensures(serve::seed_roster, (&seed.0,), seed.1),
        call_ensures(serve::run, (&start.0, key), start.1),
        call_ensures(screen::completion_request, (model, words, nonce), sent),
    ensures
        arm.1@ == serve::arm_next(arm.0),
        seed.1@ == serve::seed_next(seed.0),
        start.1@ == serve::start_next(start.0, key),
        sent@ == screen::completion_of(
            model@,
            screen::SYSTEM@,
            screen::prompt_of(screen::screened_text(words@, nonce@), nonce@),
        ),
{
}

/// What a client carries is added to its request, and nothing else of it changes.
pub proof fn law_a_credential_is_added(
    req: Req,
    token: &str,
    bearer: Req,
    cookie: Req,
    setting_up: Req,
    lang: Option<&str>,
    accept: Option<&str>,
    spoken: Req,
)
    requires
        call_ensures(Req::with_bearer, (req, token), bearer),
        call_ensures(Req::with_cookie, (req, token), cookie),
        call_ensures(Req::with_setup, (req, token), setting_up),
        call_ensures(Req::with_lang, (req, lang, accept), spoken),
    ensures
        bearer@.bearer == Some(token@) && bearer@.cookie_token == req@.cookie_token
            && bearer@.path == req@.path && bearer@.method == req@.method && bearer@.body
            == req@.body,
        cookie@.cookie_token == Some(token@) && cookie@.bearer == req@.bearer && cookie@.path
            == req@.path && cookie@.cookie_setup == req@.cookie_setup,
        setting_up@.cookie_setup == Some(token@) && setting_up@.cookie_token == req@.cookie_token
            && setting_up@.path == req@.path,
        spoken@.cookie_lang == text::opt_str(lang) && spoken@.accept_language == text::opt_str(
            accept,
        ) && spoken@.path == req@.path,
{
}

} // verus!
