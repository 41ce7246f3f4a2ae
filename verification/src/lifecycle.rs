//! What holds of a request's whole life, whatever order its steps come in.

use vstd::prelude::*;
use vstd::string::*;

use crate::text;
use crate::store;
use crate::request;
use crate::config::FILING_WINDOW_MS;
use crate::request::{DraftView, RequestState, RequestView, Serves};
use crate::store::{CLAIM_TIMEOUT_MS, Refusal};

verus! {

// ---------------------------------------------------------------------------
// Claims
// ---------------------------------------------------------------------------

/// Nothing but `Queued` is ever handed to a daemon: what is unscreened, held,
/// settled or failed cannot be claimed, whatever the daemon serves.
pub proof fn law_only_queued_is_claimed(s: Seq<RequestView>, serves: Serves<'_>, i: int)
    requires
        0 <= i < s.len(),
        s[i].state != RequestState::Queued,
    ensures
        !store::claimable(s, serves, i),
{
}

/// A daemon is only handed work for a repository it serves, and never for one
/// that another claim is open on.
pub proof fn law_claims_are_served_and_free(
    s: Seq<RequestView>,
    serves: Serves<'_>,
    by: Seq<char>,
    now_ms: u64,
    i: int,
)
    requires
        store::next_up(s, serves, i),
    ensures
        request::serves_repo(serves, store::claimed_as(s[i], by, now_ms).repo),
        forall|j: int|
            0 <= j < s.len() && (#[trigger] s[j]).state == RequestState::Claimed ==> s[j].repo
                != s[i].repo,
{
}

/// A daemon that declares an empty set is handed nothing.
pub proof fn law_serving_nothing_claims_nothing(s: Seq<RequestView>, names: &[String], i: int)
    requires
        names@.len() == 0,
    ensures
        !store::claimable(s, Serves::These(names), i),
{
}

/// Is there at most one open claim on every repository?
pub open spec fn one_claim_each(s: Seq<RequestView>) -> bool {
    forall|i: int, j: int|
        0 <= i < j < s.len() && (#[trigger] s[i]).state == RequestState::Claimed && (
        #[trigger] s[j]).state == RequestState::Claimed ==> s[i].repo != s[j].repo
}

/// Claiming never puts two daemons on one repository: where every repository has
/// at most one open claim, it still has after the next.
pub proof fn law_one_claim_per_repository(
    s: Seq<RequestView>,
    serves: Serves<'_>,
    by: Seq<char>,
    now_ms: u64,
    i: int,
)
    requires
        one_claim_each(s),
        store::next_up(store::all_reclaimed(s, now_ms), serves, i),
    ensures
        one_claim_each(store::all_reclaimed(s, now_ms)),
        one_claim_each(
            store::all_reclaimed(s, now_ms).update(
                i,
                store::claimed_as(store::all_reclaimed(s, now_ms)[i], by, now_ms),
            ),
        ),
{
    let t = store::all_reclaimed(s, now_ms);
    assert forall|a: int, b: int|
        0 <= a < b < t.len() && (#[trigger] t[a]).state == RequestState::Claimed && (
        #[trigger] t[b]).state == RequestState::Claimed implies t[a].repo != t[b].repo by {
        assert(s[a].state == RequestState::Claimed && s[b].state == RequestState::Claimed);
    }
    let u = t.update(i, store::claimed_as(t[i], by, now_ms));
    assert forall|a: int, b: int|
        0 <= a < b < u.len() && (#[trigger] u[a]).state == RequestState::Claimed && (
        #[trigger] u[b]).state == RequestState::Claimed implies u[a].repo != u[b].repo by {
        if a == i {
            assert(t[b] == u[b]);
        } else if b == i {
            assert(t[a] == u[a]);
        } else {
            assert(t[a] == u[a] && t[b] == u[b]);
        }
    }
}

/// A claim stands until exactly [`CLAIM_TIMEOUT_MS`] after it was taken, and not
/// a millisecond longer.
pub proof fn law_a_claim_lasts_the_timeout(r: RequestView, by: Seq<char>, taken: u64, now_ms: u64)
    ensures
        ({
            let c = store::claimed_as(r, by, taken);
            &&& now_ms < taken + CLAIM_TIMEOUT_MS ==> store::reclaimed(c, now_ms) == c
            &&& now_ms >= taken + CLAIM_TIMEOUT_MS ==> store::reclaimed(c, now_ms).state
                == RequestState::Queued
        }),
{
}

/// A clock that runs backwards takes no work from anybody.
pub proof fn law_a_backwards_clock_reclaims_nothing(r: RequestView, now_ms: u64)
    requires
        r.claimed_ms matches Some(t) ==> now_ms <= t,
    ensures
        !store::stale(r, now_ms),
        store::reclaimed(r, now_ms).state == r.state,
{
}

/// A claim from before claims were stamped starts its clock when it is first
/// seen, and expires one timeout later.
pub proof fn law_an_unstamped_claim_starts_its_clock(r: RequestView, seen: u64, now_ms: u64)
    requires
        r.state == RequestState::Claimed,
        r.claimed_ms is None,
    ensures
        store::reclaimed(r, seen) == (RequestView { claimed_ms: Some(seen), ..r }),
        store::stale(store::reclaimed(r, seen), now_ms) <==> now_ms - seen >= CLAIM_TIMEOUT_MS,
{
}

/// Looking for stale claims a second time at the same moment finds nothing more.
pub proof fn law_reclaiming_twice_is_reclaiming_once(s: Seq<RequestView>, now_ms: u64)
    ensures
        store::all_reclaimed(store::all_reclaimed(s, now_ms), now_ms) == store::all_reclaimed(s, now_ms),
        forall|i: int|
            0 <= i < s.len() ==> !store::stale(#[trigger] store::all_reclaimed(s, now_ms)[i], now_ms),
{
    assert(store::all_reclaimed(store::all_reclaimed(s, now_ms), now_ms) =~= store::all_reclaimed(s, now_ms));
}

/// A dead daemon does not block its repository for ever: once its claim has
/// outlived the timeout, the next daemon that serves the repository finds it
/// free, and the abandoned request claimable again, provided no other claim is
/// open on it.
pub proof fn law_a_dead_daemon_frees_its_repository(
    s: Seq<RequestView>,
    serves: Serves<'_>,
    now_ms: u64,
    i: int,
)
    requires
        0 <= i < s.len(),
        store::stale(s[i], now_ms),
        one_claim_each(s),
        request::serves_repo(serves, s[i].repo),
    ensures
        store::claimable(store::all_reclaimed(s, now_ms), serves, i),
        store::all_reclaimed(s, now_ms)[i].claimed_by is None,
        store::all_reclaimed(s, now_ms)[i].claimed_ms is None,
        store::all_reclaimed(s, now_ms)[i].send_back_note == s[i].send_back_note,
{
    let t = store::all_reclaimed(s, now_ms);
    assert forall|j: int|
        0 <= j < t.len() && (#[trigger] t[j]).state == RequestState::Claimed implies t[j].repo
        != t[i].repo by {
        assert(s[j].state == RequestState::Claimed);
        assert(s[i].state == RequestState::Claimed);
        assert(i != j);
    }
}

/// What a drafting run costs is counted where it begins: every claim adds one
/// run, dated now, and none older than the window is kept.
pub proof fn law_a_claim_is_one_drafting_run(r: RequestView, by: Seq<char>, now_ms: u64)
    ensures
        store::claimed_as(r, by, now_ms).drafts.last() == now_ms,
        store::claimed_as(r, by, now_ms).drafts.len() > 0,
        forall|k: int|
            0 <= k < store::claimed_as(r, by, now_ms).drafts.len() ==> now_ms - (#[trigger] store::claimed_as(
                r,
                by,
                now_ms,
            ).drafts[k]) <= FILING_WINDOW_MS,
{
    let keep = |t: u64| now_ms - t <= FILING_WINDOW_MS;
    let all = r.drafts.push(now_ms);
    reveal(Seq::filter);
    assert(all.drop_last() =~= r.drafts);
    assert(all.last() == now_ms);
    broadcast use vstd::seq_lib::group_filter_ensures;

    let kept = store::claimed_as(r, by, now_ms).drafts;
    assert(kept == all.filter(keep));
    assert forall|k: int| 0 <= k < kept.len() implies now_ms - (#[trigger] kept[k])
        <= FILING_WINDOW_MS by {
        assert(keep(kept[k]));
    }
}

// ---------------------------------------------------------------------------
// Reports
// ---------------------------------------------------------------------------

/// Only the daemon that holds a claim may report on it. Another one is told who
/// does.
pub proof fn law_only_the_holder_reports(
    s: Seq<RequestView>,
    i: int,
    holder: Seq<char>,
    by: Seq<char>,
    now_ms: u64,
)
    requires
        store::well_kept(s),
        0 <= i < s.len(),
    ensures
        ({
            let t = s.update(i, store::claimed_as(s[i], holder, now_ms));
            &&& store::report_refusal(t, s[i].id, holder) is None
            &&& by != holder ==> store::report_refusal(t, s[i].id, by) == Some(
                Refusal::HeldByAnother { id: s[i].id, holder, by },
            )
        }),
{
    let c = store::claimed_as(s[i], holder, now_ms);
    let t = s.update(i, c);
    store::lemma_update_kept(s, i, c);
    store::lemma_position(t, s[i].id, i);
}

/// A report that comes after the claim was taken back is refused, whoever sends
/// it: the work it reclaimed cannot still write.
pub proof fn law_a_late_report_is_refused(
    s: Seq<RequestView>,
    i: int,
    now_ms: u64,
    by: Seq<char>,
)
    requires
        store::well_kept(s),
        0 <= i < s.len(),
        store::stale(s[i], now_ms),
    ensures
        store::report_refusal(store::all_reclaimed(s, now_ms), s[i].id, by) == Some(
            Refusal::NotClaimed { id: s[i].id, state: RequestState::Queued },
        ),
{
    store::lemma_reclaimed_kept(s, now_ms);
    let t = store::all_reclaimed(s, now_ms);
    assert(t[i].id == s[i].id);
    store::lemma_position(t, s[i].id, i);
}

/// What a daemon reports ends its claim: nothing it wrote carries the marks of
/// one, and a second report is refused.
pub proof fn law_a_report_ends_the_claim(
    s: Seq<RequestView>,
    i: int,
    after: RequestView,
    by: Seq<char>,
)
    requires
        store::well_kept(s),
        0 <= i < s.len(),
        after.id == s[i].id,
        after.state != RequestState::Claimed,
    ensures
        ({
            let t = s.update(i, store::cleaned(after));
            &&& t[i].claimed_by is None
            &&& t[i].claimed_ms is None
            &&& store::report_refusal(t, s[i].id, by) == Some(
                Refusal::NotClaimed { id: s[i].id, state: after.state },
            )
        }),
{
    let t = s.update(i, store::cleaned(after));
    store::lemma_update_kept(s, i, store::cleaned(after));
    store::lemma_position(t, s[i].id, i);
}

/// Work that was handed back is queued again, keeps what whoever reviewed it
/// said, and carries no mark of the claim. Work that failed is not queued.
pub proof fn law_handing_back_is_not_failing(r: RequestView, by: Seq<char>, reason: Seq<char>)
    ensures
        store::failed(r, reason).state == RequestState::Failed,
        store::handed_back(r, by, reason).state == RequestState::Queued,
        store::handed_back(r, by, reason).send_back_note == r.send_back_note,
        store::handed_back(r, by, reason).claimed_by is None,
        store::handed_back(r, by, reason).claimed_ms is None,
{
}

// ---------------------------------------------------------------------------
// Review
// ---------------------------------------------------------------------------

/// An approval attaches to the text that was read: of the digests somebody may
/// hold, the one of the current draft and no other is accepted.
pub proof fn law_approval_is_bound_to_the_draft(
    s: Seq<RequestView>,
    i: int,
    draft: DraftView,
    digest: Seq<char>,
)
    requires
        store::well_kept(s),
        0 <= i < s.len(),
        s[i].state == RequestState::AwaitingReview,
        s[i].spec == Some(draft),
    ensures
        store::accept_refusal(s, s[i].id, digest) is None <==> digest == draft.digest,
        digest != draft.digest ==> store::accept_refusal(s, s[i].id, digest) == Some(Refusal::SpecChanged),
{
    store::lemma_position(s, s[i].id, i);
}

/// A redraft takes an approval of the text before it: whoever read the older
/// draft and sends its digest is refused, unless the two have one digest.
pub proof fn law_a_redraft_voids_the_older_digest(
    s: Seq<RequestView>,
    i: int,
    older: DraftView,
    newer: DraftView,
    dir: Seq<char>,
    now_ms: u64,
)
    requires
        store::well_kept(s),
        0 <= i < s.len(),
    ensures
        ({
            let t = s.update(i, store::cleaned(store::drafted(s[i], newer, dir, now_ms)));
            &&& older.digest != newer.digest ==> store::accept_refusal(t, s[i].id, older.digest) == Some(
                Refusal::SpecChanged,
            )
            &&& store::accept_refusal(t, s[i].id, newer.digest) is None
        }),
{
    let after = store::cleaned(store::drafted(s[i], newer, dir, now_ms));
    let t = s.update(i, after);
    store::lemma_update_kept(s, i, after);
    law_approval_is_bound_to_the_draft(t, i, newer, older.digest);
    law_approval_is_bound_to_the_draft(t, i, newer, newer.digest);
}

/// Sending back drops the rejected draft and keeps the reason for the next one,
/// which spends it.
pub proof fn law_a_send_back_grounds_one_redraft(
    r: RequestView,
    notes: Seq<char>,
    by: Seq<char>,
    newer: DraftView,
    dir: Seq<char>,
    now_ms: u64,
)
    ensures
        store::sent_back(r, notes).state == RequestState::Queued,
        store::sent_back(r, notes).spec is None,
        store::claimed_as(store::sent_back(r, notes), by, now_ms).send_back_note == Some(text::trimmed(notes)),
        store::drafted(store::claimed_as(store::sent_back(r, notes), by, now_ms), newer, dir, now_ms).send_back_note is None,
{
}

/// An approved request stays approved: nothing discards it, sends it back,
/// releases it, judges it or approves it again, and no daemon is handed it or may
/// report on it.
pub proof fn law_an_approval_is_final(
    s: Seq<RequestView>,
    i: int,
    digest: Seq<char>,
    notes: Seq<char>,
    by: Seq<char>,
    serves: Serves<'_>,
    now_ms: u64,
)
    requires
        store::well_kept(s),
        0 <= i < s.len(),
        s[i].state == RequestState::Accepted,
    ensures
        store::discard_refusal(s, s[i].id) == Some(Refusal::Settled { id: s[i].id }),
        store::send_back_refusal(s, s[i].id, notes) is Some,
        store::release_refusal(s, s[i].id) is Some,
        store::verdict_refusal(s, s[i].id) is Some,
        store::accept_refusal(s, s[i].id, digest) is Some,
        store::report_refusal(s, s[i].id, by) is Some,
        !store::claimable(s, serves, i),
        store::reclaimed(s[i], now_ms) == s[i],
{
    store::lemma_position(s, s[i].id, i);
}

/// Anything that is not approved can be discarded, and discarding it again
/// changes nothing.
pub proof fn law_discarding_twice_is_discarding_once(s: Seq<RequestView>, i: int)
    requires
        store::well_kept(s),
        0 <= i < s.len(),
        s[i].state != RequestState::Accepted,
    ensures
        ({
            let once = s.update(i, store::cleaned(store::moved(s[i], RequestState::Discarded)));
            &&& store::discard_refusal(s, s[i].id) is None
            &&& store::discard_refusal(once, s[i].id) is None
            &&& once.update(i, store::cleaned(store::moved(once[i], RequestState::Discarded))) == once
        }),
{
    let after = store::cleaned(store::moved(s[i], RequestState::Discarded));
    let once = s.update(i, after);
    store::lemma_position(s, s[i].id, i);
    store::lemma_update_kept(s, i, after);
    store::lemma_position(once, s[i].id, i);
    assert(once.update(i, store::cleaned(store::moved(once[i], RequestState::Discarded))) =~= once);
}

// ---------------------------------------------------------------------------
// Screening
// ---------------------------------------------------------------------------

/// A verdict can only withhold or let through what is being screened. It reaches
/// `Queued` and `Quarantined` and no other state, and while a request is held as
/// the verdict left it, no daemon can claim it.
pub proof fn law_a_verdict_can_only_withhold(
    r: RequestView,
    quarantine: Option<Seq<char>>,
    s: Seq<RequestView>,
    serves: Serves<'_>,
    i: int,
)
    requires
        0 <= i < s.len(),
        s[i] == store::screened(r, quarantine),
    ensures
        quarantine is Some ==> !store::claimable(s, serves, i),
        quarantine is None ==> store::screened(r, quarantine) == store::moved(r, RequestState::Queued),
        quarantine matches Some(reason) ==> store::screened(r, quarantine).state
            == RequestState::Quarantined && store::screened(r, quarantine).note == Some(reason),
{
}

/// A verdict that arrives after a human released the request is refused, and the
/// release keeps the reason it was held for.
pub proof fn law_a_late_verdict_is_refused(s: Seq<RequestView>, i: int)
    requires
        store::well_kept(s),
        0 <= i < s.len(),
        s[i].state == RequestState::Quarantined,
    ensures
        ({
            let t = s.update(i, store::cleaned(store::moved(s[i], RequestState::Queued)));
            &&& store::release_refusal(s, s[i].id) is None
            &&& store::verdict_refusal(t, s[i].id) == Some(
                Refusal::NotScreening { id: s[i].id, state: RequestState::Queued },
            )
            &&& t[i].note == s[i].note
        }),
{
    let after = store::cleaned(store::moved(s[i], RequestState::Queued));
    let t = s.update(i, after);
    store::lemma_position(s, s[i].id, i);
    store::lemma_update_kept(s, i, after);
    store::lemma_position(t, s[i].id, i);
}

// ---------------------------------------------------------------------------
// Ceilings
// ---------------------------------------------------------------------------

/// What was filed stays filed: no step that keeps a record's account and its
/// filing time gives its filer any budget back, whatever state it ends in.
pub proof fn law_no_step_refunds_a_filing(
    s: Seq<RequestView>,
    i: int,
    after: RequestView,
    account: Seq<char>,
    since: u64,
)
    requires
        0 <= i < s.len(),
        after.account_id == s[i].account_id,
        after.filed_ms == s[i].filed_ms,
    ensures
        s.update(i, after).filter(|q: RequestView| store::filed_after(q, account, since)).len() == s.filter(
            |q: RequestView| store::filed_after(q, account, since),
        ).len(),
    decreases s.len(),
{
    let f = |q: RequestView| store::filed_after(q, account, since);
    let t = s.update(i, after);
    reveal(Seq::filter);
    if i == s.len() - 1 {
        assert(t.drop_last() =~= s.drop_last());
    } else {
        assert(t.drop_last() =~= s.drop_last().update(i, after));
        law_no_step_refunds_a_filing(s.drop_last(), i, after, account, since);
    }
}

/// Every step of a request's life keeps who filed it and when.
pub proof fn law_steps_keep_the_filing(
    r: RequestView,
    by: Seq<char>,
    words: Seq<char>,
    draft: DraftView,
    quarantine: Option<Seq<char>>,
    state: RequestState,
    now_ms: u64,
)
    ensures
        forall|q: RequestView|
            q == store::reclaimed(r, now_ms) || q == store::claimed_as(r, by, now_ms) || q == store::drafted(
                r,
                draft,
                words,
                now_ms,
            ) || q == store::failed(r, words) || q == store::handed_back(r, by, words) || q == store::sent_back(r, words)
                || q == store::screened(r, quarantine) || q == store::moved(r, state) || q == store::cleaned(r) ==> (
            #[trigger] q.account_id) == r.account_id && q.filed_ms == r.filed_ms && q.id == r.id
                && q.repo == r.repo && q.text == r.text,
{
}

/// A claim spends one drafting run of its own repository and none of another's.
pub proof fn law_a_claim_spends_its_own_repository(
    s: Seq<RequestView>,
    i: int,
    by: Seq<char>,
    now_ms: u64,
    repo: Seq<char>,
    since: u64,
)
    requires
        0 <= i < s.len(),
        since <= now_ms,
        now_ms - since <= FILING_WINDOW_MS,
    ensures
        ({
            let t = s.update(i, store::claimed_as(s[i], by, now_ms));
            &&& s[i].repo == repo ==> store::runs_for(t, repo, since) == store::runs_for(s, repo, since) + 1
            &&& s[i].repo != repo ==> store::runs_for(t, repo, since) == store::runs_for(s, repo, since)
        }),
    decreases s.len(),
{
    let c = store::claimed_as(s[i], by, now_ms);
    let t = s.update(i, c);
    if i == s.len() - 1 {
        assert(t.drop_last() =~= s.drop_last());
        let late = |x: u64| x >= since;
        let keep = |x: u64| now_ms - x <= FILING_WINDOW_MS;
        let all = s[i].drafts.push(now_ms);
        reveal(Seq::filter);
        assert(all.drop_last() =~= s[i].drafts);
        lemma_kept_runs_count(all, since, now_ms);
        assert(all.filter(late).len() == s[i].drafts.filter(late).len() + 1);
    } else {
        assert(t.drop_last() =~= s.drop_last().update(i, c));
        law_a_claim_spends_its_own_repository(s.drop_last(), i, by, now_ms, repo, since);
    }
}

proof fn lemma_kept_runs_count(all: Seq<u64>, since: u64, now_ms: u64)
    requires
        since <= now_ms,
        now_ms - since <= FILING_WINDOW_MS,
    ensures
        store::runs_after(all.filter(|x: u64| now_ms - x <= FILING_WINDOW_MS), since) == store::runs_after(
            all,
            since,
        ),
    decreases all.len(),
{
    let keep = |x: u64| now_ms - x <= FILING_WINDOW_MS;
    let late = |x: u64| x >= since;
    reveal(Seq::filter);
    if all.len() > 0 {
        lemma_kept_runs_count(all.drop_last(), since, now_ms);
        let rest = all.drop_last().filter(keep);
        if keep(all.last()) {
            assert(rest.push(all.last()).drop_last() =~= rest);
        }
    }
}

// ---------------------------------------------------------------------------
// Ids
// ---------------------------------------------------------------------------

/// Ten to a power.
pub open spec fn pow10(w: nat) -> nat
    decreases w,
{
    if w == 0 {
        1
    } else {
        10 * pow10((w - 1) as nat)
    }
}

/// A number in exactly so many digits.
pub open spec fn digits(n: nat, w: nat) -> Seq<char>
    decreases w,
{
    if w == 0 {
        Seq::empty()
    } else {
        digits(n / 10, (w - 1) as nat).push(text::digit(n % 10))
    }
}

proof fn lemma_padded_is_digits(n: nat, w: nat)
    requires
        w > 0,
        n < pow10(w),
    ensures
        text::pad_front(text::decimal(n), w, '0') == digits(n, w),
        text::decimal(n).len() <= w,
    decreases w,
{
    if n < 10 {
        lemma_zero_digits((w - 1) as nat);
        assert(n / 10 == 0);
        assert(digits(n, w) =~= text::pad_front(text::decimal(n), w, '0'));
    } else {
        assert(pow10(1) == 10) by {
            reveal_with_fuel(pow10, 2);
        }
        if w == 1 {
            assert(false);
        }
        assert(n / 10 < pow10((w - 1) as nat));
        lemma_padded_is_digits(n / 10, (w - 1) as nat);
        assert(digits(n, w) =~= text::pad_front(text::decimal(n), w, '0'));
    }
}

proof fn lemma_digits_are_digits(n: nat, w: nat)
    ensures
        digits(n, w).len() == w,
        forall|i: int| 0 <= i < w ==> '0' <= #[trigger] digits(n, w)[i] <= '9',
    decreases w,
{
    if w > 0 {
        lemma_digits_are_digits(n / 10, (w - 1) as nat);
    }
}

proof fn lemma_zero_digits(w: nat)
    ensures
        digits(0, w) == Seq::new(w, |i: int| '0'),
    decreases w,
{
    if w > 0 {
        lemma_zero_digits((w - 1) as nat);
    }
    assert(digits(0, w) =~= Seq::new(w, |i: int| '0'));
}

proof fn lemma_same_front(p: Seq<char>, a: Seq<char>, b: Seq<char>)
    ensures
        text::sorts_before(p + a, p + b) == text::sorts_before(a, b),
    decreases p.len(),
{
    if p.len() == 0 {
        assert(p + a =~= a);
        assert(p + b =~= b);
    } else {
        assert((p + a).skip(1) =~= p.skip(1) + a);
        assert((p + b).skip(1) =~= p.skip(1) + b);
        lemma_same_front(p.skip(1), a, b);
    }
}

proof fn lemma_digits_order(n: nat, m: nat, w: nat, x: Seq<char>, y: Seq<char>)
    requires
        n < m,
        m < pow10(w),
    ensures
        text::sorts_before(digits(n, w) + x, digits(m, w) + y),
    decreases w,
{
    let w1 = (w - 1) as nat;
    let x1 = seq![text::digit(n % 10)] + x;
    let y1 = seq![text::digit(m % 10)] + y;
    assert(digits(n, w) + x =~= digits(n / 10, w1) + x1);
    assert(digits(m, w) + y =~= digits(m / 10, w1) + y1);
    if n / 10 < m / 10 {
        lemma_digits_order(n / 10, m / 10, w1, x1, y1);
    } else {
        assert(n / 10 == m / 10);
        lemma_same_front(digits(n / 10, w1), x1, y1);
    }
}

proof fn lemma_digits_differ(n: nat, m: nat, w: nat)
    requires
        n != m,
        n < pow10(w),
        m < pow10(w),
    ensures
        digits(n, w) != digits(m, w),
{
    let e = Seq::<char>::empty();
    assert(digits(n, w) + e =~= digits(n, w));
    assert(digits(m, w) + e =~= digits(m, w));
    crate::text::lemma_order_irreflexive(digits(n, w));
    if n < m {
        lemma_digits_order(n, m, w, e, e);
    } else {
        lemma_digits_order(m, n, w, e, e);
    }
}

/// Ids follow the clock: what was filed in an earlier millisecond sorts before
/// what was filed in a later one, for as long as thirteen digits hold the time.
pub proof fn law_ids_follow_the_clock(earlier: u64, later: u64, a: u64, b: u64)
    requires
        earlier < later,
        later < 10_000_000_000_000,
    ensures
        text::sorts_before(store::id_text(earlier, a), store::id_text(later, b)),
{
    assert(pow10(13) == 10_000_000_000_000) by {
        reveal_with_fuel(pow10, 14);
    }
    lemma_padded_is_digits(earlier as nat, 13);
    lemma_padded_is_digits(later as nat, 13);
    let x = "-"@ + text::pad_front(text::decimal((a % 10_000) as nat), 4, '0');
    let y = "-"@ + text::pad_front(text::decimal((b % 10_000) as nat), 4, '0');
    assert(store::id_text(earlier, a) =~= digits(earlier as nat, 13) + x);
    assert(store::id_text(later, b) =~= digits(later as nat, 13) + y);
    lemma_digits_order(earlier as nat, later as nat, 13, x, y);
}

/// Two ids differ unless a multiple of ten thousand was minted between them,
/// whatever the clock said at either, even where it went back.
pub proof fn law_fresh_ids_differ(now_ms: u64, later_ms: u64, a: u64, b: u64)
    requires
        a % 10_000 != b % 10_000,
    ensures
        store::id_text(now_ms, a) != store::id_text(later_ms, b),
{
    assert(pow10(4) == 10_000) by {
        reveal_with_fuel(pow10, 5);
    }
    let n = (a % 10_000) as nat;
    let m = (b % 10_000) as nat;
    lemma_padded_is_digits(n, 4);
    lemma_padded_is_digits(m, 4);
    lemma_digits_differ(n, m, 4);
    lemma_digits_are_digits(n, 4);
    lemma_digits_are_digits(m, 4);
    let p = text::pad_front(text::decimal(now_ms as nat), 13, '0') + "-"@;
    let q = text::pad_front(text::decimal(later_ms as nat), 13, '0') + "-"@;
    let x = digits(n, 4);
    let y = digits(m, 4);
    if store::id_text(now_ms, a) == store::id_text(later_ms, b) {
        assert(store::id_text(now_ms, a) =~= p + x);
        assert(store::id_text(later_ms, b) =~= q + y);
        assert(p.len() == q.len());
        assert((p + x).skip(p.len() as int) =~= x);
        assert((q + y).skip(q.len() as int) =~= y);
    }
}

/// Fewer than ten thousand further on, an id is another one, and where the clock
/// advanced in between it sorts behind.
pub proof fn law_ids_near_one_another_are_told_apart(
    now_ms: u64,
    later_ms: u64,
    counter: u64,
    further: u64,
)
    requires
        0 < further < 10_000,
        counter + further <= u64::MAX,
    ensures
        store::id_text(now_ms, counter) != store::id_text(
            later_ms,
            (counter + further) as u64,
        ),
        now_ms < later_ms < 10_000_000_000_000 ==> text::sorts_before(
            store::id_text(now_ms, counter),
            store::id_text(later_ms, (counter + further) as u64),
        ),
{
    law_fresh_ids_differ(now_ms, later_ms, counter, (counter + further) as u64);
    if now_ms < later_ms < 10_000_000_000_000 {
        law_ids_follow_the_clock(now_ms, later_ms, counter, (counter + further) as u64);
    }
}

/// An id is the time in thirteen digits, a dash and four digits, for as long as
/// thirteen digits hold the time.
pub proof fn law_an_id_has_its_form(now_ms: u64, n: u64)
    requires
        now_ms < 10_000_000_000_000,
    ensures
        store::id_text(now_ms, n).len() == 18,
        store::id_text(now_ms, n)[13] == '-',
        forall|i: int|
            0 <= i < 18 && i != 13 ==> '0' <= #[trigger] store::id_text(now_ms, n)[i] <= '9',
{
    assert(pow10(13) == 10_000_000_000_000) by {
        reveal_with_fuel(pow10, 14);
    }
    assert(pow10(4) == 10_000) by {
        reveal_with_fuel(pow10, 5);
    }
    reveal_strlit("-");
    lemma_padded_is_digits(now_ms as nat, 13);
    lemma_padded_is_digits((n % 10_000) as nat, 4);
    lemma_digits_are_digits(now_ms as nat, 13);
    lemma_digits_are_digits((n % 10_000) as nat, 4);
    let x = digits(now_ms as nat, 13);
    let y = digits((n % 10_000) as nat, 4);
    let id = store::id_text(now_ms, n);
    assert(id =~= x + "-"@ + y);
    assert forall|i: int| 0 <= i < 18 && i != 13 implies '0' <= #[trigger] id[i] <= '9' by {
        if i < 13 {
            assert(id[i] == x[i]);
        } else {
            assert(id[i] == y[i - 14]);
        }
    }
}

/// What is written reads back, and nothing else reads differently for it.
pub proof fn law_what_is_written_reads_back(
    s: Seq<RequestView>,
    r: RequestView,
    other: Seq<char>,
)
    requires
        store::well_kept(s),
        r == store::cleaned(r),
        other != r.id,
    ensures
        store::record(store::with_record(s, r), r.id) == Some(r),
        store::record(store::with_record(s, r), other) == store::record(s, other),
{
    store::lemma_with_record_kept(s, r);
}

} // verus!
