//! What a store keeps, finds and counts, and where it keeps it.

use vstd::prelude::*;
use vstd::string::*;

use crate::guarantees::{counting, drafting, wording};
use crate::request;
use crate::request::{Request, RequestState, RequestView};
use crate::store;
use crate::store::{Refusal, Store, StoreError};
use crate::text;

verus! {

/// A record is found by its id, whole, and only where there is one.
pub proof fn law_a_record_is_found_by_its_id(
    kept: Store,
    id: &str,
    r: Option<Request>,
    needed: Result<Request, StoreError>,
    i: int,
)
    requires
        kept.wf(),
        call_ensures(Store::get, (&kept, id), r),
        call_ensures(Store::require, (&kept, id), needed),
    ensures
        0 <= i < kept@.len() && kept@[i].id == id@ ==> (r matches Some(q) && q@ == kept@[i]) && (
        needed matches Ok(q) && q@ == kept@[i]),
        (forall|j: int| 0 <= j < kept@.len() ==> (#[trigger] kept@[j]).id != id@) ==> r is None && (
        needed matches Err(e) && e@ == (Refusal::NoSuchRequest { id: id@ })),
{
    if 0 <= i < kept@.len() && kept@[i].id == id@ {
        store::lemma_position(kept@, id@, i);
    }
}

/// Everything that is kept is handed out, in the order of the ids.
pub proof fn law_all_is_all(kept: Store, r: Vec<Request>, i: int)
    requires
        kept.wf(),
        call_ensures(Store::all, (&kept,), r),
        0 <= i < kept@.len(),
    ensures
        r@.len() == kept@.len(),
        r@[i]@ == kept@[i],
        0 < i ==> text::sorts_before(r@[i - 1]@.id, r@[i]@.id),
{
    assert(store::views(r@)[i] == r@[i]@);
    if 0 < i {
        assert(store::views(r@)[i - 1] == r@[i - 1]@);
        assert(text::sorts_before(kept@[i - 1].id, kept@[i].id));
    }
}

/// What an account filed since a moment is counted record by record.
pub proof fn law_filings_are_counted(kept: Store, account: &str, since_ms: u64, r: usize)
    requires
        call_ensures(Store::filed_since, (&kept, account, since_ms), r),
    ensures
        r == Set::new(
            |i: int|
                0 <= i < kept@.len() && kept@[i].account_id == Some(account@) && kept@[i].filed_ms
                    >= since_ms,
        ).len(),
{
    let f = |q: RequestView| store::filed_after(q, account@, since_ms);
    counting::lemma_places(kept@, f);
    assert(counting::places(kept@, f) =~= Set::new(
        |i: int|
            0 <= i < kept@.len() && kept@[i].account_id == Some(account@) && kept@[i].filed_ms
                >= since_ms,
    ));
}

/// The drafting runs of a repository since a moment are counted hand-off by
/// hand-off, for as long as a machine can count them.
pub proof fn law_drafts_are_counted(kept: Store, repo: &str, since_ms: u64, r: usize)
    requires
        call_ensures(Store::drafts_since, (&kept, repo, since_ms), r),
        counting::runs_since(kept@, repo@, since_ms as int).len() <= usize::MAX,
    ensures
        r == counting::runs_since(kept@, repo@, since_ms as int).len(),
{
    counting::lemma_runs(kept@, repo@, since_ms);
}

/// What waits to be screened is handed out: everything that does, and nothing
/// else.
pub proof fn law_what_waits_is_handed_out(kept: Store, r: Vec<Request>, q: RequestView)
    requires
        call_ensures(Store::pending_screening, (&kept,), r),
    ensures
        (exists|k: int| 0 <= k < r@.len() && (#[trigger] r@[k])@ == q) <==> (exists|i: int|
            0 <= i < kept@.len() && #[trigger] kept@[i] == q && q.state == RequestState::Screening),
{
    broadcast use vstd::seq_lib::group_filter_ensures;

    let f = |x: RequestView| x.state == RequestState::Screening;
    let kept_ones = kept@.filter(f);
    assert(store::views(r@) == kept_ones);
    assert(kept_ones.len() == r@.len());
    if exists|k: int| 0 <= k < r@.len() && (#[trigger] r@[k])@ == q {
        let k = choose|k: int| 0 <= k < r@.len() && (#[trigger] r@[k])@ == q;
        assert(store::views(r@)[k] == q);
        assert(kept_ones[k] == q && f(kept_ones[k]));
        assert(kept_ones.contains(q));
        kept@.lemma_filter_contains_rev(f, q);
        assert(kept@.contains(q));
    }
    if exists|i: int| 0 <= i < kept@.len() && #[trigger] kept@[i] == q && q.state
        == RequestState::Screening {
        let i = choose|i: int|
            0 <= i < kept@.len() && #[trigger] kept@[i] == q && q.state == RequestState::Screening;
        assert(kept_ones.contains(kept@[i]));
        let k = choose|k: int| 0 <= k < kept_ones.len() && kept_ones[k] == q;
        assert(store::views(r@)[k] == r@[k]@);
    }
}

/// Looking for claims that were left behind queues each of them, with a note and
/// without the marks of its claim; starts the clock of one that has none; and
/// leaves every other record as it was.
pub proof fn law_what_was_left_behind_is_queued(s: Seq<RequestView>, now_ms: u64, i: int)
    requires
        0 <= i < s.len(),
    ensures
        ({
            let t = store::all_reclaimed(s, now_ms);
            &&& t.len() == s.len()
            &&& drafting::left_behind(s[i], now_ms) ==> t[i] == (RequestView {
                state: RequestState::Queued,
                claimed_ms: None,
                claimed_by: None,
                note: Some(
                    "the daemon that claimed this stopped responding, so it went back to the queue"@,
                ),
                ..s[i]
            })
            &&& s[i].state == RequestState::Claimed && s[i].claimed_ms is None ==> t[i] == (
            RequestView { claimed_ms: Some(now_ms), ..s[i] })
            &&& s[i].state != RequestState::Claimed ==> t[i] == s[i]
            &&& s[i].claimed_ms is Some && !drafting::left_behind(s[i], now_ms) ==> t[i] == s[i]
        }),
{
}

/// Each file has its own name under the store's directory, and each request its
/// own file.
pub proof fn law_everything_has_its_file(root: Seq<char>, id: Seq<char>)
    requires
        root.len() > 0,
        root.last() != '/',
    ensures
        store::file_in(root, "accounts.json"@) == root + "/accounts.json"@,
        store::file_in(root, "settings.json"@) == root + "/settings.json"@,
        store::file_in(root, "owners.json"@) == root + "/owners.json"@,
        store::file_in(root, "links.json"@) == root + "/links.json"@,
        store::file_in(root, "admin.json"@) == root + "/admin.json"@,
        store::file_in(store::file_in(root, "requests"@), id + ".json"@) == root + "/requests/"@ + id
            + ".json"@,
        store::file_in(root + "/"@, id) == root + "/"@ + id,
{
    reveal_strlit("/");
    reveal_strlit("accounts.json");
    reveal_strlit("/accounts.json");
    reveal_strlit("settings.json");
    reveal_strlit("/settings.json");
    reveal_strlit("owners.json");
    reveal_strlit("/owners.json");
    reveal_strlit("links.json");
    reveal_strlit("/links.json");
    reveal_strlit("admin.json");
    reveal_strlit("/admin.json");
    reveal_strlit("requests");
    reveal_strlit("/requests/");
    assert("/accounts.json"@ =~= "/"@ + "accounts.json"@);
    assert("/settings.json"@ =~= "/"@ + "settings.json"@);
    assert("/owners.json"@ =~= "/"@ + "owners.json"@);
    assert("/links.json"@ =~= "/"@ + "links.json"@);
    assert("/admin.json"@ =~= "/"@ + "admin.json"@);
    assert(root + "/"@ + "accounts.json"@ =~= root + "/accounts.json"@);
    assert(root + "/"@ + "settings.json"@ =~= root + "/settings.json"@);
    assert(root + "/"@ + "owners.json"@ =~= root + "/owners.json"@);
    assert(root + "/"@ + "links.json"@ =~= root + "/links.json"@);
    assert(root + "/"@ + "admin.json"@ =~= root + "/admin.json"@);
    let dir = root + "/"@ + "requests"@;
    assert(dir.last() == 's');
    assert(dir + "/"@ + (id + ".json"@) =~= root + "/requests/"@ + id + ".json"@);
    assert((root + "/"@).last() == '/');
}

/// The files that a store names are these.
pub proof fn law_a_store_names_its_files(
    kept: Store,
    id: &str,
    accounts: String,
    settings: String,
    roster: String,
    links: String,
    admin: String,
    record: String,
)
    requires
        call_ensures(Store::accounts_path, (&kept,), accounts),
        call_ensures(Store::settings_path, (&kept,), settings),
        call_ensures(Store::roster_path, (&kept,), roster),
        call_ensures(Store::links_path, (&kept,), links),
        call_ensures(Store::admin_path, (&kept,), admin),
        call_ensures(Store::request_path, (&kept, id), record),
        kept.home().len() > 0,
        kept.home().last() != '/',
    ensures
        accounts@ == kept.home() + "/accounts.json"@,
        settings@ == kept.home() + "/settings.json"@,
        roster@ == kept.home() + "/owners.json"@,
        links@ == kept.home() + "/links.json"@,
        admin@ == kept.home() + "/admin.json"@,
        record@ == kept.home() + "/requests/"@ + id@ + ".json"@,
{
    law_everything_has_its_file(kept.home(), id@);
}

proof fn lemma_zeros_count_nothing(k: nat, s: Seq<char>)
    ensures
        wording::read_decimal(Seq::new(k, |i: int| '0') + s) == wording::read_decimal(s),
    decreases s.len(), k,
{
    let z = Seq::new(k, |i: int| '0');
    let t = z + s;
    if s.len() == 0 {
        assert(t =~= z);
        if k > 0 {
            let m = (k - 1) as nat;
            assert(t.drop_last() =~= Seq::new(m, |i: int| '0') + s);
            lemma_zeros_count_nothing(m, s);
            assert(t.last() == '0');
        }
    } else {
        assert(t.drop_last() =~= z + s.drop_last());
        assert(t.last() == s.last());
        lemma_zeros_count_nothing(k, s.drop_last());
    }
}

/// An id says when its request was filed, and which of that moment's it is.
pub proof fn law_an_id_says_when(now_ms: u64, n: u64)
    requires
        now_ms < 10_000_000_000_000,
    ensures
        ({
            let id = store::id_text(now_ms, n);
            &&& id.len() == 18
            &&& id[13] == '-'
            &&& wording::read_decimal(id.take(13)) == now_ms
            &&& wording::read_decimal(id.skip(14)) == n % 10_000
        }),
{
    crate::lifecycle::law_an_id_has_its_form(now_ms, n);
    reveal_strlit("-");
    let id = store::id_text(now_ms, n);
    let a = text::decimal(now_ms as nat);
    let b = text::decimal((n % 10_000) as nat);
    wording::law_a_number_reads_back(now_ms as nat);
    wording::law_a_number_reads_back((n % 10_000) as nat);
    let x = text::pad_front(a, 13, '0');
    let y = text::pad_front(b, 4, '0');
    assert(id =~= x + "-"@ + y);
    assert(x.len() >= 13 && y.len() >= 4);
    assert(id.take(13) =~= x);
    assert(id.skip(14) =~= y);
    if a.len() < 13 {
        lemma_zeros_count_nothing((13 - a.len()) as nat, a);
    }
    if b.len() < 4 {
        lemma_zeros_count_nothing((4 - b.len()) as nat, b);
    }
}

/// A new id counts on from the last one that this process handed out.
pub proof fn law_a_new_id_counts_on(counter: &mut u64, r: String)
    requires
        call_ensures(store::new_id, (counter,), r),
    ensures
        *old(counter) < u64::MAX ==> *final(counter) == *old(counter) + 1,
        exists|now_ms: u64| r@ == #[trigger] store::id_text(now_ms, *old(counter)),
{
}

/// A refusal names what it is about: the request, and the state it is in, or the
/// daemon that holds it and the one that reported.
pub proof fn law_a_refusal_names_what_it_is_about(
    id: Seq<char>,
    state: RequestState,
    holder: Seq<char>,
    by: Seq<char>,
)
    ensures
        store::refusal_text(Refusal::NoSuchRequest { id }) == "no request "@ + text::quoted_text(id),
        ("request "@ + text::quoted_text(id) + " is "@ + request::state_label(state)
            + " rather than claimed"@).is_prefix_of(
            store::refusal_text(Refusal::NotClaimed { id, state }),
        ),
        ("request "@ + text::quoted_text(id) + " is claimed by "@ + text::quoted_text(holder)
            + ", not by "@ + text::quoted_text(by)).is_prefix_of(
            store::refusal_text(Refusal::HeldByAnother { id, holder, by }),
        ),
        ("request "@ + id + " is "@ + request::state_label(state)).is_prefix_of(
            store::refusal_text(Refusal::NotForApproval { id, state }),
        ),
        ("request "@ + id + " is "@ + request::state_label(state)).is_prefix_of(
            store::refusal_text(Refusal::NotScreening { id, state }),
        ),
        ("request "@ + id + " is "@ + request::state_label(state)).is_prefix_of(
            store::refusal_text(Refusal::NotQuarantined { id, state }),
        ),
        ("request "@ + id + " is "@ + request::state_label(state)).is_prefix_of(
            store::refusal_text(Refusal::NotForSendBack { id, state }),
        ),
        ("request "@ + id + " has no drafted spec"@).is_prefix_of(
            store::refusal_text(Refusal::NoDraft { id }),
        ),
        ("request "@ + id + " was approved"@).is_prefix_of(
            store::refusal_text(Refusal::Settled { id }),
        ),
{
    let label = request::state_label(state);
    let q = text::quoted_text(id);
    reveal_strlit(" rather than claimed");
    reveal_strlit(" rather than claimed — its claim was reclaimed after ");
    reveal_strlit(" has no drafted spec");
    reveal_strlit(" has no drafted spec to approve");
    reveal_strlit(" was approved");
    reveal_strlit(
        " was approved — its spec is settled in the repository. Discarding here would erase the decision without touching the file. Delete the spec in your IDE instead.",
    );
    let late = "request "@ + q + " is "@ + label + " rather than claimed"@;
    let t = store::refusal_text(Refusal::NotClaimed { id, state });
    assert(" rather than claimed — its claim was reclaimed after "@.take(20)
        =~= " rather than claimed"@);
    assert(t.take(late.len() as int) =~= late);
    let other = "request "@ + q + " is claimed by "@ + text::quoted_text(holder) + ", not by "@
        + text::quoted_text(by);
    let t = store::refusal_text(Refusal::HeldByAnother { id, holder, by });
    assert(t.take(other.len() as int) =~= other);
    let front = "request "@ + id + " is "@ + label;
    let t = store::refusal_text(Refusal::NotForApproval { id, state });
    assert(t.take(front.len() as int) =~= front);
    let t = store::refusal_text(Refusal::NotScreening { id, state });
    assert(t.take(front.len() as int) =~= front);
    let t = store::refusal_text(Refusal::NotQuarantined { id, state });
    assert(t.take(front.len() as int) =~= front);
    let t = store::refusal_text(Refusal::NotForSendBack { id, state });
    assert(t.take(front.len() as int) =~= front);
    let none = "request "@ + id + " has no drafted spec"@;
    let t = store::refusal_text(Refusal::NoDraft { id });
    assert(" has no drafted spec to approve"@.take(20) =~= " has no drafted spec"@);
    assert(t.take(none.len() as int) =~= none);
    let done = "request "@ + id + " was approved"@;
    let t = store::refusal_text(Refusal::Settled { id });
    assert(" was approved — its spec is settled in the repository. Discarding here would erase the decision without touching the file. Delete the spec in your IDE instead."@.take(
        13,
    ) =~= " was approved"@);
    assert(t.take(done.len() as int) =~= done);
}

} // verus!
