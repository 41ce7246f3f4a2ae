//! The order a list shows requests in.

use vstd::prelude::*;

use crate::request;
use crate::request::{Request, RequestState, RequestView};
use crate::store;

verus! {

/// Does `a` stand before `b` in a list? What needs a human first, and of those
/// in one state the one filed last.
pub open spec fn listed_before(a: RequestView, b: RequestView) -> bool {
    ||| request::state_rank(a.state) < request::state_rank(b.state)
    ||| request::state_rank(a.state) == request::state_rank(b.state) && a.filed_ms > b.filed_ms
}

/// Nothing in the list stands behind something that comes after it.
pub open spec fn in_order(s: Seq<RequestView>) -> bool {
    forall|i: int, j: int|
        0 <= i < j < s.len() ==> !listed_before(#[trigger] s[j], #[trigger] s[i])
}

/// Do neither of these stand before the other?
pub open spec fn level_with(a: RequestView) -> spec_fn(RequestView) -> bool {
    |b: RequestView| !listed_before(a, b) && !listed_before(b, a)
}

/// A list in order, with the same requests, and those that are level in the
/// order they came.
pub open spec fn arranged(before: Seq<RequestView>, after: Seq<RequestView>) -> bool {
    &&& in_order(after)
    &&& after.to_multiset() == before.to_multiset()
    &&& forall|a: RequestView|
        after.filter(#[trigger] level_with(a)) == before.filter(level_with(a))
}

proof fn lemma_insert_filter(s: Seq<RequestView>, k: int, x: RequestView, a: RequestView)
    requires
        0 <= k <= s.len(),
        forall|j: int| k <= j < s.len() ==> listed_before(x, #[trigger] s[j]),
    ensures
        s.insert(k, x).filter(level_with(a)) == (if level_with(a)(x) {
            s.filter(level_with(a)).push(x)
        } else {
            s.filter(level_with(a))
        }),
{
    broadcast use vstd::seq_lib::group_filter_ensures;

    let f = level_with(a);
    let front = s.take(k);
    let back = s.skip(k);
    assert(s =~= front + back);
    assert(s.insert(k, x) =~= front.push(x) + back);
    Seq::filter_distributes_over_add(front, back, f);
    Seq::filter_distributes_over_add(front.push(x), back, f);
    assert(front.push(x).drop_last() =~= front);
    assert(front.push(x).filter(f) == (if f(x) {
        front.filter(f).push(x)
    } else {
        front.filter(f)
    })) by {
        reveal(Seq::filter);
    }
    if f(x) {
        assert(back.filter(f).len() == 0) by {
            if back.filter(f).len() > 0 {
                let y = back.filter(f)[0];
                assert(f(y));
                assert(back.filter(f).contains(y));
                lemma_filtered_from(back, f, y);
                let j = choose|j: int| 0 <= j < back.len() && back[j] == y;
                assert(s[k + j] == y);
                assert(listed_before(x, y));
            }
        }
        assert(s.insert(k, x).filter(f) =~= s.filter(f).push(x));
    }
}

proof fn lemma_filtered_from(s: Seq<RequestView>, f: spec_fn(RequestView) -> bool, y: RequestView)
    requires
        s.filter(f).contains(y),
    ensures
        exists|j: int| 0 <= j < s.len() && s[j] == y,
    decreases s.len(),
{
    reveal(Seq::filter);
    if s.len() > 0 {
        if f(s.last()) && y == s.last() {
            assert(s[s.len() - 1] == y);
        } else {
            let i = choose|i: int| 0 <= i < s.filter(f).len() && s.filter(f)[i] == y;
            assert(s.drop_last().filter(f)[i] == y);
            lemma_filtered_from(s.drop_last(), f, y);
            let j = choose|j: int| 0 <= j < s.drop_last().len() && s.drop_last()[j] == y;
            assert(s[j] == y);
        }
    }
}

proof fn lemma_insert_multiset(s: Seq<RequestView>, k: int, x: RequestView)
    requires
        0 <= k <= s.len(),
    ensures
        s.insert(k, x).to_multiset() =~= s.to_multiset().insert(x),
{
    let front = s.take(k);
    let back = s.skip(k);
    assert(s =~= front + back);
    assert(s.insert(k, x) =~= front.push(x) + back);
    vstd::seq_lib::lemma_multiset_commutative(front, back);
    vstd::seq_lib::lemma_multiset_commutative(front.push(x), back);
    front.to_multiset_ensures();
}

fn goes_before(a: &Request, b: &Request) -> (r: bool)
    ensures
        r == listed_before(a@, b@),
{
    let x: u8 = a.state.list_order();
    let y: u8 = b.state.list_order();
    x < y || (x == y && a.filed_ms > b.filed_ms)
}

/// The requests in the order a human cares about them.
pub fn listing_order(all: Vec<Request>) -> (r: Vec<Request>)
    ensures
        arranged(store::views(all@), store::views(r@)),
{
    let ghost given = store::views(all@);
    let mut out: Vec<Request> = Vec::new();
    let mut i: usize = 0;
    assert(given.take(0) =~= Seq::<RequestView>::empty());
    assert(store::views(out@) =~= Seq::<RequestView>::empty());
    while i < all.len()
        invariant
            i <= all@.len(),
            out@.len() == i,
            given == store::views(all@),
            in_order(store::views(out@)),
            store::views(out@).to_multiset() == given.take(i as int).to_multiset(),
            forall|a: RequestView|
                store::views(out@).filter(#[trigger] level_with(a)) == given.take(i as int).filter(
                    level_with(a),
                ),
        decreases all@.len() - i,
    {
        let ghost before = store::views(out@);
        let ghost x = all@[i as int]@;
        let mut k: usize = out.len();
        while k > 0 && goes_before(&all[i], &out[k - 1])
            invariant
                i < all@.len(),
                k <= out@.len(),
                before == store::views(out@),
                x == all@[i as int]@,
                in_order(before),
                forall|j: int| k <= j < before.len() ==> listed_before(x, #[trigger] before[j]),
            decreases k,
        {
            assert(before[k - 1] == out@[k - 1]@);
            k = k - 1;
        }
        proof {
            if k > 0 {
                assert(before[k - 1] == out@[k - 1]@);
            }
        }
        let ghost kept = out@;
        let copy = all[i].clone();
        out.insert(k, copy);
        proof {
            let after = store::views(out@);
            assert(after =~= before.insert(k as int, x));
            assert(given[i as int] == x);
            assert(given.take(i + 1) =~= given.take(i as int).push(x));
            assert forall|a: RequestView|
                after.filter(#[trigger] level_with(a)) == given.take(i + 1).filter(
                    level_with(a),
                ) by {
                lemma_insert_filter(before, k as int, x, a);
                assert(given.take(i + 1).drop_last() =~= given.take(i as int));
                reveal(Seq::filter);
            }
            lemma_insert_multiset(before, k as int, x);
            given.take(i as int).to_multiset_ensures();
            assert forall|p: int, q: int| 0 <= p < q < after.len() implies !listed_before(
                #[trigger] after[q],
                #[trigger] after[p],
            ) by {
                let old_p = if p < k { p } else { p - 1 };
                let old_q = if q < k { q } else { q - 1 };
                if p != k && q != k {
                    assert(after[p] == before[old_p]);
                    assert(after[q] == before[old_q]);
                } else if q == k {
                    assert(after[p] == before[p]);
                    if p < k - 1 {
                        assert(!listed_before(before[k - 1], before[p]));
                    }
                } else {
                    assert(after[q] == before[q - 1]);
                    assert(listed_before(x, before[q - 1]));
                }
            }
        }
        i = i + 1;
    }
    assert(given.take(i as int) =~= given);
    out
}

/// A list in order shows every request that awaits a human before every one that
/// does not, and of those the one filed last first.
pub proof fn law_a_list_shows_what_needs_a_human_first(
    before: Seq<RequestView>,
    after: Seq<RequestView>,
    i: int,
    j: int,
)
    requires
        arranged(before, after),
        0 <= i < j < after.len(),
    ensures
        after[j].state == RequestState::AwaitingReview ==> after[i].state
            == RequestState::AwaitingReview && after[i].filed_ms >= after[j].filed_ms,
{
    assert(!listed_before(after[j], after[i]));
}

/// There is one way to arrange a list: whatever sorted it, the result is the
/// same.
pub proof fn law_an_arrangement_is_unique(
    before: Seq<RequestView>,
    a: Seq<RequestView>,
    b: Seq<RequestView>,
)
    requires
        arranged(before, a),
        arranged(before, b),
    ensures
        a == b,
    decreases a.len(),
{
    lemma_unique(a, b);
}

proof fn lemma_unique(a: Seq<RequestView>, b: Seq<RequestView>)
    requires
        in_order(a),
        in_order(b),
        forall|x: RequestView| a.filter(#[trigger] level_with(x)) == b.filter(level_with(x)),
    ensures
        a == b,
    decreases a.len(),
{
    broadcast use vstd::seq_lib::group_filter_ensures;

    reveal(Seq::filter);
    if a.len() == 0 {
        if b.len() > 0 {
            let y = b.last();
            let f = level_with(y);
            assert(f(y));
            assert(b.filter(f).contains(b[b.len() - 1]));
            assert(a.filter(f).len() == 0);
        }
        assert(a =~= b);
    } else if b.len() == 0 {
        let y = a.last();
        let f = level_with(y);
        assert(f(y));
        assert(a.filter(f).contains(a[a.len() - 1]));
        assert(b.filter(f).len() == 0);
    } else {
        let x = a.last();
        let y = b.last();
        let fx = level_with(x);
        let fy = level_with(y);
        assert(fx(x) && fy(y));
        // Neither last element can stand before the other.
        assert(!listed_before(x, y)) by {
            if listed_before(x, y) {
                assert(b.filter(fy).contains(b[b.len() - 1]));
                lemma_filtered_from(a, fy, y);
                let j = choose|j: int| 0 <= j < a.len() && a[j] == y;
                if j < a.len() - 1 {
                    assert(!listed_before(a[a.len() - 1], a[j]));
                }
            }
        }
        assert(!listed_before(y, x)) by {
            if listed_before(y, x) {
                assert(a.filter(fx).contains(a[a.len() - 1]));
                lemma_filtered_from(b, fx, x);
                let j = choose|j: int| 0 <= j < b.len() && b[j] == x;
                if j < b.len() - 1 {
                    assert(!listed_before(b[b.len() - 1], b[j]));
                }
            }
        }
        assert(fx(y));
        assert(a.filter(fx).last() == x);
        assert(b.filter(fx).last() == y);
        assert(x == y);
        let a1 = a.drop_last();
        let b1 = b.drop_last();
        assert forall|z: RequestView| a1.filter(#[trigger] level_with(z)) == b1.filter(
            level_with(z),
        ) by {
            let f = level_with(z);
            assert(a.filter(f) == b.filter(f));
            if f(x) {
                assert(a.filter(f).drop_last() =~= a1.filter(f));
                assert(b.filter(f).drop_last() =~= b1.filter(f));
            }
        }
        assert forall|i: int, j: int| 0 <= i < j < a1.len() implies !listed_before(
            #[trigger] a1[j],
            #[trigger] a1[i],
        ) by {
            assert(!listed_before(a[j], a[i]));
        }
        assert forall|i: int, j: int| 0 <= i < j < b1.len() implies !listed_before(
            #[trigger] b1[j],
            #[trigger] b1[i],
        ) by {
            assert(!listed_before(b[j], b[i]));
        }
        lemma_unique(a1, b1);
        assert(a =~= a1.push(x));
        assert(b =~= b1.push(y));
    }
}

} // verus!
