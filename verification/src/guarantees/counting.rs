//! Counting, by the places that are counted.

use vstd::prelude::*;

use crate::request::RequestView;
use crate::store;

verus! {

/// The places of a list where something holds.
pub open spec fn places<A>(s: Seq<A>, f: spec_fn(A) -> bool) -> Set<int> {
    Set::new(|i: int| 0 <= i < s.len() && f(s[i]))
}

/// Keeping what something holds of keeps as many as there are places where it
/// does.
pub proof fn lemma_places<A>(s: Seq<A>, f: spec_fn(A) -> bool)
    ensures
        places(s, f).finite(),
        places(s, f).len() == s.filter(f).len(),
    decreases s.len(),
{
    reveal(Seq::filter);
    if s.len() == 0 {
        assert(places(s, f) =~= Set::<int>::empty());
    } else {
        let d = s.drop_last();
        let n = s.len() - 1;
        lemma_places(d, f);
        if f(s.last()) {
            assert(places(s, f) =~= places(d, f).insert(n));
            assert(!places(d, f).contains(n));
        } else {
            assert(places(s, f) =~= places(d, f));
        }
    }
}

/// The drafting runs of a repository since a moment: which record, and which of
/// its hand-offs.
pub open spec fn runs_since(s: Seq<RequestView>, repo: Seq<char>, since_ms: int) -> Set<(int, int)> {
    Set::new(
        |p: (int, int)|
            0 <= p.0 < s.len() && s[p.0].repo == repo && 0 <= p.1 < s[p.0].drafts.len()
                && s[p.0].drafts[p.1] >= since_ms,
    )
}

/// The runs that are counted are the runs there are.
pub proof fn lemma_runs(s: Seq<RequestView>, repo: Seq<char>, since_ms: u64)
    ensures
        runs_since(s, repo, since_ms as int).finite(),
        runs_since(s, repo, since_ms as int).len() == store::runs_for(s, repo, since_ms),
    decreases s.len(),
{
    let all = runs_since(s, repo, since_ms as int);
    if s.len() == 0 {
        assert(all =~= Set::<(int, int)>::empty());
    } else {
        let d = s.drop_last();
        let n = s.len() - 1;
        lemma_runs(d, repo, since_ms);
        let before = runs_since(d, repo, since_ms as int);
        if s.last().repo == repo {
            let late = |t: u64| t >= since_ms;
            let hits = places(s.last().drafts, late);
            lemma_places(s.last().drafts, late);
            let here = hits.map(|k: int| (n, k));
            assert(vstd::relations::injective_on(|k: int| (n, k), hits));
            vstd::set_lib::lemma_map_size(hits, here, |k: int| (n, k));
            assert forall|p: (int, int)| #[trigger] here.contains(p) == (p.0 == n && hits.contains(
                p.1,
            )) by {
                if p.0 == n && hits.contains(p.1) {
                    assert(p == (|k: int| (n, k))(p.1));
                }
            }
            assert(all =~= before + here);
            assert(before.disjoint(here));
            vstd::set_lib::lemma_set_disjoint_lens(before, here);
        } else {
            assert(all =~= before);
        }
    }
}

} // verus!
