//! Scoring a screener.

use vstd::prelude::*;
use vstd::string::*;

use crate::screen::{Screener, Verdict};
use crate::screen_eval;
use crate::screen_eval::{CaseView, Corpus, Label, Score};
use crate::text;

verus! {

/// The cases with a label that were given a verdict, by where they stand.
pub open spec fn given(
    cases: Seq<CaseView>,
    verdicts: Seq<Verdict>,
    label: Label,
    verdict: Verdict,
) -> Set<int> {
    Set::new(|i: int| 0 <= i < cases.len() && cases[i].label == label && verdicts[i] == verdict)
}

proof fn lemma_given(
    cases: Seq<CaseView>,
    verdicts: Seq<Verdict>,
    label: Label,
    verdict: Verdict,
)
    requires
        verdicts.len() == cases.len(),
    ensures
        given(cases, verdicts, label, verdict).finite(),
        given(cases, verdicts, label, verdict).len() == screen_eval::counted(
            cases,
            verdicts,
            label,
            verdict,
        ),
    decreases cases.len(),
{
    let all = given(cases, verdicts, label, verdict);
    if cases.len() == 0 {
        assert(all =~= Set::<int>::empty());
    } else {
        let n = cases.len() - 1;
        let d = cases.drop_last();
        let v = verdicts.take(n);
        lemma_given(d, v, label, verdict);
        if cases.last().label == label && verdicts[n] == verdict {
            assert(all =~= given(d, v, label, verdict).insert(n));
            assert(!given(d, v, label, verdict).contains(n));
        } else {
            assert(all =~= given(d, v, label, verdict));
        }
    }
}

/// A score counts the cases by what they are and what was said of them: spam
/// caught and missed, and requests held and let through; and it names every
/// request that was held, and nothing else.
pub proof fn law_a_score_counts_the_cases(
    s: Score,
    cases: Seq<CaseView>,
    verdicts: Seq<Verdict>,
    id: Seq<char>,
)
    requires
        verdicts.len() == cases.len(),
        screen_eval::scored(s, cases, verdicts),
    ensures
        s.true_positive == given(cases, verdicts, Label::Spam, Verdict::Quarantine).len(),
        s.false_negative == given(cases, verdicts, Label::Spam, Verdict::Admit).len(),
        s.false_positive == given(cases, verdicts, Label::Legitimate, Verdict::Quarantine).len(),
        s.true_negative == given(cases, verdicts, Label::Legitimate, Verdict::Admit).len(),
        s.wrongly_held@.len() == s.false_positive,
        (exists|k: int| 0 <= k < s.wrongly_held@.len() && (#[trigger] s.wrongly_held@[k])@ == id)
            <==> exists|i: int|
            0 <= i < cases.len() && (#[trigger] cases[i]).label == Label::Legitimate && cases[i].id
                == id && verdicts[i] == Verdict::Quarantine,
{
    lemma_given(cases, verdicts, Label::Spam, Verdict::Quarantine);
    lemma_given(cases, verdicts, Label::Spam, Verdict::Admit);
    lemma_given(cases, verdicts, Label::Legitimate, Verdict::Quarantine);
    lemma_given(cases, verdicts, Label::Legitimate, Verdict::Admit);
    screen_eval::law_every_case_is_counted_once(cases, verdicts);
    lemma_named(cases, verdicts, id);
    let named = text::texts(s.wrongly_held@);
    assert(named.len() == s.wrongly_held@.len());
    if exists|k: int| 0 <= k < s.wrongly_held@.len() && (#[trigger] s.wrongly_held@[k])@ == id {
        let k = choose|k: int|
            0 <= k < s.wrongly_held@.len() && (#[trigger] s.wrongly_held@[k])@ == id;
        assert(named[k] == id);
    }
    if named.contains(id) {
        let k = choose|k: int| 0 <= k < named.len() && named[k] == id;
        assert(s.wrongly_held@[k]@ == id);
    }
}

proof fn lemma_named(cases: Seq<CaseView>, verdicts: Seq<Verdict>, id: Seq<char>)
    requires
        verdicts.len() == cases.len(),
    ensures
        screen_eval::held_wrongly(cases, verdicts).contains(id) <==> exists|i: int|
            0 <= i < cases.len() && (#[trigger] cases[i]).label == Label::Legitimate && cases[i].id
                == id && verdicts[i] == Verdict::Quarantine,
    decreases cases.len(),
{
    if cases.len() > 0 {
        let n = cases.len() - 1;
        let d = cases.drop_last();
        let v = verdicts.take(n);
        lemma_named(d, v, id);
        let all = screen_eval::held_wrongly(cases, verdicts);
        let before = screen_eval::held_wrongly(d, v);
        if all.contains(id) {
            let k = choose|k: int| 0 <= k < all.len() && all[k] == id;
            if k < before.len() {
                assert(before[k] == id);
                assert(before.contains(id));
                let i = choose|i: int|
                    0 <= i < d.len() && (#[trigger] d[i]).label == Label::Legitimate && d[i].id
                        == id && v[i] == Verdict::Quarantine;
                assert(cases[i] == d[i]);
            } else {
                assert(cases[n] == cases.last());
            }
        }
        if exists|i: int|
            0 <= i < cases.len() && (#[trigger] cases[i]).label == Label::Legitimate && cases[i].id
                == id && verdicts[i] == Verdict::Quarantine {
            let i = choose|i: int|
                0 <= i < cases.len() && (#[trigger] cases[i]).label == Label::Legitimate
                    && cases[i].id == id && verdicts[i] == Verdict::Quarantine;
            if i < n {
                assert(d[i] == cases[i]);
                assert(before.contains(id));
                let k = choose|k: int| 0 <= k < before.len() && before[k] == id;
                assert(all[k] == id);
            } else {
                assert(all[all.len() - 1] == id);
            }
        }
    }
}

/// Precision is the spam among what was held, and recall the spam that was held
/// among all of it; neither is measured where there was nothing to measure.
pub proof fn law_the_shares_of_a_score(
    s: Score,
    precision: Option<(usize, usize)>,
    recall: Option<(usize, usize)>,
)
    requires
        s.true_positive + s.false_positive <= usize::MAX,
        s.true_positive + s.false_negative <= usize::MAX,
        call_ensures(Score::precision, (&s,), precision),
        call_ensures(Score::recall, (&s,), recall),
    ensures
        precision is None <==> s.true_positive == 0 && s.false_positive == 0,
        precision matches Some((part, whole)) ==> part == s.true_positive && whole
            == s.true_positive + s.false_positive,
        recall is None <==> s.true_positive == 0 && s.false_negative == 0,
        recall matches Some((part, whole)) ==> part == s.true_positive && whole == s.true_positive
            + s.false_negative,
{
}

/// The lines that name what was held name each once, one to a line.
pub proof fn law_each_that_was_held_has_a_line(ids: Seq<Seq<char>>, id: Seq<char>)
    ensures
        screen_eval::held_lines(Seq::empty()) == Seq::<char>::empty(),
        screen_eval::held_lines(ids.push(id)) == screen_eval::held_lines(ids) + "  · "@ + id
            + "\n"@,
{
    assert(ids.push(id).drop_last() =~= ids);
}

/// A screener is scored by verdicts of its own, one on each case's text.
pub proof fn law_a_screener_is_scored_by_its_own_verdicts<S: Screener + ?Sized>(
    screener: &S,
    corpus: Corpus,
    r: Score,
)
    requires
        call_ensures(screen_eval::score::<S>, (screener, &corpus), r),
    ensures
        exists|verdicts: Seq<Verdict>|
            {
                &&& verdicts.len() == corpus@.len()
                &&& forall|i: int|
                    0 <= i < corpus@.len() ==> screen_eval::may_say(
                        screener,
                        corpus@[i].text,
                        #[trigger] verdicts[i],
                    )
                &&& r.true_positive == #[trigger] given(
                    corpus@,
                    verdicts,
                    Label::Spam,
                    Verdict::Quarantine,
                ).len()
                &&& r.false_positive == given(
                    corpus@,
                    verdicts,
                    Label::Legitimate,
                    Verdict::Quarantine,
                ).len()
                &&& r.false_negative == given(corpus@, verdicts, Label::Spam, Verdict::Admit).len()
                &&& r.true_negative == given(
                    corpus@,
                    verdicts,
                    Label::Legitimate,
                    Verdict::Admit,
                ).len()
            },
{
    let verdicts = choose|verdicts: Seq<Verdict>| #[trigger]
        screen_eval::judged(screener, corpus@, verdicts) && screen_eval::scored(
            r,
            corpus@,
            verdicts,
        );
    law_a_score_counts_the_cases(r, corpus@, verdicts, Seq::empty());
    assert(given(corpus@, verdicts, Label::Spam, Verdict::Quarantine).len() == r.true_positive);
}

} // verus!
