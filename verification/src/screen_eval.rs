//! The screener's evaluation corpus, and what it proves.

use vstd::prelude::*;
use vstd::string::*;

use crate::screen::{Screener, Verdict};
use crate::text;
use crate::text::{number, owned, padded_number};

verus! {

/// What a correct classifier should say about a case.
#[derive(Debug, Clone, Copy, PartialEq, Eq, Structural)]
pub enum Label {
    /// A legitimate request. Quarantining it is the expensive failure.
    Legitimate,
    /// Junk. Admitting it wastes one drafting run.
    Spam,
}

/// One labelled request.
pub struct Case {
    pub id: String,
    pub label: Label,
    pub text: String,
    /// Does this case try to talk the classifier out of its job?
    pub injection: bool,
}

/// One labelled request, as contracts speak of it.
pub struct CaseView {
    pub id: Seq<char>,
    pub label: Label,
    pub text: Seq<char>,
    pub injection: bool,
}

impl View for Case {
    type V = CaseView;

    open spec fn view(&self) -> CaseView {
        CaseView { id: self.id@, label: self.label, text: self.text@, injection: self.injection }
    }
}

/// The corpus.
pub struct Corpus {
    pub cases: Vec<Case>,
}

impl View for Corpus {
    type V = Seq<CaseView>;

    open spec fn view(&self) -> Seq<CaseView> {
        self.cases@.map_values(|c: Case| c@)
    }
}

impl Corpus {
    /// The cases that try to talk the classifier out of its job, in order.
    pub fn injections(&self) -> (r: Vec<&Case>)
        ensures
            r@.map_values(|c: &Case| c@) == self@.filter(|c: CaseView| c.injection),
    {
        let ghost hostile = |c: CaseView| c.injection;
        let mut out: Vec<&Case> = Vec::new();
        let mut i: usize = 0;
        proof {
            reveal(Seq::filter);
        }
        assert(out@.map_values(|c: &Case| c@) =~= self@.take(0).filter(hostile));
        while i < self.cases.len()
            invariant
                i <= self.cases@.len(),
                hostile == (|c: CaseView| c.injection),
                out@.map_values(|c: &Case| c@) == self@.take(i as int).filter(hostile),
            decreases self.cases@.len() - i,
        {
            let ghost before = out@;
            proof {
                reveal(Seq::filter);
                assert(self@.take(i + 1).drop_last() =~= self@.take(i as int));
                assert(self@[i as int] == self.cases@[i as int]@);
            }
            if self.cases[i].injection {
                out.push(&self.cases[i]);
                assert(out@.map_values(|c: &Case| c@) =~= before.map_values(|c: &Case| c@).push(
                    self@[i as int],
                ));
            }
            i = i + 1;
        }
        assert(self@.take(i as int) =~= self@);
        out
    }
}

/// How a screener scored against the corpus.
pub struct Score {
    /// Spam, correctly quarantined.
    pub true_positive: usize,
    /// Legitimate, wrongly quarantined. The failure that matters.
    pub false_positive: usize,
    /// Spam that got through.
    pub false_negative: usize,
    /// Legitimate, correctly admitted.
    pub true_negative: usize,
    /// The ids of every legitimate request that was quarantined.
    pub wrongly_held: Vec<String>,
}

impl Default for Score {
    /// Nothing was scored.
    fn default() -> (r: Self)
        ensures
            r.true_positive == 0,
            r.false_positive == 0,
            r.false_negative == 0,
            r.true_negative == 0,
            r.wrongly_held@.len() == 0,
    {
        Score {
            true_positive: 0,
            false_positive: 0,
            false_negative: 0,
            true_negative: 0,
            wrongly_held: Vec::new(),
        }
    }
}

/// How many cases with a label were given a verdict.
pub open spec fn counted(
    cases: Seq<CaseView>,
    verdicts: Seq<Verdict>,
    label: Label,
    verdict: Verdict,
) -> nat
    decreases cases.len(),
{
    if cases.len() == 0 {
        0
    } else {
        counted(cases.drop_last(), verdicts.take(cases.len() - 1), label, verdict) + if cases.last().label
            == label && verdicts[cases.len() - 1] == verdict {
            1nat
        } else {
            0nat
        }
    }
}

/// The ids of the legitimate cases that were quarantined, in order.
pub open spec fn held_wrongly(cases: Seq<CaseView>, verdicts: Seq<Verdict>) -> Seq<Seq<char>>
    decreases cases.len(),
{
    if cases.len() == 0 {
        Seq::empty()
    } else {
        let rest = held_wrongly(cases.drop_last(), verdicts.take(cases.len() - 1));
        if cases.last().label == Label::Legitimate && verdicts[cases.len() - 1] == Verdict::Quarantine {
            rest.push(cases.last().id)
        } else {
            rest
        }
    }
}

/// Is this the score of these verdicts on these cases?
pub open spec fn scored(s: Score, cases: Seq<CaseView>, verdicts: Seq<Verdict>) -> bool {
    &&& s.true_positive == counted(cases, verdicts, Label::Spam, Verdict::Quarantine)
    &&& s.false_negative == counted(cases, verdicts, Label::Spam, Verdict::Admit)
    &&& s.false_positive == counted(cases, verdicts, Label::Legitimate, Verdict::Quarantine)
    &&& s.true_negative == counted(cases, verdicts, Label::Legitimate, Verdict::Admit)
    &&& text::texts(s.wrongly_held@) == held_wrongly(cases, verdicts)
}

/// Every case is counted once, and every legitimate one that was held is named.
pub proof fn law_every_case_is_counted_once(cases: Seq<CaseView>, verdicts: Seq<Verdict>)
    requires
        verdicts.len() == cases.len(),
    ensures
        counted(cases, verdicts, Label::Spam, Verdict::Quarantine) + counted(
            cases,
            verdicts,
            Label::Spam,
            Verdict::Admit,
        ) + counted(cases, verdicts, Label::Legitimate, Verdict::Quarantine) + counted(
            cases,
            verdicts,
            Label::Legitimate,
            Verdict::Admit,
        ) == cases.len(),
        held_wrongly(cases, verdicts).len() == counted(
            cases,
            verdicts,
            Label::Legitimate,
            Verdict::Quarantine,
        ),
    decreases cases.len(),
{
    if cases.len() > 0 {
        law_every_case_is_counted_once(cases.drop_last(), verdicts.take(cases.len() - 1));
    }
}

/// A screener that admits everything holds nothing, rightly or wrongly.
pub proof fn law_admitting_everything_holds_nothing(cases: Seq<CaseView>, verdicts: Seq<Verdict>)
    requires
        verdicts.len() == cases.len(),
        forall|i: int| 0 <= i < verdicts.len() ==> verdicts[i] == Verdict::Admit,
    ensures
        counted(cases, verdicts, Label::Spam, Verdict::Quarantine) == 0,
        counted(cases, verdicts, Label::Legitimate, Verdict::Quarantine) == 0,
        held_wrongly(cases, verdicts).len() == 0,
    decreases cases.len(),
{
    if cases.len() > 0 {
        law_admitting_everything_holds_nothing(cases.drop_last(), verdicts.take(cases.len() - 1));
    }
}

impl Score {
    /// How many cases were scored.
    pub fn total(&self) -> (r: usize)
        requires
            self.true_positive + self.false_positive + self.false_negative + self.true_negative
                <= usize::MAX,
        ensures
            r == self.true_positive + self.false_positive + self.false_negative
                + self.true_negative,
    {
        self.true_positive + self.false_positive + self.false_negative + self.true_negative
    }

    /// Of the things it quarantined, how many deserved it: the part and the
    /// whole. `None` where it quarantined nothing, which is unmeasured and not
    /// perfect.
    pub fn precision(&self) -> (r: Option<(usize, usize)>)
        requires
            self.true_positive + self.false_positive <= usize::MAX,
        ensures
            r == (if self.true_positive + self.false_positive > 0 {
                Some((self.true_positive, (self.true_positive + self.false_positive) as usize))
            } else {
                None
            }),
    {
        let held = self.true_positive + self.false_positive;
        if held > 0 {
            Some((self.true_positive, held))
        } else {
            None
        }
    }

    /// Of the spam present, how much it caught: the part and the whole.
    pub fn recall(&self) -> (r: Option<(usize, usize)>)
        requires
            self.true_positive + self.false_negative <= usize::MAX,
        ensures
            r == (if self.true_positive + self.false_negative > 0 {
                Some((self.true_positive, (self.true_positive + self.false_negative) as usize))
            } else {
                None
            }),
    {
        let spam = self.true_positive + self.false_negative;
        if spam > 0 {
            Some((self.true_positive, spam))
        } else {
            None
        }
    }
}

/// The score of verdicts on a corpus, one verdict for each case.
pub fn tally(corpus: &Corpus, verdicts: &Vec<Verdict>) -> (r: Score)
    requires
        verdicts@.len() == corpus@.len(),
    ensures
        scored(r, corpus@, verdicts@),
        r.true_positive + r.false_positive + r.false_negative + r.true_negative == corpus@.len(),
        r.wrongly_held@.len() == r.false_positive,
{
    let mut s = Score::default();
    let mut i: usize = 0;
    assert(text::texts(s.wrongly_held@) =~= Seq::<Seq<char>>::empty());
    assert(corpus@.take(0).len() == 0);
    while i < corpus.cases.len()
        invariant
            i <= corpus.cases@.len(),
            verdicts@.len() == corpus@.len(),
            scored(s, corpus@.take(i as int), verdicts@.take(i as int)),
            s.true_positive <= i,
            s.false_positive <= i,
            s.false_negative <= i,
            s.true_negative <= i,
        decreases corpus.cases@.len() - i,
    {
        let ghost cs = corpus@.take(i + 1);
        let ghost vs = verdicts@.take(i + 1);
        assert(cs.drop_last() =~= corpus@.take(i as int));
        assert(vs.take(i as int) =~= verdicts@.take(i as int));
        assert(cs.last() == corpus.cases@[i as int]@);
        let ghost before = s.wrongly_held@;
        match (corpus.cases[i].label, verdicts[i]) {
            (Label::Spam, Verdict::Quarantine) => {
                s.true_positive = s.true_positive + 1;
            },
            (Label::Spam, Verdict::Admit) => {
                s.false_negative = s.false_negative + 1;
            },
            (Label::Legitimate, Verdict::Quarantine) => {
                s.false_positive = s.false_positive + 1;
                s.wrongly_held.push(corpus.cases[i].id.clone());
                assert(text::texts(s.wrongly_held@) =~= text::texts(before).push(
                    corpus.cases@[i as int].id@,
                ));
            },
            (Label::Legitimate, Verdict::Admit) => {
                s.true_negative = s.true_negative + 1;
            },
        }
        i = i + 1;
    }
    assert(corpus@.take(i as int) =~= corpus@);
    assert(verdicts@.take(i as int) =~= verdicts@);
    proof {
        law_every_case_is_counted_once(corpus@, verdicts@);
    }
    s
}

/// May the screener give this verdict on this text?
pub open spec fn may_say<S: Screener + ?Sized>(screener: &S, text: Seq<char>, verdict: Verdict) -> bool {
    exists|t: &str| (#[trigger] t@) == text && call_ensures(S::screen, (screener, t), verdict)
}

/// Did the screener give these verdicts on these cases, one after another?
pub open spec fn judged<S: Screener + ?Sized>(
    screener: &S,
    cases: Seq<CaseView>,
    verdicts: Seq<Verdict>,
) -> bool {
    &&& verdicts.len() == cases.len()
    &&& forall|i: int|
        0 <= i < cases.len() ==> may_say(screener, cases[i].text, #[trigger] verdicts[i])
}

/// Score a screener against a corpus.
pub fn score<S: Screener + ?Sized>(screener: &S, corpus: &Corpus) -> (r: Score)
    ensures
        exists|verdicts: Seq<Verdict>| #[trigger]
            judged(screener, corpus@, verdicts) && scored(r, corpus@, verdicts),
        r.true_positive + r.false_positive + r.false_negative + r.true_negative == corpus@.len(),
        r.wrongly_held@.len() == r.false_positive,
        // One that can only admit holds nothing, rightly or wrongly.
        (forall|text: Seq<char>, v: Verdict| #[trigger] may_say(screener, text, v) ==> v == Verdict::Admit)
            ==> r.true_positive == 0 && r.false_positive == 0,
{
    let mut verdicts: Vec<Verdict> = Vec::new();
    let mut i: usize = 0;
    while i < corpus.cases.len()
        invariant
            i <= corpus.cases@.len(),
            verdicts@.len() == i,
            forall|k: int|
                0 <= k < i ==> may_say(screener, corpus@[k].text, #[trigger] verdicts@[k]),
        decreases corpus.cases@.len() - i,
    {
        let t = corpus.cases[i].text.as_str();
        let v = screener.screen(t);
        verdicts.push(v);
        assert(may_say(screener, corpus@[i as int].text, v)) by {
            assert(t@ == corpus@[i as int].text);
        }
        i = i + 1;
    }
    assert(judged(screener, corpus@, verdicts@));
    proof {
        if forall|text: Seq<char>, v: Verdict| #[trigger]
            may_say(screener, text, v) ==> v == Verdict::Admit {
            assert forall|k: int| 0 <= k < verdicts@.len() implies verdicts@[k]
                == Verdict::Admit by {
                assert(may_say(screener, corpus@[k].text, verdicts@[k]));
            }
            law_admitting_everything_holds_nothing(corpus@, verdicts@);
        }
    }
    tally(corpus, &verdicts)
}

// ---------------------------------------------------------------------------
// The report
// ---------------------------------------------------------------------------

/// A share as the report shows it.
pub open spec fn share(o: Option<Seq<char>>) -> Seq<char> {
    match o {
        Some(s) => s,
        None => "n/a"@,
    }
}

/// The lines that name what was wrongly held.
pub open spec fn held_lines(ids: Seq<Seq<char>>) -> Seq<char>
    decreases ids.len(),
{
    if ids.len() == 0 {
        Seq::empty()
    } else {
        held_lines(ids.drop_last()) + "  · "@ + ids.last() + "\n"@
    }
}

/// The report on a score.
pub open spec fn report_text(
    s: Score,
    precision: Option<Seq<char>>,
    recall: Option<Seq<char>>,
) -> Seq<char> {
    "screened "@ + text::decimal(
        (s.true_positive + s.false_positive + s.false_negative + s.true_negative) as nat,
    ) + " cases\n\n  caught spam      "@ + text::pad_front(
        text::decimal(s.true_positive as nat),
        3,
        ' ',
    ) + "\n  missed spam      "@ + text::pad_front(text::decimal(s.false_negative as nat), 3, ' ')
        + "\n\n  precision        "@ + share(precision) + "\n  recall           "@ + share(recall)
        + "\n"@ + if s.wrongly_held@.len() == 0 {
        "\nNo legitimate request was held.\n"@
    } else {
        "\n"@ + text::decimal(s.wrongly_held@.len())
            + " legitimate request(s) WRONGLY HELD — the failure that matters, because a real person is told their report went through:\n"@
            + held_lines(text::texts(s.wrongly_held@))
    }
}

/// A human-readable report. The two shares come as they are to be shown, `None`
/// where [`Score::precision`] or [`Score::recall`] measured nothing.
pub fn report(s: &Score, precision: Option<&str>, recall: Option<&str>) -> (r: String)
    requires
        s.true_positive + s.false_positive + s.false_negative + s.true_negative <= usize::MAX,
    ensures
        r@ == report_text(*s, text::opt_str(precision), text::opt_str(recall)),
{
    let p = match precision {
        Some(x) => x,
        None => "n/a",
    };
    let q = match recall {
        Some(x) => x,
        None => "n/a",
    };
    let head = owned("screened ").concat(number(s.total() as u64).as_str()).concat(
        " cases\n\n  caught spam      ",
    ).concat(padded_number(s.true_positive as u64, 3, ' ').as_str()).concat(
        "\n  missed spam      ",
    ).concat(padded_number(s.false_negative as u64, 3, ' ').as_str()).concat(
        "\n\n  precision        ",
    ).concat(p).concat("\n  recall           ").concat(q).concat("\n");
    if s.wrongly_held.len() == 0 {
        return head.concat("\nNo legitimate request was held.\n");
    }
    let mut lines = String::new();
    let ghost ids = text::texts(s.wrongly_held@);
    let mut i: usize = 0;
    assert(ids.take(0) =~= Seq::<Seq<char>>::empty());
    while i < s.wrongly_held.len()
        invariant
            i <= s.wrongly_held@.len(),
            ids == text::texts(s.wrongly_held@),
            lines@ == held_lines(ids.take(i as int)),
        decreases s.wrongly_held@.len() - i,
    {
        assert(ids.take(i + 1).drop_last() =~= ids.take(i as int));
        lines = lines.concat("  · ").concat(s.wrongly_held[i].as_str()).concat("\n");
        i = i + 1;
    }
    assert(ids.take(i as int) =~= ids);
    let tail = owned("\n").concat(number(s.wrongly_held.len() as u64).as_str()).concat(
        " legitimate request(s) WRONGLY HELD — the failure that matters, because a real person is told their report went through:\n",
    ).concat(lines.as_str());
    head.concat(tail.as_str())
}

} // verus!
