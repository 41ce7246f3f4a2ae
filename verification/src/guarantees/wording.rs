//! Reading and writing text: what is cut, what is counted, and what comes first.

use vstd::prelude::*;

use crate::text;

verus! {

/// Is there nothing but whitespace here?
pub open spec fn all_white(s: Seq<char>) -> bool {
    forall|i: int| 0 <= i < s.len() ==> text::is_white(#[trigger] s[i])
}

proof fn lemma_front_goes(a: Seq<char>, m: Seq<char>)
    requires
        all_white(a),
        m.len() == 0 || !text::is_white(m[0]),
    ensures
        text::trim_front(a + m) == m,
    decreases a.len(),
{
    if a.len() == 0 {
        assert(a + m =~= m);
    } else {
        assert((a + m)[0] == a[0]);
        assert((a + m).skip(1) =~= a.skip(1) + m);
        assert forall|i: int| 0 <= i < a.skip(1).len() implies text::is_white(
            #[trigger] a.skip(1)[i],
        ) by {
            assert(a.skip(1)[i] == a[i + 1]);
        }
        lemma_front_goes(a.skip(1), m);
    }
}

proof fn lemma_back_goes(m: Seq<char>, b: Seq<char>)
    requires
        all_white(b),
        m.len() == 0 || !text::is_white(m.last()),
    ensures
        text::trim_back(m + b) == m,
    decreases b.len(),
{
    if b.len() == 0 {
        assert(m + b =~= m);
    } else {
        assert((m + b).last() == b.last());
        assert(text::is_white(b[b.len() - 1]));
        assert((m + b).drop_last() =~= m + b.drop_last());
        assert forall|i: int| 0 <= i < b.drop_last().len() implies text::is_white(
            #[trigger] b.drop_last()[i],
        ) by {
            assert(b.drop_last()[i] == b[i]);
        }
        lemma_back_goes(m, b.drop_last());
    }
}

/// Trimming takes the whitespace around a text, all of it, and nothing else.
pub proof fn law_trimming_takes_the_space_around(a: Seq<char>, m: Seq<char>, b: Seq<char>)
    requires
        all_white(a),
        all_white(b),
        m.len() == 0 || (!text::is_white(m[0]) && !text::is_white(m.last())),
    ensures
        text::trimmed(a + m + b) == m,
        text::trim_front(a + m) == m,
{
    lemma_front_goes(a, m);
    if m.len() == 0 {
        assert(a + m + b =~= a + b + m);
        assert forall|i: int| 0 <= i < (a + b).len() implies text::is_white(
            #[trigger] (a + b)[i],
        ) by {
            if i < a.len() {
                assert((a + b)[i] == a[i]);
            } else {
                assert((a + b)[i] == b[i - a.len()]);
            }
        }
        lemma_front_goes(a + b, m);
    } else {
        assert(a + m + b =~= a + (m + b));
        assert((m + b)[0] == m[0]);
        lemma_front_goes(a, m + b);
        lemma_back_goes(m, b);
    }
}

/// Capitals are made small and small letters capital within the twenty-six, and
/// every other character stays.
pub proof fn law_letters_change_case(s: Seq<char>, i: int)
    requires
        0 <= i < s.len(),
    ensures
        text::lower(s).len() == s.len(),
        text::lower(s)[i] as int == (if 0x41 <= s[i] as int <= 0x5a {
            s[i] as int + 32
        } else {
            s[i] as int
        }),
        text::upper(s).len() == s.len(),
        text::upper(s)[i] as int == (if 0x61 <= s[i] as int <= 0x7a {
            s[i] as int - 32
        } else {
            s[i] as int
        }),
{
}

/// A word starts where something that is not whitespace stands first or behind
/// whitespace, and there are as many words as such places.
pub proof fn law_words_are_counted_where_they_start(s: Seq<char>)
    ensures
        ({
            let starts = Set::new(
                |i: int|
                    0 <= i < s.len() && !text::is_white(s[i]) && (i == 0 || text::is_white(
                        s[i - 1],
                    )),
            );
            starts.finite() && starts.len() == text::word_count(s)
        }),
    decreases s.len(),
{
    let starts = Set::new(
        |i: int|
            0 <= i < s.len() && !text::is_white(s[i]) && (i == 0 || text::is_white(s[i - 1])),
    );
    if s.len() == 0 {
        assert(starts =~= Set::<int>::empty());
    } else {
        let d = s.drop_last();
        let n = s.len() - 1;
        law_words_are_counted_where_they_start(d);
        let before = Set::new(
            |i: int|
                0 <= i < d.len() && !text::is_white(d[i]) && (i == 0 || text::is_white(d[i - 1])),
        );
        if !text::is_white(s[n]) && (n == 0 || text::is_white(s[n - 1])) {
            assert(starts =~= before.insert(n));
            assert(!before.contains(n));
        } else {
            assert(starts =~= before);
        }
    }
}

/// A text is cut at every mark: what stands before the first is the first piece,
/// and the rest is cut as it would be alone. Where only the first mark counts,
/// what stands behind it is left whole.
pub proof fn law_a_text_is_cut_at_the_mark(a: Seq<char>, c: char, b: Seq<char>)
    requires
        !a.contains(c),
    ensures
        text::pieces(a, c) == seq![a],
        text::pieces(a + seq![c] + b, c) == seq![a] + text::pieces(b, c),
        text::head(a, c) == a,
        text::head(a + seq![c] + b, c) == a,
        text::split_at_first(a, c) is None,
        text::split_at_first(a + seq![c] + b, c) == Some((a, b)),
{
    let s = a + seq![c] + b;
    assert forall|j: int| 0 <= j < a.len() implies a[j] != c by {
        assert(a.contains(a[j]));
    }
    text::lemma_first_is_none(a, c);
    assert forall|j: int| 0 <= j < a.len() implies s[j] != c by {
        assert(s[j] == a[j]);
    }
    text::lemma_first_is(s, c, a.len() as int);
    assert(s.take(a.len() as int) =~= a);
    assert(s.skip(a.len() as int + 1) =~= b);
}

/// The marks behind a text go, all of them, and nothing else.
pub proof fn law_trailing_marks_go(a: Seq<char>, c: char, n: nat)
    requires
        a.len() == 0 || a.last() != c,
    ensures
        text::trim_back_char(a + Seq::new(n, |i: int| c), c) == a,
    decreases n,
{
    let s = a + Seq::new(n, |i: int| c);
    if n == 0 {
        assert(s =~= a);
    } else {
        let m = (n - 1) as nat;
        assert(s.last() == c);
        assert(s.drop_last() =~= a + Seq::new(m, |i: int| c));
        law_trailing_marks_go(a, c, m);
    }
}

/// What a row of decimal digits comes to.
pub open spec fn read_decimal(s: Seq<char>) -> int
    decreases s.len(),
{
    if s.len() == 0 {
        0
    } else {
        10 * read_decimal(s.drop_last()) + (s.last() as int - 0x30)
    }
}

/// A number is written with digits alone, reads back as itself, and has no zero
/// in front that it could do without.
pub proof fn law_a_number_reads_back(n: nat)
    ensures
        read_decimal(text::decimal(n)) == n,
        text::decimal(n).len() > 0,
        text::decimal(n)[0] == '0' ==> n == 0,
        forall|i: int|
            0 <= i < text::decimal(n).len() ==> '0' <= #[trigger] text::decimal(n)[i] <= '9',
    decreases n,
{
    let s = text::decimal(n);
    if n < 10 {
        assert(s.drop_last() =~= Seq::<char>::empty());
        assert(s.last() as int == 0x30 + n);
        assert(read_decimal(s.drop_last()) == 0);
    } else {
        let front = text::decimal(n / 10);
        law_a_number_reads_back(n / 10);
        assert(s.drop_last() =~= front);
        assert(s.last() as int == 0x30 + n % 10);
        assert(s[0] == front[0]);
        assert forall|i: int| 0 <= i < s.len() implies '0' <= #[trigger] s[i] <= '9' by {
            if i < front.len() {
                assert(s[i] == front[i]);
            }
        }
    }
}

/// Padding brings a text to a width with what is put in front, and cuts nothing.
pub proof fn law_padding_only_adds(s: Seq<char>, width: nat, c: char)
    ensures
        ({
            let p = text::pad_front(s, width, c);
            &&& p.len() == if s.len() >= width {
                s.len()
            } else {
                width
            }
            &&& p.skip(p.len() - s.len()) == s
            &&& forall|i: int| 0 <= i < p.len() - s.len() ==> #[trigger] p[i] == c
        }),
{
    let p = text::pad_front(s, width, c);
    assert(p.skip(p.len() - s.len()) =~= s);
}

/// One text sorts before another where they first differ, by the smaller
/// character or by ending there.
pub proof fn law_texts_sort_by_where_they_differ(a: Seq<char>, b: Seq<char>, k: int)
    requires
        0 <= k <= a.len(),
        k <= b.len(),
        forall|i: int| 0 <= i < k ==> a[i] == b[i],
    ensures
        k == a.len() && k < b.len() ==> text::sorts_before(a, b),
        k == b.len() ==> !text::sorts_before(a, b),
        k < a.len() && k < b.len() && (a[k] as int) < (b[k] as int) ==> text::sorts_before(a, b),
        k < a.len() && k < b.len() && a[k] as int > b[k] as int ==> !text::sorts_before(a, b),
    decreases k,
{
    if k > 0 {
        assert forall|i: int| 0 <= i < k - 1 implies a.skip(1)[i] == b.skip(1)[i] by {
            assert(a[i + 1] == b[i + 1]);
        }
        assert(a[0] == b[0]);
        law_texts_sort_by_where_they_differ(a.skip(1), b.skip(1), k - 1);
        if k < a.len() {
            assert(a.skip(1)[k - 1] == a[k]);
        }
        if k < b.len() {
            assert(b.skip(1)[k - 1] == b[k]);
        }
    }
}

} // verus!
