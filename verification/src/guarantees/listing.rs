//! The order of a list, and the words for what is on it.

use vstd::prelude::*;
use vstd::string::*;

use crate::request;
use crate::request::{IntakeKind, RequestState, RequestView};
use crate::routes::listing;
use crate::text;

verus! {

/// Which states come first in a list.
pub open spec fn turn(state: RequestState) -> int {
    match state {
        RequestState::AwaitingReview => 1,
        RequestState::Claimed => 2,
        RequestState::Queued => 3,
        RequestState::Screening => 4,
        RequestState::Quarantined => 5,
        RequestState::Failed => 6,
        RequestState::Accepted => 7,
        RequestState::Discarded => 8,
    }
}

/// A list holds the requests it was made of, as they are: what awaits review
/// first, then what is drafted, queued, screened, held, failed, ready and
/// discarded, and of those in one state the newest first.
pub proof fn law_a_list_is_in_order(
    before: Seq<RequestView>,
    after: Seq<RequestView>,
    i: int,
    j: int,
)
    requires
        listing::arranged(before, after),
        0 <= i < j < after.len(),
    ensures
        after.len() == before.len(),
        turn(after[i].state) <= turn(after[j].state),
        after[i].state == after[j].state ==> after[i].filed_ms >= after[j].filed_ms,
        exists|k: int| 0 <= k < before.len() && #[trigger] before[k] == after[i],
{
    assert(!listing::listed_before(after[j], after[i]));
    before.to_multiset_ensures();
    after.to_multiset_ensures();
    assert(after.contains(after[i]));
    assert(before.to_multiset().count(after[i]) > 0);
    assert(before.contains(after[i]));
}

/// The first line of a text is what stands before its first break, without the
/// space around it.
pub proof fn law_a_first_line_ends_at_the_break(line: Seq<char>, rest: Seq<char>)
    requires
        !line.contains('\n'),
    ensures
        request::first_line(line) == text::trimmed(line),
        request::first_line(line + seq!['\n'] + rest) == text::trimmed(line),
{
    crate::guarantees::wording::law_a_text_is_cut_at_the_mark(line, '\n', rest);
}

/// The four kinds are read from their own words, and from no other.
pub proof fn law_a_kind_is_read_from_its_word(slug: Seq<char>)
    ensures
        request::kind_of("bug"@) == Some(IntakeKind::Bug),
        request::kind_of("feature"@) == Some(IntakeKind::Feature),
        request::kind_of("improvement"@) == Some(IntakeKind::Improvement),
        request::kind_of("feedback"@) == Some(IntakeKind::Feedback),
        slug != "bug"@ && slug != "feature"@ && slug != "improvement"@ && slug != "feedback"@
            ==> request::kind_of(slug) is None,
{
    reveal_strlit("bug");
    reveal_strlit("feature");
    reveal_strlit("improvement");
    reveal_strlit("feedback");
    assert("bug"@.len() == 3 && "feature"@.len() == 7);
    assert("improvement"@.len() == 11 && "feedback"@.len() == 8);
}

/// Each state has its own word.
pub proof fn law_a_state_has_its_word(a: RequestState, b: RequestState)
    ensures
        request::state_label(RequestState::Screening) == "screening"@,
        request::state_label(RequestState::Queued) == "queued"@,
        request::state_label(RequestState::Claimed) == "drafting"@,
        request::state_label(RequestState::AwaitingReview) == "awaiting review"@,
        request::state_label(RequestState::Accepted) == "ready"@,
        request::state_label(RequestState::Quarantined) == "quarantined"@,
        request::state_label(RequestState::Discarded) == "discarded"@,
        request::state_label(RequestState::Failed) == "failed"@,
        request::state_label(a) == request::state_label(b) ==> a == b,
{
    reveal_strlit("screening");
    reveal_strlit("queued");
    reveal_strlit("drafting");
    reveal_strlit("awaiting review");
    reveal_strlit("ready");
    reveal_strlit("quarantined");
    reveal_strlit("discarded");
    reveal_strlit("failed");
    assert("screening"@[0] == 's' && "queued"@[0] == 'q' && "drafting"@.len() == 8);
    assert("awaiting review"@[0] == 'a' && "ready"@[0] == 'r' && "quarantined"@.len() == 11);
    assert("queued"@.len() == 6 && "quarantined"@[0] == 'q' && "discarded"@.len() == 9);
    assert("drafting"@[0] == 'd' && "discarded"@[0] == 'd' && "failed"@[0] == 'f');
}

/// A request starts as what was filed, and with nothing drafted, noted or claimed.
pub proof fn law_a_request_starts_as_it_was_filed(
    id: Seq<char>,
    words: Seq<char>,
    repo: Seq<char>,
    kind: IntakeKind,
    state: RequestState,
    account_id: Option<Seq<char>>,
    filed_ms: u64,
)
    ensures
        ({
            let q = request::fresh(id, words, repo, kind, state, account_id, filed_ms);
            &&& q.id == id
            &&& q.text == words
            &&& q.repo == repo
            &&& q.kind == kind
            &&& q.state == state
            &&& q.account_id == account_id
            &&& q.filed_ms == filed_ms
            &&& q.spec is None
            &&& q.artifact_dir is None
            &&& q.note is None
            &&& q.send_back_note is None
            &&& q.drafted_ms is None
            &&& q.claimed_ms is None
            &&& q.claimed_by is None
            &&& q.drafts.len() == 0
        }),
{
}

} // verus!
