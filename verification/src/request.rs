//! One filed request, and where it stands.

use vstd::prelude::*;
use vstd::string::*;

use crate::store::now_ms;
use crate::text;
use crate::text::{copy_opt, head_of, one_of, owned, same, trim};

verus! {

/// What a filer says a request is.
#[derive(Debug, Clone, Copy, PartialEq, Eq, Structural)]
pub enum IntakeKind {
    Bug,
    Feature,
    Improvement,
    Feedback,
}

/// The kind a slug names, where it names one.
pub open spec fn kind_of(slug: Seq<char>) -> Option<IntakeKind> {
    if slug == "bug"@ {
        Some(IntakeKind::Bug)
    } else if slug == "feature"@ {
        Some(IntakeKind::Feature)
    } else if slug == "improvement"@ {
        Some(IntakeKind::Improvement)
    } else if slug == "feedback"@ {
        Some(IntakeKind::Feedback)
    } else {
        None
    }
}

impl IntakeKind {
    /// Read a slug.
    pub fn parse(slug: &str) -> (r: Option<IntakeKind>)
        ensures
            r == kind_of(slug@),
    {
        if same(slug, "bug") {
            Some(IntakeKind::Bug)
        } else if same(slug, "feature") {
            Some(IntakeKind::Feature)
        } else if same(slug, "improvement") {
            Some(IntakeKind::Improvement)
        } else if same(slug, "feedback") {
            Some(IntakeKind::Feedback)
        } else {
            None
        }
    }
}

impl Default for IntakeKind {
    /// A label this server has not heard of is no reason to lose a request, so
    /// there is a kind to fall back on.
    fn default() -> (r: Self)
        ensures
            r == IntakeKind::Feature,
    {
        IntakeKind::Feature
    }
}

/// Where a request stands, from the server's point of view.
#[derive(Debug, Clone, Copy, PartialEq, Eq, Structural)]
pub enum RequestState {
    /// Filed publicly, waiting to be screened. Not claimable.
    Screening,
    /// Filed, waiting for a daemon to claim it.
    Queued,
    /// A daemon is drafting. The claim expires: see
    /// [`CLAIM_TIMEOUT_MS`](crate::store::CLAIM_TIMEOUT_MS).
    Claimed,
    /// A spec came back and is waiting for a human.
    AwaitingReview,
    /// Read, judged good, and done with here. Nothing was built.
    Accepted,
    /// The screener judged it spam. Kept, visible, and releasable.
    Quarantined,
    /// Dropped before approval.
    Discarded,
    /// A daemon reported it could not be drafted.
    Failed,
}

/// The word a page shows for a state.
pub open spec fn state_label(s: RequestState) -> Seq<char> {
    match s {
        RequestState::Screening => "screening"@,
        RequestState::Queued => "queued"@,
        RequestState::Claimed => "drafting"@,
        RequestState::AwaitingReview => "awaiting review"@,
        RequestState::Accepted => "ready"@,
        RequestState::Quarantined => "quarantined"@,
        RequestState::Discarded => "discarded"@,
        RequestState::Failed => "failed"@,
    }
}

/// Where a state stands in a list: what needs a human first, then what is in
/// flight, then what is settled.
pub open spec fn state_rank(s: RequestState) -> int {
    match s {
        RequestState::AwaitingReview => 0,
        RequestState::Claimed => 1,
        RequestState::Queued => 2,
        RequestState::Screening => 3,
        RequestState::Quarantined => 4,
        RequestState::Failed => 5,
        RequestState::Accepted => 6,
        RequestState::Discarded => 7,
    }
}

impl RequestState {
    /// The word a page shows.
    pub fn label(self) -> (r: &'static str)
        ensures
            r@ == state_label(self),
    {
        match self {
            RequestState::Screening => "screening",
            RequestState::Queued => "queued",
            RequestState::Claimed => "drafting",
            RequestState::AwaitingReview => "awaiting review",
            RequestState::Accepted => "ready",
            RequestState::Quarantined => "quarantined",
            RequestState::Discarded => "discarded",
            RequestState::Failed => "failed",
        }
    }

    /// What needs a human first, then what is in flight, then the settled.
    pub fn list_order(self) -> (r: u8)
        ensures
            r == state_rank(self),
    {
        match self {
            RequestState::AwaitingReview => 0,
            RequestState::Claimed => 1,
            RequestState::Queued => 2,
            RequestState::Screening => 3,
            RequestState::Quarantined => 4,
            RequestState::Failed => 5,
            RequestState::Accepted => 6,
            RequestState::Discarded => 7,
        }
    }

    /// Can a daemon claim work in this state? `Queued` and nothing else.
    pub fn is_claimable(self) -> (r: bool)
        ensures
            r == (self == RequestState::Queued),
    {
        matches!(self, RequestState::Queued)
    }
}

/// Which repositories a daemon will accept work for.
///
/// Two variants, because a list that somebody forgot to fill in must not mean
/// everything.
#[derive(Clone, Copy)]
pub enum Serves<'a> {
    /// The daemon named no repositories, and takes what there is.
    Anything,
    /// The daemon named the repositories it has a working tree for.
    These(&'a [String]),
}

/// Would a daemon that serves this take work for `repo`?
pub open spec fn serves_repo(serves: Serves<'_>, repo: Seq<char>) -> bool {
    match serves {
        Serves::Anything => true,
        Serves::These(names) => text::texts(names@).contains(repo),
    }
}

impl Serves<'_> {
    /// Would this daemon take work for `repo`? Exact and case-sensitive.
    pub fn accepts(&self, repo: &str) -> (r: bool)
        ensures
            r == serves_repo(*self, repo@),
    {
        match self {
            Serves::Anything => true,
            Serves::These(names) => one_of(names, repo),
        }
    }
}

/// A drafted spec and the digest that names its text.
///
/// The two travel together, so a draft that nothing could be accepted against
/// cannot be written down.
pub struct Draft {
    pub text: String,
    /// The digest of `text`, as whoever hashes for this server computed it.
    pub digest: String,
}

/// A drafted spec, as contracts speak of it.
pub struct DraftView {
    pub text: Seq<char>,
    pub digest: Seq<char>,
}

impl View for Draft {
    type V = DraftView;

    open spec fn view(&self) -> DraftView {
        DraftView { text: self.text@, digest: self.digest@ }
    }
}

/// One filed request.
pub struct Request {
    pub id: String,
    pub text: String,
    /// A repository name, never a path.
    pub repo: String,
    pub kind: IntakeKind,
    pub state: RequestState,
    pub filed_ms: u64,
    /// The drafted spec, once one has come back.
    pub spec: Option<Draft>,
    /// Where the spec landed in the repository.
    pub artifact_dir: Option<String>,
    /// Why it failed, or what was said when it was sent back.
    pub note: Option<String>,
    /// What was said when a draft was sent back, for the next claim.
    pub send_back_note: Option<String>,
    /// When the current draft came back, by this server's clock.
    pub drafted_ms: Option<u64>,
    /// Which public account filed this, if it came from the public surface.
    pub account_id: Option<String>,
    /// When the current claim was taken, by this server's clock.
    pub claimed_ms: Option<u64>,
    /// The label of the daemon that holds the current claim.
    pub claimed_by: Option<String>,
    /// When this request was handed to a daemon, one entry per hand-off.
    pub drafts: Vec<u64>,
}

/// One filed request, as contracts speak of it.
#[verifier::ext_equal]
pub struct RequestView {
    pub id: Seq<char>,
    pub text: Seq<char>,
    pub repo: Seq<char>,
    pub kind: IntakeKind,
    pub state: RequestState,
    pub filed_ms: u64,
    pub spec: Option<DraftView>,
    pub artifact_dir: Option<Seq<char>>,
    pub note: Option<Seq<char>>,
    pub send_back_note: Option<Seq<char>>,
    pub drafted_ms: Option<u64>,
    pub account_id: Option<Seq<char>>,
    pub claimed_ms: Option<u64>,
    pub claimed_by: Option<Seq<char>>,
    pub drafts: Seq<u64>,
}

/// A drafted spec that may be absent.
pub open spec fn draft_view(o: Option<Draft>) -> Option<DraftView> {
    match o {
        Some(d) => Some(d@),
        None => None,
    }
}

impl View for Request {
    type V = RequestView;

    open spec fn view(&self) -> RequestView {
        RequestView {
            id: self.id@,
            text: self.text@,
            repo: self.repo@,
            kind: self.kind,
            state: self.state,
            filed_ms: self.filed_ms,
            spec: draft_view(self.spec),
            artifact_dir: text::opt_view(self.artifact_dir),
            note: text::opt_view(self.note),
            send_back_note: text::opt_view(self.send_back_note),
            drafted_ms: self.drafted_ms,
            account_id: text::opt_view(self.account_id),
            claimed_ms: self.claimed_ms,
            claimed_by: text::opt_view(self.claimed_by),
            drafts: self.drafts@,
        }
    }
}

/// A request as it is when it has just been filed: nothing has happened to it.
pub open spec fn fresh(
    id: Seq<char>,
    text: Seq<char>,
    repo: Seq<char>,
    kind: IntakeKind,
    state: RequestState,
    account_id: Option<Seq<char>>,
    filed_ms: u64,
) -> RequestView {
    RequestView {
        id,
        text,
        repo,
        kind,
        state,
        filed_ms,
        spec: None,
        artifact_dir: None,
        note: None,
        send_back_note: None,
        drafted_ms: None,
        account_id,
        claimed_ms: None,
        claimed_by: None,
        drafts: Seq::empty(),
    }
}

fn copy_draft(o: &Option<Draft>) -> (r: Option<Draft>)
    ensures
        draft_view(r) == draft_view(*o),
{
    match o {
        Some(d) => Some(Draft { text: d.text.clone(), digest: d.digest.clone() }),
        None => None,
    }
}

fn copy_times(v: &Vec<u64>) -> (r: Vec<u64>)
    ensures
        r@ == v@,
{
    let mut out: Vec<u64> = Vec::new();
    let mut i: usize = 0;
    while i < v.len()
        invariant
            i <= v@.len(),
            out@ == v@.take(i as int),
        decreases v@.len() - i,
    {
        out.push(v[i]);
        i = i + 1;
        assert(out@ =~= v@.take(i as int));
    }
    assert(v@.take(i as int) =~= v@);
    out
}

impl Clone for Request {
    fn clone(&self) -> (r: Self)
        ensures
            r@ == self@,
    {
        Request {
            id: self.id.clone(),
            text: self.text.clone(),
            repo: self.repo.clone(),
            kind: self.kind,
            state: self.state,
            filed_ms: self.filed_ms,
            spec: copy_draft(&self.spec),
            artifact_dir: copy_opt(&self.artifact_dir),
            note: copy_opt(&self.note),
            send_back_note: copy_opt(&self.send_back_note),
            drafted_ms: self.drafted_ms,
            account_id: copy_opt(&self.account_id),
            claimed_ms: self.claimed_ms,
            claimed_by: copy_opt(&self.claimed_by),
            drafts: copy_times(&self.drafts),
        }
    }
}

/// The first line of a text, for a list.
pub open spec fn first_line(text: Seq<char>) -> Seq<char> {
    text::trimmed(text::head(text, '\n'))
}

impl Request {
    /// A request filed at a given moment, waiting for a daemon.
    pub fn filed_at(id: &str, text: &str, repo: &str, kind: IntakeKind, now_ms: u64) -> (r: Request)
        ensures
            r@ == fresh(id@, text@, repo@, kind, RequestState::Queued, None, now_ms),
    {
        let r = Request {
            id: owned(id),
            text: owned(text),
            repo: owned(repo),
            kind,
            state: RequestState::Queued,
            filed_ms: now_ms,
            spec: None,
            artifact_dir: None,
            note: None,
            send_back_note: None,
            drafted_ms: None,
            account_id: None,
            claimed_ms: None,
            claimed_by: None,
            drafts: Vec::new(),
        };
        assert(r@ =~= fresh(id@, text@, repo@, kind, RequestState::Queued, None, now_ms));
        r
    }

    /// A request filed now, by this machine's clock.
    pub fn new(id: &str, text: &str, repo: &str, kind: IntakeKind) -> (r: Request)
        ensures
            r@ == fresh(id@, text@, repo@, kind, RequestState::Queued, None, r@.filed_ms),
    {
        Request::filed_at(id, text, repo, kind, now_ms())
    }

    /// A request filed from the public surface by a signed-in account.
    ///
    /// It starts in `Screening` wherever there is a screener, so nothing
    /// unscreened can be claimed.
    pub fn public(
        id: &str,
        text: &str,
        repo: &str,
        kind: IntakeKind,
        account_id: &str,
        screened: bool,
        now_ms: u64,
    ) -> (r: Request)
        ensures
            r@ == fresh(
                id@,
                text@,
                repo@,
                kind,
                if screened {
                    RequestState::Screening
                } else {
                    RequestState::Queued
                },
                Some(account_id@),
                now_ms,
            ),
    {
        let mut r = Request::filed_at(id, text, repo, kind, now_ms);
        r.state = if screened {
            RequestState::Screening
        } else {
            RequestState::Queued
        };
        r.account_id = Some(owned(account_id));
        r
    }

    /// Was this filed by `account_id`? No account filed what the developer filed.
    pub fn filed_by(&self, account_id: &str) -> (r: bool)
        ensures
            r == (self@.account_id == Some(account_id@)),
    {
        match &self.account_id {
            Some(a) => same(a.as_str(), account_id),
            None => false,
        }
    }

    /// The first line, for a list.
    pub fn summary(&self) -> (r: &str)
        ensures
            r@ == first_line(self@.text),
    {
        trim(head_of(self.text.as_str(), '\n'))
    }

    /// The drafted spec's text, if there is a draft.
    pub fn spec_text(&self) -> (r: Option<&str>)
        ensures
            text::opt_str(r) == (match self@.spec {
                Some(d) => Some(d.text),
                None => None,
            }),
    {
        match &self.spec {
            Some(d) => Some(d.text.as_str()),
            None => None,
        }
    }

    /// The digest of the drafted spec, or `None` if there is no draft.
    ///
    /// What an approval is bound to.
    pub fn spec_digest(&self) -> (r: Option<String>)
        ensures
            text::opt_view(r) == (match self@.spec {
                Some(d) => Some(d.digest),
                None => None,
            }),
    {
        match &self.spec {
            Some(d) => Some(d.digest.clone()),
            None => None,
        }
    }
}

} // verus!
