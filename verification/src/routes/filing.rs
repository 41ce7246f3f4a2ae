//! Filing a request.

use vstd::prelude::*;
use vstd::string::*;

use crate::config::{PublicConfig, FILING_WINDOW_MS};
use crate::i18n::Strings;
use crate::request;
use crate::request::{IntakeKind, Request, RequestState, RequestView};
use crate::screen;
use crate::store;
use crate::store::Store;
use crate::text;
use crate::text::{bytes_in, number, owned, trim, words};

verus! {

/// The longest a request may be, in words: a limit somebody can hold in their
/// head while typing.
pub const MAX_WORDS: usize = 500;

/// The ceiling behind it, for text with no spaces in it.
pub const MAX_BYTES: usize = 8192;

/// What is wrong with the length of a text.
pub open spec fn length_problem(s: Seq<char>) -> Option<Seq<char>> {
    if text::word_count(s) > MAX_WORDS {
        Some(
            "That is "@ + text::decimal(text::word_count(s))
                + " words; the limit is 500. Say the essential part — a spec is drafted from your request, not copied from it."@,
        )
    } else if text::byte_len(s) > MAX_BYTES {
        Some(
            "That is "@ + text::decimal(text::byte_len(s))
                + " characters, which is over the 8192 limit even though it is under 500 words."@,
        )
    } else {
        None
    }
}

/// Is this text within the limits? One rule for every way of filing.
pub fn check_length(s: &str) -> (r: Result<(), String>)
    ensures
        match r {
            Ok(_) => length_problem(s@) is None,
            Err(e) => length_problem(s@) == Some(e@),
        },
{
    let n: usize = words(s);
    if n > MAX_WORDS {
        return Err(
            "That is ".to_owned().concat(number(n as u64).as_str()).concat(
                " words; the limit is 500. Say the essential part — a spec is drafted from your request, not copied from it.",
            ),
        );
    }
    let bytes: usize = bytes_in(s);
    if bytes > MAX_BYTES {
        return Err(
            "That is ".to_owned().concat(number(bytes as u64).as_str()).concat(
                " characters, which is over the 8192 limit even though it is under 500 words.",
            ),
        );
    }
    Ok(())
}

/// Why a filing was refused, apart from how the refusal is shown.
pub enum FilingRefused {
    /// No public surface is configured: it does not exist.
    NoSurface,
    /// The repository was absent where a choice was needed, or is not served.
    Repo,
    /// There is nothing in it.
    Empty,
    /// Past a ceiling. It holds what to say.
    Text(String),
    /// Over the daily cap. It holds how many there were.
    TooMany(usize),
    /// It could not be written.
    Store(String),
}

/// Why a filing was refused, as contracts speak of it.
pub enum FilingRefusedView {
    NoSurface,
    Repo,
    Empty,
    Text(Seq<char>),
    TooMany(nat),
    Store(Seq<char>),
}

impl View for FilingRefused {
    type V = FilingRefusedView;

    open spec fn view(&self) -> FilingRefusedView {
        match self {
            FilingRefused::NoSurface => FilingRefusedView::NoSurface,
            FilingRefused::Repo => FilingRefusedView::Repo,
            FilingRefused::Empty => FilingRefusedView::Empty,
            FilingRefused::Text(m) => FilingRefusedView::Text(m@),
            FilingRefused::TooMany(n) => FilingRefusedView::TooMany(*n as nat),
            FilingRefused::Store(e) => FilingRefusedView::Store(e@),
        }
    }
}

/// The status a refusal is answered with.
pub open spec fn refused_status(r: FilingRefusedView) -> u16 {
    match r {
        FilingRefusedView::NoSurface => 404,
        FilingRefusedView::Repo => 400,
        FilingRefusedView::Empty => 400,
        FilingRefusedView::Text(_) => 400,
        FilingRefusedView::TooMany(_) => 429,
        FilingRefusedView::Store(_) => 500,
    }
}

/// What a refusal says.
pub open spec fn refused_message(r: FilingRefusedView, s: Strings) -> Seq<char> {
    match r {
        FilingRefusedView::NoSurface => "no such page"@,
        FilingRefusedView::Repo => s.file_repo_unknown@,
        FilingRefusedView::Empty => s.error_empty@,
        FilingRefusedView::Text(m) => m,
        FilingRefusedView::TooMany(n) => "That is "@ + text::decimal(n)
            + " requests in a day, which is the limit. Each one is written up by hand on someone's machine, so the cap is there to keep that manageable — try again tomorrow, or say the rest in a request you have already filed."@,
        FilingRefusedView::Store(e) => e,
    }
}

impl FilingRefused {
    /// The status this is answered with.
    pub fn status(&self) -> (r: u16)
        ensures
            r == refused_status(self@),
    {
        match self {
            FilingRefused::NoSurface => 404,
            FilingRefused::Repo | FilingRefused::Empty | FilingRefused::Text(_) => 400,
            FilingRefused::TooMany(_) => 429,
            FilingRefused::Store(_) => 500,
        }
    }

    /// What this says, in the reader's words.
    pub fn message(&self, s: &Strings) -> (r: String)
        ensures
            r@ == refused_message(self@, *s),
    {
        match self {
            FilingRefused::NoSurface => "no such page".to_owned(),
            FilingRefused::Repo => s.file_repo_unknown.clone(),
            FilingRefused::Empty => s.error_empty.clone(),
            FilingRefused::Text(m) => m.clone(),
            FilingRefused::TooMany(n) => "That is ".to_owned().concat(
                number(*n as u64).as_str(),
            ).concat(
                " requests in a day, which is the limit. Each one is written up by hand on someone's machine, so the cap is there to keep that manageable — try again tomorrow, or say the rest in a request you have already filed.",
            ),
            FilingRefused::Store(e) => e.clone(),
        }
    }
}

/// The repository a filing is for: the only one where none is named, or the one
/// named where it is served. A name selects, it never introduces.
pub open spec fn chosen_repo(served: Seq<Seq<char>>, named: Option<Seq<char>>) -> Option<Seq<char>> {
    let name = match named {
        Some(n) => text::trimmed(n),
        None => Seq::empty(),
    };
    if name.len() == 0 && served.len() == 1 {
        Some(served[0])
    } else if named is Some && served.contains(name) {
        Some(name)
    } else {
        None
    }
}

/// The repository a filing is for.
pub fn choose_repo(public: &PublicConfig, named: Option<&str>) -> (r: Option<String>)
    ensures
        text::opt_view(r) == chosen_repo(public.repos@, text::opt_str(named)),
{
    let name: Option<&str> = match named {
        Some(n) => Some(trim(n)),
        None => None,
    };
    let blank = match name {
        Some(n) => n.is_empty(),
        None => true,
    };
    if blank && public.repos.is_single() {
        return match public.repos.first() {
            Some(only) => Some(owned(only)),
            None => None,
        };
    }
    match name {
        Some(n) => {
            if public.repos.accepts(n) {
                Some(owned(n))
            } else {
                None
            }
        },
        None => None,
    }
}

/// The start of the window that a daily ceiling counts over.
pub open spec fn window_start(now_ms: u64) -> u64 {
    if now_ms >= FILING_WINDOW_MS {
        (now_ms - FILING_WINDOW_MS) as u64
    } else {
        0
    }
}

/// How many requests an account has filed in the window.
pub open spec fn filed_today(s: Seq<RequestView>, account_id: Seq<char>, now_ms: u64) -> nat {
    s.filter(|q: RequestView| store::filed_after(q, account_id, window_start(now_ms))).len()
}

/// Why an account may not file this, if it may not.
pub open spec fn filing_refusal(
    s: Seq<RequestView>,
    public: Option<&PublicConfig>,
    account_id: Seq<char>,
    named: Option<Seq<char>>,
    text: Seq<char>,
    now_ms: u64,
) -> Option<FilingRefusedView> {
    match public {
        None => Some(FilingRefusedView::NoSurface),
        Some(p) => if chosen_repo(p.repos@, named) is None {
            Some(FilingRefusedView::Repo)
        } else if text::trimmed(text).len() == 0 {
            Some(FilingRefusedView::Empty)
        } else {
            match length_problem(text::trimmed(text)) {
                Some(m) => Some(FilingRefusedView::Text(m)),
                None => if filed_today(s, account_id, now_ms) >= p.max_daily_filings {
                    Some(FilingRefusedView::TooMany(filed_today(s, account_id, now_ms)))
                } else {
                    None
                },
            }
        },
    }
}

/// What an account files: where there is a screener it waits for it, and
/// nothing has happened to it yet.
pub open spec fn filing(
    p: &PublicConfig,
    account_id: Seq<char>,
    named: Option<Seq<char>>,
    text: Seq<char>,
    kind: IntakeKind,
    now_ms: u64,
    id: Seq<char>,
) -> RequestView {
    request::fresh(
        id,
        text::trimmed(text),
        chosen_repo(p.repos@, named).unwrap(),
        kind,
        if p.screen {
            RequestState::Screening
        } else {
            RequestState::Queued
        },
        Some(account_id),
        now_ms,
    )
}

/// File a request for an account, or say why not.
pub fn file_now(
    store: &mut Store,
    public: Option<&PublicConfig>,
    account_id: &str,
    named: Option<&str>,
    text: &str,
    kind: IntakeKind,
    now_ms: u64,
    id: &str,
) -> (r: Result<Request, FilingRefused>)
    requires
        old(store).wf(),
    ensures
        final(store).wf(),
        final(store).home() == old(store).home(),
        match r {
            Ok(q) => {
                &&& filing_refusal(
                    old(store)@,
                    public,
                    account_id@,
                    text::opt_str(named),
                    text@,
                    now_ms,
                ) is None
                &&& public matches Some(p)
                &&& q@ == filing(
                    p,
                    account_id@,
                    text::opt_str(named),
                    text@,
                    kind,
                    now_ms,
                    id@,
                )
                &&& final(store)@ == store::with_record(old(store)@, q@)
            },
            Err(e) => {
                &&& filing_refusal(
                    old(store)@,
                    public,
                    account_id@,
                    text::opt_str(named),
                    text@,
                    now_ms,
                ) == Some(e@)
                &&& final(store)@ == old(store)@
            },
        },
{
    let p = match public {
        Some(p) => p,
        None => {
            return Err(FilingRefused::NoSurface);
        },
    };
    let repo = match choose_repo(p, named) {
        Some(r) => r,
        None => {
            return Err(FilingRefused::Repo);
        },
    };
    let said = trim(text);
    if said.is_empty() {
        return Err(FilingRefused::Empty);
    }
    if let Err(m) = check_length(said) {
        return Err(FilingRefused::Text(m));
    }
    let since = now_ms.saturating_sub(FILING_WINDOW_MS);
    let n: usize = store.filed_since(account_id, since);
    if n >= p.max_daily_filings {
        return Err(FilingRefused::TooMany(n));
    }
    let q = Request::public(id, said, repo.as_str(), kind, account_id, p.screen, now_ms);
    store.put(&q);
    assert(store::cleaned(q@) =~= q@);
    Ok(q)
}

/// A filing lands in what the operator named, or nowhere: whatever name was
/// sent, the repository is one of those served.
pub proof fn law_a_name_selects_and_never_introduces(
    served: Seq<Seq<char>>,
    named: Option<Seq<char>>,
)
    ensures
        chosen_repo(served, named) matches Some(repo) ==> served.contains(repo),
{
    if chosen_repo(served, named) is Some && served.len() == 1 {
        assert(served.contains(served[0]));
    }
}

/// With several to choose from and nothing chosen, nothing is filed: there is no
/// default to land in.
pub proof fn law_nothing_chosen_is_refused(served: Seq<Seq<char>>)
    requires
        served.len() != 1,
    ensures
        chosen_repo(served, None) is None,
{
}

/// An account at its ceiling files nothing more, whatever it sends, while the
/// filings it made are within the window.
pub proof fn law_the_daily_cap_holds(
    s: Seq<RequestView>,
    p: &PublicConfig,
    account_id: Seq<char>,
    named: Option<Seq<char>>,
    text: Seq<char>,
    now_ms: u64,
)
    requires
        filed_today(s, account_id, now_ms) >= p.max_daily_filings,
    ensures
        filing_refusal(s, Some(p), account_id, named, text, now_ms) is Some,
{
}

/// Where there is a screener, nothing an account files can be claimed as it was
/// filed; where there is none, it can.
pub proof fn law_a_screener_stands_before_the_queue(
    p: &PublicConfig,
    account_id: Seq<char>,
    named: Option<Seq<char>>,
    text: Seq<char>,
    kind: IntakeKind,
    now_ms: u64,
    id: Seq<char>,
)
    ensures
        (filing(p, account_id, named, text, kind, now_ms, id).state == RequestState::Queued)
            == !p.screen,
{
}

/// A filing under a new id takes one of the account's places for the day, and
/// nobody else's.
pub proof fn law_a_filing_takes_one_place(
    s: Seq<RequestView>,
    q: RequestView,
    account_id: Seq<char>,
    now_ms: u64,
)
    requires
        store::position(s, q.id) is None,
        q.filed_ms == now_ms,
        q.account_id is Some,
    ensures
        filed_today(store::with_record(s, q), account_id, now_ms) == filed_today(
            s,
            account_id,
            now_ms,
        ) + (if q.account_id == Some(account_id) {
            1int
        } else {
            0
        }),
{
    let f = |r: RequestView| store::filed_after(r, account_id, window_start(now_ms));
    store::lemma_rank_bounds(s, q.id);
    let n = store::rank(s, q.id);
    let front = s.take(n);
    let back = s.skip(n);
    assert(s =~= front + back);
    assert(s.insert(n, q) =~= front.push(q) + back);
    Seq::filter_distributes_over_add(front, back, f);
    Seq::filter_distributes_over_add(front.push(q), back, f);
    assert(front.push(q).drop_last() =~= front);
    assert(front.push(q).filter(f) == (if f(q) {
        front.filter(f).push(q)
    } else {
        front.filter(f)
    })) by {
        reveal(Seq::filter);
    }
}

/// What an account files reads back to it as it was filed, under the id it was
/// given.
pub proof fn law_a_filing_reads_back(
    s: Seq<RequestView>,
    p: &PublicConfig,
    account_id: Seq<char>,
    named: Option<Seq<char>>,
    said: Seq<char>,
    kind: IntakeKind,
    now_ms: u64,
    id: Seq<char>,
)
    requires
        store::well_kept(s),
    ensures
        ({
            let q = filing(p, account_id, named, said, kind, now_ms, id);
            store::record(store::with_record(s, q), id) == Some(q) && q.account_id == Some(
                account_id,
            ) && q.text == text::trimmed(said)
        }),
{
    let q = filing(p, account_id, named, said, kind, now_ms, id);
    assert(store::cleaned(q) =~= q);
    store::lemma_with_record_kept(s, q);
}

/// A screener is sent the whole of what was filed: the limit on a filing is
/// within what is sent, so nothing can hide behind the cut.
pub proof fn law_a_screener_sees_the_whole_filing(s: Seq<char>, nonce: Seq<char>)
    requires
        length_problem(s) is None,
        !text::holds(s, screen::begin_marker(nonce)),
        !text::holds(s, screen::end_marker(nonce)),
    ensures
        screen::screened_text(s, nonce) == s,
{
    screen::law_a_request_is_not_mangled(s, nonce);
}

} // verus!
