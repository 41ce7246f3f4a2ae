//! What a route answers.

use vstd::prelude::*;

use crate::i18n::Locale;
use crate::json::{Body, FieldView};
use crate::routes::admin::AdminList;
use crate::routes::daemon::{ReportKind, Sighting, SightingView};
use crate::routes::http::{Policy, Res, ResView};
use crate::text;

verus! {

/// Something that only the outside can say or do.
pub enum Ask {
    /// The words of a language, and whether it is being chosen.
    Catalogue { locale: Locale, choose: bool },
    /// Where the setup has got to.
    SetupState,
    /// Spend the code of an unclaimed server.
    SpendCode { code: String },
    /// Claim the server.
    ClaimServer { login: String, password: String },
    /// Send a sign-in link.
    SendLink { email: String },
    /// Sign in with a password.
    CheckPassword { login: String, password: String },
    /// Revoke a session.
    SignOut { token: String },
    /// Spend a sign-in link, and answer under a policy.
    SpendLink { token: String, policy: Policy },
    /// One of the administrator's lists.
    List(AdminList),
    /// Change the settings.
    ChangeSettings { body: Body },
    /// Name an owner of what they were granted.
    AddOwner { login: String, repos: Vec<String> },
    /// Enable a repository.
    EnableRepo { name: String, anyway: bool },
    /// Mint a key for a machine.
    MintDaemon { label: String },
    /// Revoke a record of a list.
    Revoke { list: Option<AdminList>, id: String },
    /// Read a daemon's report on a request.
    Report { by: String, id: String, kind: ReportKind },
}

/// Something that only the outside can say or do, as contracts speak of it.
pub enum AskView {
    Catalogue { locale: Locale, choose: bool },
    SetupState,
    SpendCode { code: Seq<char> },
    ClaimServer { login: Seq<char>, password: Seq<char> },
    SendLink { email: Seq<char> },
    CheckPassword { login: Seq<char>, password: Seq<char> },
    SignOut { token: Seq<char> },
    SpendLink { token: Seq<char>, policy: Policy },
    List(AdminList),
    ChangeSettings { body: Seq<(Seq<char>, FieldView)> },
    AddOwner { login: Seq<char>, repos: Seq<Seq<char>> },
    EnableRepo { name: Seq<char>, anyway: bool },
    MintDaemon { label: Seq<char> },
    Revoke { list: Option<AdminList>, id: Seq<char> },
    Report { by: Seq<char>, id: Seq<char>, kind: ReportKind },
}

impl View for Ask {
    type V = AskView;

    open spec fn view(&self) -> AskView {
        match self {
            Ask::Catalogue { locale, choose } => AskView::Catalogue {
                locale: *locale,
                choose: *choose,
            },
            Ask::SetupState => AskView::SetupState,
            Ask::SpendCode { code } => AskView::SpendCode { code: code@ },
            Ask::ClaimServer { login, password } => AskView::ClaimServer {
                login: login@,
                password: password@,
            },
            Ask::SendLink { email } => AskView::SendLink { email: email@ },
            Ask::CheckPassword { login, password } => AskView::CheckPassword {
                login: login@,
                password: password@,
            },
            Ask::SignOut { token } => AskView::SignOut { token: token@ },
            Ask::SpendLink { token, policy } => AskView::SpendLink {
                token: token@,
                policy: *policy,
            },
            Ask::List(list) => AskView::List(*list),
            Ask::ChangeSettings { body } => AskView::ChangeSettings { body: body@ },
            Ask::AddOwner { login, repos } => AskView::AddOwner {
                login: login@,
                repos: text::texts(repos@),
            },
            Ask::EnableRepo { name, anyway } => AskView::EnableRepo {
                name: name@,
                anyway: *anyway,
            },
            Ask::MintDaemon { label } => AskView::MintDaemon { label: label@ },
            Ask::Revoke { list, id } => AskView::Revoke { list: *list, id: id@ },
            Ask::Report { by, id, kind } => AskView::Report { by: by@, id: id@, kind: *kind },
        }
    }
}

/// What a route answers.
pub enum Answer {
    /// This.
    Reply(Res),
    /// This, to a daemon that has just been seen.
    Polled { seen: Sighting, res: Res },
    /// Whatever follows from something that has to be asked first.
    Ask(Ask),
}

/// What a route answers, as contracts speak of it.
pub enum AnswerView {
    Reply(ResView),
    Polled { seen: SightingView, res: ResView },
    Ask(AskView),
}

impl View for Answer {
    type V = AnswerView;

    open spec fn view(&self) -> AnswerView {
        match self {
            Answer::Reply(r) => AnswerView::Reply(r@),
            Answer::Polled { seen, res } => AnswerView::Polled { seen: seen@, res: res@ },
            Answer::Ask(a) => AnswerView::Ask(a@),
        }
    }
}

} // verus!
