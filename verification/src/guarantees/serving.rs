//! What is served, with what it is written, and how a server starts.

use vstd::prelude::*;
use vstd::string::*;

use crate::config::PublicConfig;
use crate::routes::http;
use crate::routes::http::{Policy, Req, Res, ResView};
use crate::seal;
use crate::seal::{SealKey, Sealed};
use crate::serve;
use crate::serve::{
    ArmAction,
    ArmFacts,
    ArmStepView,
    Defaults,
    MailRoute,
    ScreenConfig,
    ScreenPlan,
    SeedAction,
    SeedFacts,
    SeedStepView,
    Site,
    StartAction,
    StartFacts,
    StartStepView,
};
use crate::settings;
use crate::settings::{FileRead, Settings, SettingsCache};
use crate::text;

verus! {

// ---------------------------------------------------------------------------
// The surface
// ---------------------------------------------------------------------------

/// What is served is what is set: the repositories, the name or else the label of
/// the address, the address, and each ceiling or else its own default. A spec is
/// shown unless somebody said no.
pub proof fn law_the_surface_is_as_it_is_set(
    settings: Settings,
    repos: Vec<String>,
    site: Site,
    defaults: Defaults,
    r: Option<PublicConfig>,
)
    requires
        call_ensures(serve::public_now, (&settings, repos, &site, &defaults), r),
    ensures
        r is None <==> !settings.public,
        r matches Some(p) ==> {
            &&& p.repos.names@.len() == repos@.len()
            &&& forall|k: int| 0 <= k < repos@.len() ==> (#[trigger] p.repos.names@[k])@
                == repos@[k]@
            &&& p.base_url@ == site.base_url@
            &&& site.name@.len() > 0 ==> p.site_name@ == site.name@
            &&& site.name@.len() == 0 ==> p.site_name@ == site.host_label@
            &&& p.secure_cookies <==> (site.base_url@.len() >= 8 && site.base_url@.take(8)
                == "https://"@)
            &&& p.mail == site.mail
            &&& p.screen == site.screen
            &&& !p.show_spec <==> settings.show_spec == Some(false)
            &&& match settings.max_daily_filings {
                Some(n) => p.max_daily_filings == n,
                None => p.max_daily_filings == defaults.max_daily_filings,
            }
            &&& match settings.max_daily_drafts {
                Some(n) => p.max_daily_drafts == n,
                None => p.max_daily_drafts == defaults.max_daily_drafts,
            }
            &&& match settings.max_accounts {
                Some(n) => p.max_accounts == n,
                None => p.max_accounts == defaults.max_accounts,
            }
            &&& match settings.max_outstanding_links {
                Some(n) => p.max_outstanding_links == n,
                None => p.max_outstanding_links == defaults.max_outstanding_links,
            }
            &&& match p.github {
                Some(g) => site.has_github && g.client_id@ == site.github_client_id@ && (
                site.github_client_secret matches Some(s) && g.client_secret@ == s@),
                None => !site.has_github || site.github_client_secret is None,
            }
        },
{
    reveal_strlit("https://");
    if let Some(p) = r {
        assert(text::texts(p.repos.names@).len() == text::texts(repos@).len());
        assert forall|k: int| 0 <= k < repos@.len() implies (#[trigger] p.repos.names@[k])@
            == repos@[k]@ by {
            assert(text::texts(p.repos.names@)[k] == p.repos.names@[k]@);
            assert(text::texts(repos@)[k] == repos@[k]@);
        }
    }
}

/// What an environment says of its surface is taken on the first boot, and a
/// server so set up serves the same surface again: none where there was none.
pub proof fn law_a_seeded_server_serves_what_its_environment_said(
    s: Settings,
    env: PublicConfig,
    repos: Vec<String>,
    site: Site,
    defaults: Defaults,
    r: Option<PublicConfig>,
    none: Option<PublicConfig>,
)
    requires
        !s.seeded,
        call_ensures(
            serve::public_now,
            (&settings::seeded_from(s, serve::seed_of(Some(&env))), repos, &site, &defaults),
            r,
        ),
        call_ensures(
            serve::public_now,
            (&settings::seeded_from(s, serve::seed_of(None)), repos, &site, &defaults),
            none,
        ),
    ensures
        r matches Some(p) && p.show_spec == env.show_spec && p.max_daily_filings
            == env.max_daily_filings && p.max_daily_drafts == env.max_daily_drafts
            && p.max_accounts == env.max_accounts && p.max_outstanding_links
            == env.max_outstanding_links,
        none is None,
        settings::seeded_from(s, serve::seed_of(Some(&env))).seeded,
        settings::seeded_from(s, serve::seed_of(None)).seeded,
{
}

/// Links go to the console where that was asked for, else by the provider that is
/// configured, and nowhere where none is.
pub proof fn law_where_links_are_sent(
    to_console: bool,
    public: Option<&PublicConfig>,
    r: MailRoute,
)
    requires
        call_ensures(serve::mailer_for, (to_console, public), r),
    ensures
        r == MailRoute::Console <==> to_console,
        r == MailRoute::Provider <==> !to_console && (public matches Some(p) && p.mail),
{
}

/// A screener is kept while its key, its address and its model are the ones that
/// are wanted, is built anew where one of them is not, and is off where none is
/// wanted.
pub proof fn law_a_screener_is_the_one_that_is_wanted(
    built: Option<&ScreenConfig>,
    wanted: Option<&ScreenConfig>,
    r: ScreenPlan,
)
    requires
        call_ensures(serve::plan_screening, (built, wanted), r),
    ensures
        r == ScreenPlan::Off <==> wanted is None,
        r == ScreenPlan::Keep <==> (built matches Some(b) && (wanted matches Some(w) && b.api_key@
            == w.api_key@ && b.url@ == w.url@ && b.model@ == w.model@)),
{
}

// ---------------------------------------------------------------------------
// Reading and writing
// ---------------------------------------------------------------------------

/// A body is read up to a megabyte where it says that it is no longer, and not at
/// all where it is longer, or says nothing, or that it is empty.
pub proof fn law_a_body_is_read_up_to_a_megabyte(declared: Option<usize>, r: usize)
    requires
        call_ensures(serve::body_limit, (declared,), r),
    ensures
        declared matches Some(n) && 0 < n <= 1_048_576 ==> r == 1_048_576,
        declared matches Some(n) && (n == 0 || n > 1_048_576) ==> r == 0,
        declared is None ==> r == 0,
{
}

/// A connection is held for half a minute, and only where a machine asks for work
/// and there is none.
pub proof fn law_only_a_machine_that_waits_is_held(req: Req, res: Res, held_ms: u64, r: bool)
    requires
        call_ensures(serve::keeps_holding, (&req, &res, held_ms), r),
    ensures
        r <==> req@.method == "GET"@ && text::head(req@.path, '?') == "/api/v1/work"@
            && res@.hold_for_work && held_ms < 30_000,
{
}

/// What a response is written with, header by header.
pub proof fn law_a_response_is_written_whole(r: ResView)
    ensures
        ({
            let h = serve::written_headers(r);
            &&& h[0] == ("Content-Type"@, r.content_type)
            &&& h[1] == ("Referrer-Policy"@, "no-referrer"@)
            &&& h[2] == ("Cache-Control"@, "no-store"@)
            &&& h[3].0 == "Content-Security-Policy"@
            &&& h[4] == ("X-Content-Type-Options"@, "nosniff"@)
            &&& h[5] == ("X-Frame-Options"@, "DENY"@)
            &&& r.set_cookie matches Some(c) ==> h[6] == ("Set-Cookie"@, c)
            &&& r.etag matches Some(t) ==> h.last() == ("ETag"@, t)
            &&& h.len() == 6 + (if r.set_cookie is Some {
                1int
            } else {
                0
            }) + (if r.etag is Some {
                1int
            } else {
                0
            })
        }),
{
}

/// Each policy, directive by directive: nothing by default, no frame and no base;
/// script and connections from this origin alone, and only under the one that
/// permits script.
pub proof fn law_a_policy_permits_what_it_names()
    ensures
        http::csp_text(Policy::Strict) == "default-src 'none'"@ + "; style-src 'unsafe-inline'"@
            + "; font-src 'self'"@ + "; form-action 'self'"@ + "; base-uri 'none'"@
            + "; frame-ancestors 'none'"@,
        http::csp_text(Policy::PublicScript) == "default-src 'none'"@ + "; script-src 'self'"@
            + "; style-src 'self' 'unsafe-inline'"@ + "; font-src 'self'"@
            + "; connect-src 'self'"@ + "; form-action 'self'"@ + "; base-uri 'none'"@
            + "; frame-ancestors 'none'"@,
{
    reveal_strlit("default-src 'none'");
    reveal_strlit("; style-src 'unsafe-inline'");
    reveal_strlit("; font-src 'self'");
    reveal_strlit("; form-action 'self'");
    reveal_strlit("; base-uri 'none'");
    reveal_strlit("; frame-ancestors 'none'");
    reveal_strlit("; script-src 'self'");
    reveal_strlit("; style-src 'self' 'unsafe-inline'");
    reveal_strlit("; connect-src 'self'");
    reveal_strlit(
        "default-src 'none'; style-src 'unsafe-inline'; font-src 'self'; form-action 'self'; base-uri 'none'; frame-ancestors 'none'",
    );
    reveal_strlit(
        "default-src 'none'; script-src 'self'; style-src 'self' 'unsafe-inline'; font-src 'self'; connect-src 'self'; form-action 'self'; base-uri 'none'; frame-ancestors 'none'",
    );
    assert(http::csp_text(Policy::Strict) =~= "default-src 'none'"@
        + "; style-src 'unsafe-inline'"@ + "; font-src 'self'"@ + "; form-action 'self'"@
        + "; base-uri 'none'"@ + "; frame-ancestors 'none'"@);
    assert(http::csp_text(Policy::PublicScript) =~= "default-src 'none'"@ + "; script-src 'self'"@
        + "; style-src 'self' 'unsafe-inline'"@ + "; font-src 'self'"@ + "; connect-src 'self'"@
        + "; form-action 'self'"@ + "; base-uri 'none'"@ + "; frame-ancestors 'none'"@);
}

// ---------------------------------------------------------------------------
// Settings
// ---------------------------------------------------------------------------

/// The settings are those that the file held when it last could be read: what was
/// read is taken, what cannot be read changes nothing while the file is there, and
/// a file that is gone is a server that nobody configured.
pub proof fn law_the_settings_are_the_files(
    c: SettingsCache,
    mtime: Option<u128>,
    s: Settings,
)
    ensures
        settings::refreshed(c, mtime, FileRead::Read(s)) == (SettingsCache { mtime, value: s }),
        settings::refreshed(c, mtime, FileRead::Malformed) == (SettingsCache { mtime, ..c }),
        mtime is Some ==> settings::refreshed(c, mtime, FileRead::Unreadable) == (SettingsCache {
            mtime,
            ..c
        }),
        ({
            let gone = settings::refreshed(c, None, FileRead::Unreadable);
            &&& gone.mtime is None
            &&& !gone.value.public
            &&& !gone.value.seeded
            &&& gone.value.show_spec is None
            &&& gone.value.max_daily_filings is None
            &&& gone.value.max_daily_drafts is None
            &&& gone.value.max_accounts is None
            &&& gone.value.max_outstanding_links is None
        }),
{
}

// ---------------------------------------------------------------------------
// Starting
// ---------------------------------------------------------------------------

/// A code is armed in three steps, on a server that nobody claimed: who claimed
/// it is read, a code is minted, and the code is written down before it is shown.
/// A server that somebody claimed shows none.
pub proof fn law_a_code_is_shown_once_it_is_written(f: ArmFacts, code: String)
    ensures
        serve::arm_next(ArmFacts { claimed: None, ..f }) == ArmStepView::Do(ArmAction::ReadClaim),
        serve::arm_next(ArmFacts { claimed: Some(Ok(true)), ..f }) == ArmStepView::Armed(None),
        serve::arm_next(ArmFacts { claimed: Some(Ok(false)), code: None, ..f }) == ArmStepView::Do(
            ArmAction::Arm,
        ),
        serve::arm_next(
            ArmFacts { claimed: Some(Ok(false)), code: Some(code), written: None },
        ) == ArmStepView::Do(ArmAction::WriteClaim),
        serve::arm_next(
            ArmFacts { claimed: Some(Ok(false)), code: Some(code), written: Some(Ok(())) },
        ) == ArmStepView::Armed(Some(code@)),
        serve::arm_next(
            ArmFacts { claimed: Some(Err(code)), ..f },
        ) == ArmStepView::Failed(code@),
        serve::arm_next(
            ArmFacts { claimed: Some(Ok(false)), code: f.code, written: Some(Err(code)) },
        ) == (if f.code is None {
            ArmStepView::Do(ArmAction::Arm)
        } else {
            ArmStepView::Failed(code@)
        }),
        serve::arm_next(f) matches ArmStepView::Armed(Some(shown)) ==> f.claimed == Some(
            Ok::<bool, String>(false),
        ) && f.written is Some && (f.written.unwrap() is Ok) && (f.code matches Some(c) && c@
            == shown),
{
}

/// The roster is written only where it is read and the seed was new to it, and
/// said to be seeded only once it is written.
pub proof fn law_a_roster_is_seeded_once_it_is_written(f: SeedFacts)
    ensures
        f.read is None ==> serve::seed_next(f) == SeedStepView::Do(SeedAction::Read),
        serve::seed_next(f) == SeedStepView::Do(SeedAction::Apply) <==> (f.read matches Some(Ok(_)))
            && f.applied is None,
        serve::seed_next(f) == SeedStepView::Do(SeedAction::Write) <==> (f.read matches Some(Ok(_)))
            && f.applied == Some(true) && f.written is None,
        serve::seed_next(f) == SeedStepView::Seeded(true) <==> (f.read matches Some(Ok(_)))
            && f.applied == Some(true) && (f.written matches Some(Ok(_))),
        serve::seed_next(f) == SeedStepView::Seeded(false) <==> (f.read matches Some(Ok(_)))
            && f.applied == Some(false),
        f.read matches Some(Err(e)) ==> serve::seed_next(f) == SeedStepView::Failed(e@),
        (f.read matches Some(Ok(_))) && f.applied == Some(true) ==> (f.written matches Some(Err(e))
            ==> serve::seed_next(f) == SeedStepView::Failed(e@)),
{
}

/// A server serves once everything before it went well, in this order: the store
/// opened, the code armed, what is sealed read and fitting the key, the roster and
/// the settings seeded, and the address bound. The first that did not go well is
/// what it says.
pub proof fn law_a_server_serves_once_all_is_well(
    f: StartFacts,
    key: Option<&SealKey>,
    sealed: Sealed,
)
    ensures
        serve::start_next(f, key) == StartStepView::Serve <==> {
            &&& f.opened matches Some(Ok(_))
            &&& f.armed matches Some(Ok(_))
            &&& f.sealed matches Some(Ok(held)) && seal::key_problem(key, Some(&held)) is None
            &&& f.roster matches Some(Ok(_))
            &&& f.settings matches Some(Ok(_))
            &&& f.bound matches Some(Ok(_))
        },
        f.opened is None ==> serve::start_next(f, key) == StartStepView::Do(StartAction::OpenStore),
        serve::start_next(f, key) == StartStepView::Do(StartAction::ArmClaim) <==> (
        f.opened matches Some(Ok(_))) && f.armed is None,
        serve::start_next(f, key) == StartStepView::Do(StartAction::ReadSealed) <==> (
        f.opened matches Some(Ok(_))) && (f.armed matches Some(Ok(_))) && f.sealed is None,
        (f.opened matches Some(Ok(_))) && (f.armed matches Some(Ok(_))) && f.sealed == Some(
            Ok::<Sealed, String>(sealed),
        ) && seal::key_problem(key, Some(&sealed)) is None ==> {
            &&& f.roster is None ==> serve::start_next(f, key) == StartStepView::Do(
                StartAction::SeedRoster,
            )
            &&& (f.roster matches Some(Ok(_))) && f.settings is None ==> serve::start_next(f, key)
                == StartStepView::Do(StartAction::SeedSettings)
            &&& (f.roster matches Some(Ok(_))) && (f.settings matches Some(Ok(_))) && f.bound
                is None ==> serve::start_next(f, key) == StartStepView::Do(StartAction::Bind)
            &&& f.roster matches Some(Err(e)) ==> serve::start_next(f, key)
                == StartStepView::Failed(e@)
            &&& (f.roster matches Some(Ok(_))) ==> (f.settings matches Some(Err(e))
                ==> serve::start_next(f, key) == StartStepView::Failed(e@))
            &&& (f.roster matches Some(Ok(_))) && (f.settings matches Some(Ok(_))) ==> (
            f.bound matches Some(Err(e)) ==> serve::start_next(f, key) == StartStepView::Failed(e@))
        },
        f.opened matches Some(Err(e)) ==> serve::start_next(f, key) == StartStepView::Failed(e@),
        (f.opened matches Some(Ok(_))) ==> (f.armed matches Some(Err(e)) ==> serve::start_next(
            f,
            key,
        ) == StartStepView::Failed(e@)),
{
}

} // verus!
