//! What becomes of a request, from filing to a decision.

use sc_server::json::Body;
use sc_server::request::{Draft, IntakeKind, Request, RequestState, Serves};
use sc_server::store::{now_ms, Store, CLAIM_TIMEOUT_MS};

const NOW: u64 = 1_700_000_000_000;

fn store() -> Store {
    Store::open("/data")
}

fn file(s: &mut Store, id: &str, repo: &str) -> Request {
    let r = Request::new(id, &format!("request {id}"), repo, IntakeKind::Feature);
    s.put(&r);
    r
}

fn file_in(s: &mut Store, id: &str, repo: &str, state: RequestState) -> Request {
    let mut r = Request::new(id, &format!("request {id}"), repo, IntakeKind::Feature);
    r.state = state;
    s.put(&r);
    r
}

fn draft(text: &str) -> Draft {
    Draft {
        text: text.to_string(),
        digest: format!("digest of {text}"),
    }
}

fn require(s: &Store, id: &str) -> Request {
    s.require(id).ok().expect("it is there")
}

#[test]
fn all_state_lives_under_one_directory() {
    let s = store();
    assert_eq!(s.request_path("r-1"), "/data/requests/r-1.json");
    assert_eq!(s.admin_path(), "/data/admin.json");
    assert_eq!(s.accounts_path(), "/data/accounts.json");
    assert_eq!(s.settings_path(), "/data/settings.json");
    assert_eq!(s.links_path(), "/data/links.json");
    assert!(s.roster_path().starts_with("/data/"));
}

#[test]
fn a_root_with_a_slash_is_not_given_another() {
    assert_eq!(Store::open("/data/").admin_path(), "/data/admin.json");
    assert_eq!(Store::open("").admin_path(), "admin.json");
}

#[test]
fn claiming_takes_the_oldest_and_marks_it_so_nobody_else_does() {
    let mut s = store();
    file(&mut s, "r-1", "alpha");
    file(&mut s, "r-2", "alpha");

    let claimed = s.claim_next(Serves::Anything, "d-test", NOW).unwrap();
    assert_eq!(claimed.id, "r-1");
    assert_eq!(claimed.state, RequestState::Claimed);
    assert!(s.claim_next(Serves::Anything, "d-test", NOW).is_none());
}

#[test]
fn a_busy_repository_does_not_block_a_free_one() {
    let mut s = store();
    file(&mut s, "r-1", "alpha");
    file(&mut s, "r-2", "alpha");
    file(&mut s, "r-3", "beta");

    assert_eq!(s.claim_next(Serves::Anything, "d-test", NOW).unwrap().id, "r-1");
    assert_eq!(
        s.claim_next(Serves::Anything, "d-test", NOW).unwrap().id,
        "r-3",
        "alpha is busy, beta is free"
    );
}

#[test]
fn a_dead_daemon_does_not_block_its_repository_for_ever() {
    let mut s = store();
    file(&mut s, "r-1", "alpha");
    file(&mut s, "r-2", "alpha");

    let claimed = s.claim_next(Serves::Anything, "d-test", NOW).unwrap();
    assert_eq!(claimed.id, "r-1");
    assert!(claimed.claimed_ms.is_some(), "the claim is stamped");
    assert!(s.claim_next(Serves::Anything, "d-test", NOW).is_none());

    let mut stuck = require(&s, "r-1");
    stuck.claimed_ms = Some(NOW - CLAIM_TIMEOUT_MS - 1);
    s.put(&stuck);

    let again = s.claim_next(Serves::Anything, "d-test", NOW).unwrap();
    assert_eq!(again.id, "r-1");
    assert_eq!(again.state, RequestState::Claimed);
    assert!(
        again.note.as_deref().is_some_and(|n| n.contains("queue")),
        "the developer is told why it went back: {:?}",
        again.note
    );
}

#[test]
fn a_claim_inside_the_timeout_is_left_alone() {
    let mut s = store();
    file(&mut s, "r-1", "alpha");
    let claimed = s.claim_next(Serves::Anything, "d-test", now_ms()).unwrap();
    let at = claimed.claimed_ms.unwrap();

    assert_eq!(s.reclaim_stale(at), 0);
    assert_eq!(s.reclaim_stale(at + CLAIM_TIMEOUT_MS - 1), 0);
    assert_eq!(require(&s, "r-1").state, RequestState::Claimed);

    assert_eq!(s.reclaim_stale(at + CLAIM_TIMEOUT_MS), 1);
    assert_eq!(require(&s, "r-1").state, RequestState::Queued);
}

#[test]
fn a_backwards_clock_cannot_reclaim_live_work() {
    let mut s = store();
    file(&mut s, "r-1", "alpha");
    let claimed = s.claim_next(Serves::Anything, "d-test", NOW).unwrap();

    let long_before = claimed.claimed_ms.unwrap().saturating_sub(86_400_000);
    assert_eq!(s.reclaim_stale(long_before), 0);
    assert_eq!(require(&s, "r-1").state, RequestState::Claimed);
}

#[test]
fn an_upgraded_record_starts_its_clock_rather_than_expiring_at_once() {
    let mut s = store();
    file(&mut s, "r-1", "alpha");
    let mut old = require(&s, "r-1");
    old.state = RequestState::Claimed;
    old.claimed_ms = None;
    s.put(&old);

    let now = NOW;
    assert_eq!(s.reclaim_stale(now), 0, "not reclaimed on sight");
    let stamped = require(&s, "r-1");
    assert_eq!(stamped.state, RequestState::Claimed);
    assert_eq!(stamped.claimed_ms, Some(now), "the clock started instead");

    assert_eq!(s.reclaim_stale(now + CLAIM_TIMEOUT_MS), 1);
    assert_eq!(require(&s, "r-1").state, RequestState::Queued);
}

#[test]
fn leaving_the_claimed_state_drops_the_stamp() {
    let mut s = store();
    for (id, finish) in [("r-1", true), ("r-2", false)] {
        file(&mut s, id, id);
        s.claim_next(Serves::Anything, "d-test", NOW);
        assert!(require(&s, id).claimed_ms.is_some());

        if finish {
            assert!(s.record_drafted(id, "d-test", draft("# Spec"), "specs/x", NOW).is_ok());
            assert_eq!(require(&s, id).state, RequestState::AwaitingReview);
        } else {
            assert!(s.record_failed(id, "d-test", "could not draft").is_ok());
            assert_eq!(require(&s, id).state, RequestState::Failed);
        }
        assert_eq!(require(&s, id).claimed_ms, None, "{id} kept a stale claim stamp");
    }
}

#[test]
fn a_daemon_that_comes_back_after_its_claim_expired_cannot_overwrite() {
    let mut s = store();
    file(&mut s, "r-1", "alpha");
    s.claim_next(Serves::Anything, "laptop", NOW);

    let mut stale = require(&s, "r-1");
    stale.claimed_ms = Some(NOW - CLAIM_TIMEOUT_MS - 1);
    s.put(&stale);
    s.claim_next(Serves::Anything, "office", NOW);
    assert!(s
        .record_drafted("r-1", "office", draft("# The good spec"), "specs/x", NOW)
        .is_ok());

    let err = s
        .record_drafted("r-1", "laptop", draft("# The stale spec"), "specs/y", NOW)
        .err()
        .expect("a late report must not be recorded")
        .message();
    assert!(err.contains("too late"), "{err}");
    assert!(err.contains("reclaimed"), "{err}");
    assert!(s.record_failed("r-1", "laptop", "gave up").is_err());

    let req = require(&s, "r-1");
    assert_eq!(req.spec_text(), Some("# The good spec"));
    assert_eq!(req.state, RequestState::AwaitingReview);
}

#[test]
fn released_work_returns_to_the_queue_and_says_who_gave_it_back() {
    let mut s = store();
    file(&mut s, "r-1", "alpha");
    s.claim_next(Serves::Anything, "laptop", NOW);

    let back = s
        .record_released("r-1", "laptop", "no repository named \"alpha\" here")
        .ok()
        .unwrap();
    assert_eq!(back.state, RequestState::Queued);
    assert_eq!(back.claimed_by, None);
    assert_eq!(back.claimed_ms, None);
    let note = back.note.unwrap();
    assert!(note.contains("laptop"), "it names who: {note}");
    assert!(note.contains("alpha"), "and why: {note}");

    let again = s.claim_next(Serves::Anything, "office", NOW).unwrap();
    assert_eq!(again.id, "r-1");
    assert_eq!(again.claimed_by.as_deref(), Some("office"));
}

#[test]
fn only_the_daemon_holding_a_claim_may_release_it() {
    let mut s = store();
    file(&mut s, "r-1", "alpha");
    s.claim_next(Serves::Anything, "laptop", NOW);

    assert!(s.record_released("r-1", "office", "not mine").is_err());
    assert_eq!(require(&s, "r-1").state, RequestState::Claimed);
}

#[test]
fn releasing_keeps_the_note_a_reviewer_sent_it_back_with() {
    let mut s = store();
    file(&mut s, "r-1", "alpha");
    let mut r = require(&s, "r-1");
    r.send_back_note = Some("too vague".into());
    s.put(&r);
    s.claim_next(Serves::Anything, "laptop", NOW);

    let back = s.record_released("r-1", "laptop", "wrong machine").ok().unwrap();
    assert_eq!(back.send_back_note.as_deref(), Some("too vague"));
}

#[test]
fn a_release_does_not_weaken_the_rule_that_a_failure_is_terminal() {
    let mut s = store();
    file(&mut s, "r-1", "alpha");
    s.claim_next(Serves::Anything, "laptop", NOW);
    assert!(s.record_failed("r-1", "laptop", "could not draft").is_ok());

    assert_eq!(require(&s, "r-1").state, RequestState::Failed);
    assert!(s.claim_next(Serves::Anything, "office", NOW).is_none());
    assert!(s.record_released("r-1", "laptop", "second thoughts").is_err());
}

#[test]
fn a_daemon_cannot_report_on_a_claim_another_daemon_now_holds() {
    let mut s = store();
    file(&mut s, "r-1", "alpha");
    s.claim_next(Serves::Anything, "laptop", NOW);

    let mut stale = require(&s, "r-1");
    stale.claimed_ms = Some(NOW - CLAIM_TIMEOUT_MS - 1);
    s.put(&stale);
    s.claim_next(Serves::Anything, "office", NOW);
    assert_eq!(require(&s, "r-1").state, RequestState::Claimed);

    let err = s
        .record_drafted("r-1", "laptop", draft("# Stale"), "specs/y", NOW)
        .err()
        .expect("the laptop no longer holds this claim")
        .message();
    assert!(err.contains("office"), "it names the real holder: {err}");
    assert!(s.record_failed("r-1", "laptop", "gave up").is_err());

    assert!(s
        .record_drafted("r-1", "office", draft("# The good spec"), "specs/x", NOW)
        .is_ok());
    assert_eq!(require(&s, "r-1").spec_text(), Some("# The good spec"));
}

#[test]
fn a_record_written_before_claimed_by_existed_still_loads() {
    let mut s = store();
    file(&mut s, "r-1", "alpha");
    let mut mid_flight = require(&s, "r-1");
    mid_flight.state = RequestState::Claimed;
    mid_flight.claimed_ms = Some(NOW);
    mid_flight.claimed_by = None;
    s.put(&mid_flight);

    assert!(
        s.record_drafted("r-1", "whoever", draft("# Spec"), "specs/x", NOW).is_ok(),
        "an in-flight draft from before the upgrade is still recorded"
    );
}

#[test]
fn a_claim_records_the_daemon_holding_it_and_lets_go_when_it_ends() {
    let mut s = store();
    file(&mut s, "r-1", "alpha");
    let claimed = s.claim_next(Serves::Anything, "laptop", NOW).unwrap();
    assert_eq!(claimed.claimed_by.as_deref(), Some("laptop"));

    assert!(s.record_drafted("r-1", "laptop", draft("# Spec"), "specs/x", NOW).is_ok());
    assert_eq!(require(&s, "r-1").claimed_by, None);
}

#[test]
fn a_reclaimed_request_forgets_who_held_it() {
    let mut s = store();
    file(&mut s, "r-1", "alpha");
    s.claim_next(Serves::Anything, "laptop", NOW);

    let mut stale = require(&s, "r-1");
    stale.claimed_ms = Some(NOW - CLAIM_TIMEOUT_MS - 1);
    s.put(&stale);
    assert_eq!(s.reclaim_stale(NOW), 1);

    let req = require(&s, "r-1");
    assert_eq!(req.state, RequestState::Queued);
    assert_eq!(req.claimed_by, None);
    assert_eq!(req.claimed_ms, None);
}

#[test]
fn a_drafted_spec_comes_back_and_waits_for_a_human() {
    let mut s = store();
    file(&mut s, "r-1", "alpha");
    s.claim_next(Serves::Anything, "d-test", NOW);

    let req = s
        .record_drafted("r-1", "d-test", draft("# The spec"), "specs/the-thing", NOW)
        .ok()
        .unwrap();
    assert_eq!(req.state, RequestState::AwaitingReview);
    assert_eq!(req.spec_text(), Some("# The spec"));
    assert_eq!(req.artifact_dir.as_deref(), Some("specs/the-thing"));
}

#[test]
fn approving_settles_the_request_and_starts_nothing() {
    let mut s = store();
    file(&mut s, "r-1", "alpha");
    s.claim_next(Serves::Anything, "d-test", NOW);
    assert!(s.record_drafted("r-1", "d-test", draft("# The spec"), "specs/x", NOW).is_ok());

    let digest = require(&s, "r-1").spec_digest().unwrap();
    let req = s.accept("r-1", &digest).ok().unwrap();
    assert_eq!(req.state, RequestState::Accepted);
    assert_eq!(req.spec_text(), Some("# The spec"));
}

#[test]
fn an_approval_of_text_that_has_since_changed_is_refused() {
    let mut s = store();
    file(&mut s, "r-1", "alpha");
    s.claim_next(Serves::Anything, "d-test", NOW);
    assert!(s.record_drafted("r-1", "d-test", draft("# Version one"), "specs/x", NOW).is_ok());
    let read_this = require(&s, "r-1").spec_digest().unwrap();

    assert!(s.send_back("r-1", "redo").is_ok());
    s.claim_next(Serves::Anything, "d-test", NOW);
    assert!(s.record_drafted("r-1", "d-test", draft("# Version two"), "specs/x", NOW).is_ok());

    let err = s.accept("r-1", &read_this).err().expect("the text changed").message();
    assert!(err.contains("changed after you opened it"), "{err}");
    assert!(err.contains("have not seen"), "{err}");
    assert_eq!(require(&s, "r-1").state, RequestState::AwaitingReview);
    let now = require(&s, "r-1").spec_digest().unwrap();
    assert_eq!(s.accept("r-1", &now).ok().unwrap().state, RequestState::Accepted);
}

#[test]
fn a_digest_is_over_the_spec_text_so_an_identical_redraft_still_approves() {
    let mut s = store();
    file(&mut s, "r-1", "alpha");
    s.claim_next(Serves::Anything, "d-test", NOW);
    assert!(s.record_drafted("r-1", "d-test", draft("# The spec"), "specs/x", NOW).is_ok());
    let digest = require(&s, "r-1").spec_digest().unwrap();

    assert!(s.send_back("r-1", "change it").is_ok());
    s.claim_next(Serves::Anything, "d-test", NOW);
    assert!(s.record_drafted("r-1", "d-test", draft("# The spec"), "specs/x", NOW).is_ok());
    assert!(s.accept("r-1", &digest).is_ok());
}

#[test]
fn only_a_request_awaiting_review_can_be_approved_or_sent_back() {
    let mut s = store();
    file(&mut s, "r-1", "alpha");
    assert!(s.accept("r-1", "any-digest").is_err());
    assert!(s.send_back("r-1", "change it").is_err());
}

#[test]
fn a_draft_is_timestamped_on_receipt_and_restamped_on_redraft() {
    let mut s = store();
    file(&mut s, "r-1", "alpha");
    assert!(require(&s, "r-1").drafted_ms.is_none());

    s.claim_next(Serves::Anything, "d-test", NOW);
    let first = s
        .record_drafted("r-1", "d-test", draft("# v1"), "specs/x", NOW)
        .ok()
        .unwrap()
        .drafted_ms
        .expect("stamped on receipt");
    assert!(s.send_back("r-1", "more detail").is_ok());
    s.claim_next(Serves::Anything, "d-test", NOW + 5);
    let second = s
        .record_drafted("r-1", "d-test", draft("# v2"), "specs/x", NOW + 9)
        .ok()
        .unwrap()
        .drafted_ms
        .expect("restamped");
    assert_eq!(first, NOW);
    assert_eq!(second, NOW + 9);
}

#[test]
fn a_record_written_before_drafted_ms_existed_still_loads() {
    let json = r#"{"id":"r-1","text":"t","repo":"alpha","kind":"bug",
                   "state":"queued","filed_ms":1}"#;
    let body = Body::parse(json).unwrap();
    let req = Request::filed_at(
        body.text("id").unwrap(),
        body.text("text").unwrap(),
        body.text("repo").unwrap(),
        IntakeKind::parse(body.text("kind").unwrap()).unwrap(),
        body.number("filed_ms").unwrap(),
    );
    assert_eq!((req.id.as_str(), req.repo.as_str(), req.filed_ms), ("r-1", "alpha", 1));
    assert_eq!(body.text("state"), Some(req.state.label()));
    assert!(req.drafted_ms.is_none());
    assert!(req.spec_digest().is_none(), "no spec, no digest");
}

#[test]
fn sending_back_requeues_with_the_note_and_drops_the_rejected_draft() {
    let mut s = store();
    file(&mut s, "r-1", "alpha");
    s.claim_next(Serves::Anything, "d-test", NOW);
    assert!(s.record_drafted("r-1", "d-test", draft("# Too vague"), "specs/x", NOW).is_ok());

    let req = s.send_back("r-1", "name the actual roles").ok().unwrap();
    assert_eq!(req.state, RequestState::Queued);
    assert_eq!(req.send_back_note.as_deref(), Some("name the actual roles"));
    assert!(req.spec.is_none(), "the rejected draft is dropped");

    let again = s.claim_next(Serves::Anything, "d-test", NOW).unwrap();
    assert_eq!(again.send_back_note.as_deref(), Some("name the actual roles"));
}

#[test]
fn a_send_back_needs_a_note() {
    let mut s = store();
    file(&mut s, "r-1", "alpha");
    s.claim_next(Serves::Anything, "d-test", NOW);
    assert!(s.record_drafted("r-1", "d-test", draft("# Spec"), "specs/x", NOW).is_ok());
    assert!(s.send_back("r-1", "  ").is_err());
}

#[test]
fn a_redraft_clears_the_spent_note() {
    let mut s = store();
    file(&mut s, "r-1", "alpha");
    s.claim_next(Serves::Anything, "d-test", NOW);
    assert!(s.record_drafted("r-1", "d-test", draft("# v1"), "specs/x", NOW).is_ok());
    assert!(s.send_back("r-1", "more detail").is_ok());
    s.claim_next(Serves::Anything, "d-test", NOW);

    let req = s
        .record_drafted("r-1", "d-test", draft("# v2"), "specs/x", NOW)
        .ok()
        .unwrap();
    assert!(req.send_back_note.is_none(), "the note is spent");
    assert_eq!(req.spec_text(), Some("# v2"));
}

#[test]
fn nothing_unscreened_is_ever_claimable() {
    let mut s = store();
    for (i, state) in [
        RequestState::Screening,
        RequestState::Quarantined,
        RequestState::Claimed,
        RequestState::AwaitingReview,
        RequestState::Accepted,
        RequestState::Discarded,
        RequestState::Failed,
    ]
    .into_iter()
    .enumerate()
    {
        file_in(&mut s, &format!("r-{i}"), &format!("repo-{i}"), state);
        assert!(!state.is_claimable(), "{state:?}");
    }
    assert!(
        s.claim_next(Serves::Anything, "d-test", NOW).is_none(),
        "no daemon may claim any of these"
    );

    let every_repo: Vec<String> = (0..7).map(|i| format!("repo-{i}")).collect();
    assert!(
        s.claim_next(Serves::These(&every_repo), "d-test", NOW).is_none(),
        "declaring a repository widens which queued work you get, never \
         whether unqueued work becomes claimable"
    );

    file_in(&mut s, "r-ok", "repo-ok", RequestState::Queued);
    assert_eq!(s.claim_next(Serves::Anything, "d-test", NOW).unwrap().id, "r-ok");
}

#[test]
fn a_daemon_only_gets_work_for_a_repository_it_serves() {
    let mut s = store();
    file(&mut s, "r-1", "alpha");
    file(&mut s, "r-2", "beta");

    let beta_only = vec!["beta".to_string()];
    let claimed = s
        .claim_next(Serves::These(&beta_only), "office", NOW)
        .expect("the beta daemon takes beta work");
    assert_eq!(claimed.id, "r-2");
    assert_eq!(claimed.claimed_by.as_deref(), Some("office"));

    assert!(
        s.claim_next(Serves::These(&beta_only), "office", NOW).is_none(),
        "alpha is not this daemon's to take"
    );

    let alpha_only = vec!["alpha".to_string()];
    assert_eq!(
        s.claim_next(Serves::These(&alpha_only), "laptop", NOW).unwrap().id,
        "r-1"
    );
}

#[test]
fn a_daemon_declaring_nothing_gets_everything_so_an_old_one_keeps_working() {
    let mut s = store();
    file(&mut s, "r-1", "alpha");
    assert_eq!(
        s.claim_next(Serves::Anything, "old-daemon", NOW).unwrap().id,
        "r-1"
    );
}

#[test]
fn a_daemon_declaring_an_empty_set_claims_nothing() {
    let mut s = store();
    file(&mut s, "r-1", "alpha");
    assert!(s.claim_next(Serves::These(&[]), "serves-nothing", NOW).is_none());
}

#[test]
fn a_served_repository_is_matched_exactly() {
    let mut s = store();
    file(&mut s, "r-1", "alpha");
    for near_miss in ["Alpha", "alph", "alphax", " alpha"] {
        let names = vec![near_miss.to_string()];
        assert!(
            s.claim_next(Serves::These(&names), "d-test", NOW).is_none(),
            "{near_miss:?} is not alpha"
        );
    }
}

#[test]
fn a_screening_verdict_can_only_withhold_never_admit_something_else() {
    let mut s = store();
    file_in(&mut s, "r-1", "alpha", RequestState::Screening);
    file_in(&mut s, "r-2", "beta", RequestState::Screening);

    assert_eq!(
        s.finish_screening("r-1", None).ok().unwrap().state,
        RequestState::Queued
    );
    let held = s.finish_screening("r-2", Some("screened as spam")).ok().unwrap();
    assert_eq!(held.state, RequestState::Quarantined);
    assert_eq!(held.note.as_deref(), Some("screened as spam"));
}

#[test]
fn a_late_verdict_cannot_requarantine_what_a_human_already_released() {
    let mut s = store();
    file_in(&mut s, "r-1", "alpha", RequestState::Quarantined);
    assert!(s.release("r-1").is_ok());

    let err = s
        .finish_screening("r-1", Some("spam"))
        .err()
        .expect("already decided")
        .message();
    assert!(err.contains("only one being screened"), "{err}");
    assert_eq!(require(&s, "r-1").state, RequestState::Queued);
}

#[test]
fn only_a_quarantined_request_can_be_released() {
    let mut s = store();
    for (i, state) in [
        RequestState::Screening,
        RequestState::Queued,
        RequestState::Claimed,
        RequestState::AwaitingReview,
        RequestState::Accepted,
        RequestState::Discarded,
        RequestState::Failed,
    ]
    .into_iter()
    .enumerate()
    {
        let id = format!("r-{i}");
        file_in(&mut s, &id, "alpha", state);
        assert!(s.release(&id).is_err(), "{state:?} must not be releasable");
    }
}

#[test]
fn releasing_keeps_the_reason_it_was_held() {
    let mut s = store();
    file_in(&mut s, "r-1", "alpha", RequestState::Screening);
    assert!(s.finish_screening("r-1", Some("screened as spam")).is_ok());

    let released = s.release("r-1").ok().unwrap();
    assert_eq!(released.state, RequestState::Queued);
    assert_eq!(released.note.as_deref(), Some("screened as spam"));
}

#[test]
fn pending_screening_finds_exactly_what_the_sweep_should_look_at() {
    let mut s = store();
    file_in(&mut s, "r-1", "alpha", RequestState::Screening);
    file_in(&mut s, "r-2", "beta", RequestState::Queued);
    file_in(&mut s, "r-3", "gamma", RequestState::Quarantined);

    let pending = s.pending_screening();
    assert_eq!(pending.len(), 1);
    assert_eq!(pending[0].id, "r-1");
}

#[test]
fn an_approved_request_cannot_be_discarded_out_from_under_its_spec() {
    let mut s = store();
    file(&mut s, "r-1", "alpha");
    s.claim_next(Serves::Anything, "d-test", NOW);
    assert!(s.record_drafted("r-1", "d-test", draft("# The spec"), "specs/x", NOW).is_ok());
    let digest = require(&s, "r-1").spec_digest().unwrap();
    assert!(s.accept("r-1", &digest).is_ok());

    let err = s.discard("r-1").err().expect("already settled").message();
    assert!(err.contains("was approved"), "{err}");
    assert_eq!(require(&s, "r-1").state, RequestState::Accepted);
}

#[test]
fn anything_not_yet_approved_can_be_discarded() {
    let mut s = store();
    for (id, prepare) in [("r-1", false), ("r-2", true)] {
        file(&mut s, id, id);
        if prepare {
            s.claim_next(Serves::Anything, "d-test", NOW);
            assert!(s.record_drafted(id, "d-test", draft("# Spec"), "specs/x", NOW).is_ok());
        }
        assert_eq!(
            s.discard(id).ok().unwrap().state,
            RequestState::Discarded,
            "{id}"
        );
    }
    assert!(s.discard("r-1").is_ok());
}

#[test]
fn a_failure_is_recorded_with_its_reason_and_never_reclaimed() {
    let mut s = store();
    file(&mut s, "r-1", "alpha");
    s.claim_next(Serves::Anything, "d-test", NOW);

    let req = s
        .record_failed("r-1", "d-test", "the backend was unreachable")
        .ok()
        .unwrap();
    assert_eq!(req.state, RequestState::Failed);
    assert_eq!(req.note.as_deref(), Some("the backend was unreachable"));
    assert!(
        s.claim_next(Serves::Anything, "d-test", NOW).is_none(),
        "not picked back up"
    );
}

#[test]
fn a_list_shows_what_needs_a_human_first() {
    let mut states = [
        RequestState::Accepted,
        RequestState::Queued,
        RequestState::AwaitingReview,
        RequestState::Failed,
    ];
    states.sort_by_key(|s| s.list_order());
    assert_eq!(states[0], RequestState::AwaitingReview);
}

#[test]
fn what_is_written_reads_back_in_the_order_of_ids() {
    let mut s = store();
    file(&mut s, "r-2", "beta");
    file(&mut s, "r-1", "alpha");
    file(&mut s, "r-3", "gamma");
    let ids: Vec<String> = s.all().into_iter().map(|r| r.id).collect();
    assert_eq!(ids, vec!["r-1", "r-2", "r-3"]);

    let mut again = require(&s, "r-2");
    again.text = "changed".into();
    s.put(&again);
    assert_eq!(s.all().len(), 3, "written in its place");
    assert_eq!(require(&s, "r-2").text, "changed");
    assert!(s.get("r-4").is_none());
    assert_eq!(
        s.require("r-4").err().expect("there is none").message(),
        "no request \"r-4\""
    );
}

#[test]
fn a_filing_and_a_run_are_counted_over_the_window() {
    let mut s = store();
    for (id, at) in [("r-1", 100), ("r-2", 200), ("r-3", 300)] {
        let r = Request::public(id, "t", id, IntakeKind::Bug, "acct", false, at);
        s.put(&r);
    }
    assert_eq!(s.filed_since("acct", 0), 3);
    assert_eq!(s.filed_since("acct", 200), 2);
    assert_eq!(s.filed_since("acct", 301), 0);
    assert_eq!(s.filed_since("somebody else", 0), 0);

    s.claim_next(Serves::Anything, "d", NOW);
    assert!(s.record_released("r-1", "d", "no").is_ok());
    s.claim_next(Serves::Anything, "d", NOW + 1);
    assert_eq!(s.drafts_since("r-1", NOW), 2);
    assert_eq!(s.drafts_since("r-1", NOW + 1), 1);
    assert_eq!(s.drafts_since("r-2", 0), 0);
}

#[test]
fn ids_are_ordered_by_time_and_differ_within_a_millisecond() {
    assert_eq!(sc_server::store::id_at(1_000, 7), "0000000001000-0007");
    assert_eq!(sc_server::store::id_at(1_700_000_000_000, 12_345), "1700000000000-2345");
    let mut counter = 9;
    let a = sc_server::store::new_id(&mut counter);
    let b = sc_server::store::new_id(&mut counter);
    assert_eq!(counter, 11);
    assert_ne!(a, b);
    assert!(a < b || a[..13] == b[..13], "{a} {b}");
    assert!(a.ends_with("-0009"), "{a}");
    assert_eq!((a.len(), a.as_bytes()[13]), (18, b'-'));
    assert_ne!(
        sc_server::store::id_at(5, 1),
        sc_server::store::id_at(4, 9_999),
        "even where the clock went back"
    );
    assert_eq!(sc_server::store::id_at(5, 1), sc_server::store::id_at(5, 10_001));
}

#[test]
fn every_refusal_says_what_it_is() {
    let mut s = store();
    file_in(&mut s, "r-q", "alpha", RequestState::Queued);
    file_in(&mut s, "r-w", "beta", RequestState::AwaitingReview);
    let say = |e: Option<sc_server::store::StoreError>| e.expect("it is refused").message();

    assert!(say(s.record_failed("r-q", "d", "x").err()).contains("r-q"));
    assert!(say(s.accept("r-q", "d").err()).contains("r-q"));
    assert!(say(s.accept("r-w", "d").err()).contains("r-w"), "no draft to approve");
    assert!(say(s.release("r-q").err()).contains("r-q"));
    assert!(say(s.send_back("r-q", "x").err()).contains("r-q"));
    assert!(!say(s.send_back("r-w", "").err()).is_empty());
    assert!(say(s.finish_screening("r-q", None).err()).contains("r-q"));
    assert_eq!(say(s.discard("nope").err()), "no request \"nope\"");
}
