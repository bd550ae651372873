use merge_pr_in_all::accounts::{list_target_accounts, AccountSet, UpstreamError};
use merge_pr_in_all::checks::CheckRun;
use merge_pr_in_all::merge::{
    CandidateState, LivePullRequest, MergeAction, MergeEvent, MergeMethod, Rejection,
};
use merge_pr_in_all::record::PullRequestRecord;
use merge_pr_in_all::run::{attempt_merge, MergeRun};
use merge_pr_in_all::snapshot::SnapshotStore;
use merge_pr_in_all::trigger::{receive_trigger, AutoMergeRequest, TriggerDecision};

fn record(repository: &str, number: u64, title: &str, submitter: &str) -> PullRequestRecord {
    PullRequestRecord {
        repository: repository.to_string(),
        number,
        title: title.to_string(),
        submitter: submitter.to_string(),
    }
}

fn check(name: &str, id: u64, conclusion: Option<&str>) -> CheckRun {
    CheckRun { name: name.to_string(), id, conclusion: conclusion.map(|c| c.to_string()) }
}

fn accounts() -> Result<AccountSet, UpstreamError> {
    list_target_accounts(Ok(vec!["acme".to_string()]), Ok("alice".to_string()))
}

fn begin(records: Vec<PullRequestRecord>, login: &str, title: &str) -> MergeRun {
    let mut store = SnapshotStore::new();
    store.replace(records);
    let request = AutoMergeRequest {
        login: login.to_string(),
        title: title.to_string(),
        auth_token: "s3cret".to_string(),
    };
    match receive_trigger(&"s3cret".to_string(), request) {
        TriggerDecision::Dispatch(trigger) => match attempt_merge(trigger, accounts(), &store) {
            Ok(run) => run,
            Err(e) => panic!("unexpected failure {:?}", e),
        },
        TriggerDecision::Reject => panic!("the secret matches"),
    }
}

fn live(title: &str, head: &str) -> MergeEvent {
    MergeEvent::PullRequest(Some(LivePullRequest {
        title: title.to_string(),
        head_sha: head.to_string(),
    }))
}

#[test]
fn passing_checks_lead_to_a_merge_of_the_live_head() {
    let run = begin(vec![record("acme/widgets", 42, "Fix bug", "alice")], "alice", "Fix bug");
    match run.pending() {
        MergeAction::FetchPullRequest { owner, name, number } => {
            assert_eq!(owner, "acme");
            assert_eq!(name, "widgets");
            assert_eq!(number, 42);
        }
        other => panic!("unexpected action {:?}", other),
    }
    let run = run.step(live("Fix bug", "abc123"));
    match run.pending() {
        MergeAction::FetchCheckRuns { owner, name, head } => {
            assert_eq!(owner, "acme");
            assert_eq!(name, "widgets");
            assert_eq!(head, "abc123");
        }
        other => panic!("unexpected action {:?}", other),
    }
    let run = run.step(MergeEvent::CheckRuns(Some(vec![check("ci", 1, Some("success"))])));
    match run.pending() {
        MergeAction::Merge { owner, name, number, head, method, commit_title } => {
            assert_eq!(owner, "acme");
            assert_eq!(name, "widgets");
            assert_eq!(number, 42);
            assert_eq!(head, "abc123");
            assert_eq!(method, MergeMethod::Merge);
            assert_eq!(commit_title, "Auto merge! (merge-pr-in-all)");
        }
        other => panic!("unexpected action {:?}", other),
    }
    let run = run.step(MergeEvent::MergeResult(true));
    assert!(run.is_done());
    assert!(matches!(run.pending(), MergeAction::Done));
    assert_eq!(run.settled().len(), 1);
    assert!(matches!(run.settled()[0], CandidateState::Merged));
}

#[test]
fn failing_check_rejects_without_a_merge() {
    let run = begin(vec![record("acme/widgets", 42, "Fix bug", "alice")], "alice", "Fix bug");
    let run = run.step(live("Fix bug", "abc123"));
    let run = run.step(MergeEvent::CheckRuns(Some(vec![check("ci", 7, Some("failure"))])));
    assert!(run.is_done());
    assert!(matches!(run.pending(), MergeAction::Done));
    match &run.settled()[0] {
        CandidateState::Rejected(Rejection::CheckNotPassing(failed)) => {
            assert_eq!(failed.name, "ci");
            assert_eq!(failed.id, 7);
            assert_eq!(failed.conclusion.as_deref(), Some("failure"));
        }
        other => panic!("unexpected state {:?}", other),
    }
}

fn revalidated(records: Vec<PullRequestRecord>, login: &str, title: &str, head: &str) -> MergeRun {
    begin(records, login, title).step(live(title, head))
}

#[test]
fn success_and_skipped_checks_are_merged() {
    let run = revalidated(vec![record("acme/widgets", 42, "Fix bug", "alice")], "alice", "Fix bug", "abc123");
    let run = run.step(MergeEvent::CheckRuns(Some(vec![
        check("ci", 1, Some("success")),
        check("docs", 2, Some("skipped")),
    ])));
    assert!(matches!(run.pending(), MergeAction::Merge { .. }));
    assert_eq!(run.current(), &CandidateState::ChecksEvaluated { head: "abc123".to_string() });
    let run = run.step(MergeEvent::MergeResult(true));
    assert_eq!(run.settled(), &vec![CandidateState::Merged]);
}

#[test]
fn neutral_check_is_accepted() {
    let run = revalidated(vec![record("acme/widgets", 42, "Fix bug", "alice")], "alice", "Fix bug", "abc123");
    let run = run.step(MergeEvent::CheckRuns(Some(vec![check("ci", 1, Some("neutral"))])));
    assert!(matches!(run.pending(), MergeAction::Merge { .. }));
}

#[test]
fn pending_check_rejects_without_a_merge() {
    let run = revalidated(vec![record("acme/widgets", 42, "Fix bug", "alice")], "alice", "Fix bug", "abc123");
    let run = run.step(MergeEvent::CheckRuns(Some(vec![
        check("ci", 1, Some("success")),
        check("e2e", 2, None),
    ])));
    assert_eq!(run.pending(), MergeAction::Done);
    assert_eq!(
        run.settled(),
        &vec![CandidateState::Rejected(Rejection::CheckNotPassing(check("e2e", 2, None)))]
    );
}

#[test]
fn first_failing_check_is_reported_and_later_ones_are_not() {
    let run = revalidated(vec![record("acme/widgets", 42, "Fix bug", "alice")], "alice", "Fix bug", "abc123");
    let run = run.step(MergeEvent::CheckRuns(Some(vec![
        check("ci", 1, Some("success")),
        check("lint", 2, Some("failure")),
        check("e2e", 3, Some("cancelled")),
    ])));
    assert_eq!(
        run.settled(),
        &vec![CandidateState::Rejected(Rejection::CheckNotPassing(check("lint", 2, Some("failure"))))]
    );
}

#[test]
fn no_checks_rejects_as_not_configured() {
    let run = revalidated(vec![record("acme/widgets", 42, "Fix bug", "alice")], "alice", "Fix bug", "abc123");
    let run = run.step(MergeEvent::CheckRuns(Some(vec![])));
    assert_eq!(run.pending(), MergeAction::Done);
    assert_eq!(run.settled(), &vec![CandidateState::Rejected(Rejection::NoChecksConfigured)]);
}

#[test]
fn stale_title_rejects_before_any_check_is_fetched() {
    let run = begin(vec![record("acme/widgets", 42, "Fix bug", "alice")], "alice", "Fix bug");
    let run = run.step(live("Fix bug (v2)", "abc123"));
    assert_eq!(run.pending(), MergeAction::Done);
    assert_eq!(run.settled(), &vec![CandidateState::Rejected(Rejection::StaleTitle)]);
    // Whatever comes later, nothing is merged.
    let run = run.step(MergeEvent::CheckRuns(Some(vec![check("ci", 1, Some("success"))])));
    let run = run.step(MergeEvent::MergeResult(true));
    assert_eq!(run.pending(), MergeAction::Done);
    assert_eq!(run.settled(), &vec![CandidateState::Rejected(Rejection::StaleTitle)]);
}

#[test]
fn failed_fetch_of_the_pull_request_rejects() {
    let run = begin(vec![record("acme/widgets", 42, "Fix bug", "alice")], "alice", "Fix bug");
    let run = run.step(MergeEvent::PullRequest(None));
    assert_eq!(run.settled(), &vec![CandidateState::Rejected(Rejection::UpstreamFetchFailed)]);
    assert!(run.is_done());
}

#[test]
fn failed_fetch_of_the_check_runs_rejects() {
    let run = revalidated(vec![record("acme/widgets", 42, "Fix bug", "alice")], "alice", "Fix bug", "abc123");
    let run = run.step(MergeEvent::CheckRuns(None));
    assert_eq!(run.settled(), &vec![CandidateState::Rejected(Rejection::UpstreamFetchFailed)]);
    assert!(run.is_done());
}

#[test]
fn refused_merge_rejects() {
    let run = revalidated(vec![record("acme/widgets", 42, "Fix bug", "alice")], "alice", "Fix bug", "abc123");
    let run = run.step(MergeEvent::CheckRuns(Some(vec![check("ci", 1, Some("success"))])));
    let run = run.step(MergeEvent::MergeResult(false));
    assert_eq!(run.settled(), &vec![CandidateState::Rejected(Rejection::UpstreamMergeFailed)]);
    assert!(run.is_done());
}

#[test]
fn only_selected_records_become_candidates() {
    let snapshot = vec![
        record("acme/widgets", 1, "Bump deps", "bot"),
        record("acme/widgets", 2, "Fix bug", "alice"),
        record("acme/gadgets", 3, "Fix bug", "bob"),
        record("acme/gadgets", 4, "Fix bug", "alice"),
        record("acme/tools", 5, "Fix bugs", "alice"),
    ];
    let run = begin(snapshot, "alice", "Fix bug");
    assert_eq!(
        run.candidates(),
        &vec![record("acme/widgets", 2, "Fix bug", "alice"), record("acme/gadgets", 4, "Fix bug", "alice")]
    );
    assert_eq!(
        run.pending(),
        MergeAction::FetchPullRequest { owner: "acme".to_string(), name: "widgets".to_string(), number: 2 }
    );
    let run = run.step(MergeEvent::PullRequest(None));
    assert_eq!(
        run.pending(),
        MergeAction::FetchPullRequest { owner: "acme".to_string(), name: "gadgets".to_string(), number: 4 }
    );
    let run = run.step(MergeEvent::PullRequest(None));
    assert_eq!(run.pending(), MergeAction::Done);
}

#[test]
fn no_match_is_no_work() {
    let run = begin(vec![record("acme/widgets", 1, "Bump deps", "bot")], "alice", "Fix bug");
    assert!(run.is_done());
    assert_eq!(run.pending(), MergeAction::Done);
    assert!(run.candidates().is_empty());
    assert!(run.settled().is_empty());
}

#[test]
fn one_rejected_candidate_does_not_stop_the_next() {
    let snapshot = vec![
        record("acme/widgets", 2, "Fix bug", "alice"),
        record("acme/gadgets", 4, "Fix bug", "alice"),
    ];
    let run = begin(snapshot, "alice", "Fix bug");
    let run = run.step(live("Another title", "111"));
    let run = run.step(live("Fix bug", "222"));
    assert_eq!(
        run.pending(),
        MergeAction::FetchCheckRuns { owner: "acme".to_string(), name: "gadgets".to_string(), head: "222".to_string() }
    );
    let run = run.step(MergeEvent::CheckRuns(Some(vec![check("ci", 9, Some("success"))])));
    let run = run.step(MergeEvent::MergeResult(true));
    assert_eq!(
        run.settled(),
        &vec![CandidateState::Rejected(Rejection::StaleTitle), CandidateState::Merged]
    );
}

#[test]
fn malformed_repository_identity_is_skipped() {
    let snapshot = vec![
        record("widgets", 1, "Fix bug", "alice"),
        record("acme/gadgets", 4, "Fix bug", "alice"),
        record("", 5, "Fix bug", "alice"),
    ];
    let run = begin(snapshot, "alice", "Fix bug");
    assert_eq!(
        run.settled(),
        &vec![CandidateState::Rejected(Rejection::MalformedRepositoryIdentity)]
    );
    assert_eq!(
        run.pending(),
        MergeAction::FetchPullRequest { owner: "acme".to_string(), name: "gadgets".to_string(), number: 4 }
    );
    let run = run.step(MergeEvent::PullRequest(None));
    assert!(run.is_done());
    assert_eq!(
        run.settled(),
        &vec![
            CandidateState::Rejected(Rejection::MalformedRepositoryIdentity),
            CandidateState::Rejected(Rejection::UpstreamFetchFailed),
            CandidateState::Rejected(Rejection::MalformedRepositoryIdentity),
        ]
    );
}

#[test]
fn repository_splits_at_the_first_slash_only() {
    let run = begin(vec![record("acme/widgets/extra", 7, "Fix bug", "alice")], "alice", "Fix bug");
    assert_eq!(
        run.pending(),
        MergeAction::FetchPullRequest { owner: "acme".to_string(), name: "widgets/extra".to_string(), number: 7 }
    );
}

#[test]
fn an_event_that_answers_no_pending_call_changes_nothing() {
    let run = begin(vec![record("acme/widgets", 42, "Fix bug", "alice")], "alice", "Fix bug");
    let run = run.step(MergeEvent::MergeResult(true));
    let run = run.step(MergeEvent::CheckRuns(Some(vec![check("ci", 1, Some("success"))])));
    assert_eq!(run.current(), &CandidateState::Matched);
    assert!(matches!(run.pending(), MergeAction::FetchPullRequest { .. }));
    let run = run.step(live("Fix bug", "abc123"));
    let run = run.step(live("Fix bug", "def456"));
    assert_eq!(run.current(), &CandidateState::Revalidated { head: "abc123".to_string() });
    assert!(run.settled().is_empty());
}

#[test]
fn failed_account_resolution_fails_the_attempt() {
    let mut store = SnapshotStore::new();
    store.replace(vec![record("acme/widgets", 42, "Fix bug", "alice")]);
    let request = AutoMergeRequest {
        login: "alice".to_string(),
        title: "Fix bug".to_string(),
        auth_token: "s3cret".to_string(),
    };
    let trigger = match receive_trigger(&"s3cret".to_string(), request) {
        TriggerDecision::Dispatch(trigger) => trigger,
        TriggerDecision::Reject => panic!("the secret matches"),
    };
    let accounts = list_target_accounts(Err(UpstreamError::UpstreamRateLimitError), Ok("alice".to_string()));
    match attempt_merge(trigger, accounts, &store) {
        Err(e) => assert_eq!(e, UpstreamError::UpstreamRateLimitError),
        Ok(_) => panic!("the attempt must fail"),
    }
}

#[test]
fn candidate_state_follows_the_engine_table() {
    let title = "Fix bug".to_string();
    let matched = CandidateState::Matched;
    assert!(!matched.is_terminal());
    let next = matched.on_event(&title, live("Fix bug", "abc"));
    assert_eq!(next, CandidateState::Revalidated { head: "abc".to_string() });
    let next = next.on_event(&title, MergeEvent::CheckRuns(Some(vec![check("ci", 1, Some("success"))])));
    assert_eq!(next, CandidateState::ChecksEvaluated { head: "abc".to_string() });
    let next = next.on_event(&title, MergeEvent::MergeResult(true));
    assert_eq!(next, CandidateState::Merged);
    assert!(next.is_terminal());
    let still = next.on_event(&title, MergeEvent::MergeResult(false));
    assert_eq!(still, CandidateState::Merged);
    assert!(CandidateState::Rejected(Rejection::StaleTitle).is_terminal());
}
