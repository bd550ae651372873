use merge_pr_in_all::accounts::UpstreamError;
use merge_pr_in_all::record::{MergeSelector, PullRequestRecord};
use merge_pr_in_all::scheduler::{
    CycleReport, RefreshScheduler, SchedulerAction, SchedulerPhase, REFRESH_INTERVAL_SECS,
};
use merge_pr_in_all::snapshot::{copy_records, count_distinct_titles, select_records, SnapshotStore};

fn record(repository: &str, number: u64, title: &str, submitter: &str) -> PullRequestRecord {
    PullRequestRecord {
        repository: repository.to_string(),
        number,
        title: title.to_string(),
        submitter: submitter.to_string(),
    }
}

fn sample() -> Vec<PullRequestRecord> {
    vec![
        record("acme/widgets", 1, "Bump deps", "bot"),
        record("acme/widgets", 2, "Fix bug", "alice"),
        record("acme/gadgets", 3, "Bump deps", "bot"),
        record("acme/gadgets", 4, "Fix bug", "bob"),
    ]
}

#[test]
fn store_starts_empty() {
    let store = SnapshotStore::new();
    assert_eq!(store.len(), 0);
    assert_eq!(store.read_all(), vec![]);
    assert_eq!(store.distinct_titles(), 0);
}

#[test]
fn replace_installs_the_whole_new_snapshot() {
    let mut store = SnapshotStore::new();
    store.replace(sample());
    assert_eq!(store.len(), 4);
    assert_eq!(store.read_all(), sample());
    store.replace(vec![record("acme/tools", 9, "New", "carol")]);
    assert_eq!(store.read_all(), vec![record("acme/tools", 9, "New", "carol")]);
    store.replace(vec![]);
    assert_eq!(store.read_all(), vec![]);
}

#[test]
fn read_all_hands_out_a_copy() {
    let mut store = SnapshotStore::new();
    store.replace(sample());
    let mut copy = store.read_all();
    copy.clear();
    store.replace(vec![record("acme/tools", 9, "New", "carol")]);
    assert!(copy.is_empty());
    assert_eq!(store.len(), 1);
}

#[test]
fn select_keeps_matching_records_in_order() {
    let mut store = SnapshotStore::new();
    let mut records = sample();
    records.push(record("acme/tools", 5, "Bump deps", "bot"));
    store.replace(records);
    let selector = MergeSelector { submitter: "bot".to_string(), title: "Bump deps".to_string() };
    assert_eq!(
        store.select(&selector),
        vec![
            record("acme/widgets", 1, "Bump deps", "bot"),
            record("acme/gadgets", 3, "Bump deps", "bot"),
            record("acme/tools", 5, "Bump deps", "bot"),
        ]
    );
    let nobody = MergeSelector { submitter: "bot".to_string(), title: "Fix bug".to_string() };
    assert_eq!(store.select(&nobody), vec![]);
    assert!(selector.selects(&record("z/z", 1, "Bump deps", "bot")));
    assert!(!selector.selects(&record("z/z", 1, "Bump deps", "Bot")));
    assert!(!selector.selects(&record("z/z", 1, "bump deps", "bot")));
    assert_eq!(select_records(&sample(), &nobody), vec![]);
    assert_eq!(copy_records(&sample()), sample());
}

#[test]
fn distinct_titles_are_counted_once_each() {
    assert_eq!(count_distinct_titles(&sample()), 2);
    assert_eq!(count_distinct_titles(&vec![]), 0);
    let mut store = SnapshotStore::new();
    store.replace(vec![
        record("a/b", 1, "x", "u"),
        record("a/b", 2, "y", "u"),
        record("a/b", 3, "x", "v"),
        record("a/b", 4, "z", "u"),
        record("a/b", 5, "y", "w"),
    ]);
    assert_eq!(store.distinct_titles(), 3);
}

#[test]
fn scheduler_refreshes_at_startup_and_then_after_every_interval() {
    let mut scheduler = RefreshScheduler::new(REFRESH_INTERVAL_SECS);
    let mut store = SnapshotStore::new();
    assert_eq!(REFRESH_INTERVAL_SECS, 600);
    assert_eq!(scheduler.pending(), SchedulerAction::Refresh);
    scheduler.finish_cycle(&mut store, Ok(sample()));
    assert_eq!(scheduler.phase, SchedulerPhase::Waiting);
    assert_eq!(scheduler.pending(), SchedulerAction::Wait(600));
    scheduler.interval_elapsed();
    assert_eq!(scheduler.pending(), SchedulerAction::Refresh);
    scheduler.finish_cycle(&mut store, Err(UpstreamError::UpstreamFetchFailed));
    assert_eq!(scheduler.pending(), SchedulerAction::Wait(600));
    assert_eq!(scheduler.interval_secs, 600);
}

#[test]
fn finished_cycle_installs_what_was_discovered() {
    let mut scheduler = RefreshScheduler::new(5);
    let mut store = SnapshotStore::new();
    let report = scheduler.finish_cycle(&mut store, Ok(sample()));
    assert_eq!(report, CycleReport::Installed { records: 4, distinct_titles: 2 });
    assert_eq!(store.read_all(), sample());
}

#[test]
fn failed_cycle_leaves_the_previous_snapshot_in_use() {
    let mut scheduler = RefreshScheduler::new(5);
    let mut store = SnapshotStore::new();
    store.replace(sample());
    let report = scheduler.finish_cycle(&mut store, Err(UpstreamError::UpstreamAuthError));
    assert_eq!(report, CycleReport::Failed(UpstreamError::UpstreamAuthError));
    assert_eq!(store.read_all(), sample());
    assert_eq!(scheduler.pending(), SchedulerAction::Wait(5));
}
