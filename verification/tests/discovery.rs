use merge_pr_in_all::accounts::{list_target_accounts, AccountSet, UpstreamError};
use merge_pr_in_all::discovery::{
    collect_page, collect_repository, DiscoveryAction, DiscoveryWalk, PageEvent, PullRequestNode,
    RepositoryNode, RepositoryPage,
};
use merge_pr_in_all::query::{GetPullRequestsQuery, Variables, OPERATION_NAME, QUERY};
use merge_pr_in_all::record::PullRequestRecord;

fn accounts(logins: &[&str]) -> AccountSet {
    let mut set = AccountSet::new();
    for login in logins {
        set = set.with(login.to_string());
    }
    set
}

fn node(number: u64, title: &str, author: &str) -> PullRequestNode {
    PullRequestNode { number, title: title.to_string(), author: author.to_string() }
}

fn repository(name: &str, pull_requests: Vec<PullRequestNode>) -> RepositoryNode {
    RepositoryNode { name_with_owner: name.to_string(), pull_requests }
}

fn page(repositories: Vec<RepositoryNode>, next: Option<&str>) -> PageEvent {
    PageEvent::Page(RepositoryPage { repositories, next_cursor: next.map(|c| c.to_string()) })
}

fn record(repository: &str, number: u64, title: &str, submitter: &str) -> PullRequestRecord {
    PullRequestRecord {
        repository: repository.to_string(),
        number,
        title: title.to_string(),
        submitter: submitter.to_string(),
    }
}

fn fetch(login: &str, cursor: &str) -> DiscoveryAction {
    DiscoveryAction::FetchPage(Variables {
        login: login.to_string(),
        repositories_cursor: cursor.to_string(),
    })
}

/// A fixed upstream: what it answers to a page request.
fn upstream(login: &str, cursor: &str) -> PageEvent {
    match (login, cursor) {
        ("acme", "") => page(
            vec![
                repository("acme/widgets", vec![node(1, "Bump deps", "bot"), node(2, "Fix bug", "alice")]),
                repository("acme/empty", vec![]),
            ],
            Some("c1"),
        ),
        ("acme", "c1") => page(vec![repository("acme/gadgets", vec![node(7, "Fix bug", "alice")])], None),
        ("alice", "") => page(vec![repository("alice/dotfiles", vec![node(3, "Tidy", "alice")])], None),
        _ => PageEvent::OwnerMissing,
    }
}

fn discover(logins: &[&str]) -> Vec<PullRequestRecord> {
    let mut walk = DiscoveryWalk::start(accounts(logins));
    loop {
        match walk.pending() {
            DiscoveryAction::FetchPage(variables) => {
                let event = upstream(&variables.login, &variables.repositories_cursor);
                walk = walk.step(event);
            }
            DiscoveryAction::Finished => break,
        }
    }
    match walk.finish() {
        Ok(records) => records,
        Err(e) => panic!("unexpected failure {:?}", e),
    }
}

#[test]
fn walk_pages_through_every_account_in_order() {
    let walk = DiscoveryWalk::start(accounts(&["acme", "alice"]));
    assert!(!walk.is_done());
    assert_eq!(walk.pending(), fetch("acme", ""));
    let walk = walk.step(upstream("acme", ""));
    assert_eq!(walk.pending(), fetch("acme", "c1"));
    let walk = walk.step(upstream("acme", "c1"));
    assert_eq!(walk.pending(), fetch("alice", ""));
    let walk = walk.step(upstream("alice", ""));
    assert!(walk.is_done());
    assert_eq!(walk.pending(), DiscoveryAction::Finished);
    assert_eq!(
        walk.finish(),
        Ok(vec![
            record("acme/widgets", 1, "Bump deps", "bot"),
            record("acme/widgets", 2, "Fix bug", "alice"),
            record("acme/gadgets", 7, "Fix bug", "alice"),
            record("alice/dotfiles", 3, "Tidy", "alice"),
        ])
    );
}

#[test]
fn account_without_owner_is_passed_over() {
    let records = discover(&["ghost", "acme", "nobody", "alice"]);
    assert_eq!(
        records,
        vec![
            record("acme/widgets", 1, "Bump deps", "bot"),
            record("acme/widgets", 2, "Fix bug", "alice"),
            record("acme/gadgets", 7, "Fix bug", "alice"),
            record("alice/dotfiles", 3, "Tidy", "alice"),
        ]
    );
}

#[test]
fn owner_that_vanishes_between_pages_keeps_what_was_found() {
    let walk = DiscoveryWalk::start(accounts(&["acme", "alice"]));
    let walk = walk.step(upstream("acme", ""));
    let walk = walk.step(PageEvent::OwnerMissing);
    assert_eq!(walk.pending(), fetch("alice", ""));
    let walk = walk.step(upstream("alice", ""));
    assert_eq!(
        walk.finish(),
        Ok(vec![
            record("acme/widgets", 1, "Bump deps", "bot"),
            record("acme/widgets", 2, "Fix bug", "alice"),
            record("alice/dotfiles", 3, "Tidy", "alice"),
        ])
    );
}

#[test]
fn discovery_twice_finds_the_same_records() {
    let first = discover(&["acme", "alice"]);
    let second = discover(&["acme", "alice"]);
    assert_eq!(first, second);
}

#[test]
fn visiting_order_does_not_change_the_records_found() {
    let mut first = discover(&["acme", "alice", "ghost"]);
    let mut second = discover(&["ghost", "alice", "acme"]);
    assert_ne!(first, second);
    let key = |r: &PullRequestRecord| (r.repository.clone(), r.number);
    first.sort_by_key(key);
    second.sort_by_key(key);
    assert_eq!(first, second);
    assert_eq!(first.len(), 4);
}

#[test]
fn failed_request_ends_the_walk_with_its_error() {
    let walk = DiscoveryWalk::start(accounts(&["acme", "alice"]));
    let walk = walk.step(upstream("acme", ""));
    let walk = walk.step(PageEvent::Failed(UpstreamError::UpstreamRateLimitError));
    assert!(walk.is_done());
    assert_eq!(walk.pending(), DiscoveryAction::Finished);
    let walk = walk.step(upstream("alice", ""));
    assert_eq!(walk.finish(), Err(UpstreamError::UpstreamRateLimitError));
}

#[test]
fn walk_over_no_account_is_finished_at_once() {
    let walk = DiscoveryWalk::start(AccountSet::new());
    assert!(walk.is_done());
    assert_eq!(walk.pending(), DiscoveryAction::Finished);
    let walk = walk.step(upstream("acme", ""));
    assert_eq!(walk.finish(), Ok(vec![]));
}

#[test]
fn walk_visits_the_resolved_accounts() {
    let set = match list_target_accounts(Ok(vec!["acme".to_string()]), Ok("alice".to_string())) {
        Ok(set) => set,
        Err(e) => panic!("unexpected failure {:?}", e),
    };
    let walk = DiscoveryWalk::start(set);
    assert_eq!(walk.pending(), fetch("acme", ""));
    let walk = walk.step(PageEvent::OwnerMissing);
    assert_eq!(walk.pending(), fetch("alice", ""));
}

#[test]
fn page_records_keep_repository_then_listing_order() {
    let mut records = vec![record("x/y", 9, "Old", "zed")];
    let listing = RepositoryPage {
        repositories: vec![
            repository("a/one", vec![node(2, "B", "u2"), node(1, "A", "u1")]),
            repository("a/none", vec![]),
            repository("a/two", vec![node(5, "C", "u3")]),
        ],
        next_cursor: None,
    };
    collect_page(&listing, &mut records);
    assert_eq!(
        records,
        vec![
            record("x/y", 9, "Old", "zed"),
            record("a/one", 2, "B", "u2"),
            record("a/one", 1, "A", "u1"),
            record("a/two", 5, "C", "u3"),
        ]
    );
    let mut more = Vec::new();
    collect_repository(&repository("b/three", vec![node(8, "D", "u4")]), &mut more);
    assert_eq!(more, vec![record("b/three", 8, "D", "u4")]);
}

#[test]
fn query_body_carries_the_variables() {
    let variables = Variables { login: "acme".to_string(), repositories_cursor: "c1".to_string() };
    let body = GetPullRequestsQuery::build_query(variables);
    assert_eq!(body.variables.login, "acme");
    assert_eq!(body.variables.repositories_cursor, "c1");
    assert_eq!(body.operation_name, "GetPullRequestsQuery");
    assert_eq!(body.operation_name, OPERATION_NAME);
    assert_eq!(body.query, QUERY);
    assert!(body.query.contains("query GetPullRequestsQuery("));
    assert!(body.query.contains("$repositories_cursor"));
}
