//! The discovery walker: pages through the repositories of every target account and
//! collects their open pull requests into flat records.
//!
//! The walker does no I/O. [`DiscoveryWalk::pending`] names the page to fetch next, and
//! [`DiscoveryWalk::step`] takes what the upstream API answered.

use vstd::prelude::*;
use crate::accounts::{AccountSet, UpstreamError};
use crate::text::strings_view;
use crate::query::{Variables, VariablesView};
use crate::record::{records_view, PullRequestRecord, RecordView};

verus! {

/// An open pull request as a page lists it.
#[derive(Debug, PartialEq, Eq)]
pub struct PullRequestNode {
    pub number: u64,
    pub title: String,
    /// Login of the author.
    pub author: String,
}

/// Mathematical value of a [`PullRequestNode`].
pub ghost struct PullRequestNodeView {
    pub number: u64,
    pub title: Seq<char>,
    pub author: Seq<char>,
}

impl View for PullRequestNode {
    type V = PullRequestNodeView;

    open spec fn view(&self) -> PullRequestNodeView {
        PullRequestNodeView { number: self.number, title: self.title@, author: self.author@ }
    }
}

/// A repository as a page lists it, with its open pull requests.
#[derive(Debug, PartialEq, Eq)]
pub struct RepositoryNode {
    /// Identity of the repository, written `owner/name`.
    pub name_with_owner: String,
    pub pull_requests: Vec<PullRequestNode>,
}

/// Mathematical value of a [`RepositoryNode`].
pub ghost struct RepositoryNodeView {
    pub name_with_owner: Seq<char>,
    pub pull_requests: Seq<PullRequestNodeView>,
}

impl View for RepositoryNode {
    type V = RepositoryNodeView;

    open spec fn view(&self) -> RepositoryNodeView {
        RepositoryNodeView {
            name_with_owner: self.name_with_owner@,
            pull_requests: self.pull_requests@.map_values(|p: PullRequestNode| p@),
        }
    }
}

/// One page of an account's repositories.
#[derive(Debug, PartialEq, Eq)]
pub struct RepositoryPage {
    pub repositories: Vec<RepositoryNode>,
    /// The cursor of the next page; `None` on the last page.
    pub next_cursor: Option<String>,
}

/// Mathematical value of a [`RepositoryPage`].
pub ghost struct PageView {
    pub repositories: Seq<RepositoryNodeView>,
    pub next_cursor: Option<Seq<char>>,
}

impl View for RepositoryPage {
    type V = PageView;

    open spec fn view(&self) -> PageView {
        PageView {
            repositories: self.repositories@.map_values(|r: RepositoryNode| r@),
            next_cursor: match self.next_cursor {
                Some(c) => Some(c@),
                None => None,
            },
        }
    }
}

/// What the upstream API answered to a page request.
#[derive(Debug, PartialEq, Eq)]
pub enum PageEvent {
    /// The page that was asked for.
    Page(RepositoryPage),
    /// The account does not resolve to a repository owner.
    OwnerMissing,
    /// The request failed.
    Failed(UpstreamError),
}

/// Mathematical value of a [`PageEvent`].
pub ghost enum PageEventView {
    Page(PageView),
    OwnerMissing,
    Failed(UpstreamError),
}

impl View for PageEvent {
    type V = PageEventView;

    open spec fn view(&self) -> PageEventView {
        match *self {
            PageEvent::Page(page) => PageEventView::Page(page@),
            PageEvent::OwnerMissing => PageEventView::OwnerMissing,
            PageEvent::Failed(e) => PageEventView::Failed(e),
        }
    }
}

/// The record of one pull request of a repository.
pub open spec fn node_record(repository: Seq<char>, node: PullRequestNodeView) -> RecordView {
    RecordView { repository, number: node.number, title: node.title, submitter: node.author }
}

/// The records of a repository's pull requests, in listing order.
pub open spec fn repository_records(repository: RepositoryNodeView) -> Seq<RecordView> {
    repository.pull_requests.map_values(
        |p: PullRequestNodeView| node_record(repository.name_with_owner, p),
    )
}

/// The records of a page: those of its repositories, one repository after the other.
pub open spec fn page_records(page: PageView) -> Seq<RecordView> {
    page.repositories.map_values(|r: RepositoryNodeView| repository_records(r)).flatten()
}

/// Appends the records of one repository to `records`.
pub fn collect_repository(repository: &RepositoryNode, records: &mut Vec<PullRequestRecord>)
    ensures
        records_view(final(records)@) == records_view(old(records)@) + repository_records(
            repository@,
        ),
{
    let ghost before = records_view(records@);
    let ghost all = repository_records(repository@);
    let mut i: usize = 0;
    while i < repository.pull_requests.len()
        invariant
            i <= repository.pull_requests.len(),
            all == repository_records(repository@),
            records_view(records@) == before + all.take(i as int),
        decreases repository.pull_requests.len() - i,
    {
        let node = &repository.pull_requests[i];
        let ghost so_far = records_view(records@);
        records.push(
            PullRequestRecord {
                repository: repository.name_with_owner.clone(),
                number: node.number,
                title: node.title.clone(),
                submitter: node.author.clone(),
            },
        );
        proof {
            assert(all[i as int] == node_record(repository@.name_with_owner, node@));
            assert(records_view(records@) =~= so_far.push(all[i as int]));
            assert(all.take(i + 1) =~= all.take(i as int).push(all[i as int]));
            assert(before + all.take(i + 1) =~= (before + all.take(i as int)).push(all[i as int]));
        }
        i += 1;
    }
    proof {
        assert(all.take(repository.pull_requests.len() as int) =~= all);
    }
}

/// Appends the records of one page to `records`.
pub fn collect_page(page: &RepositoryPage, records: &mut Vec<PullRequestRecord>)
    ensures
        records_view(final(records)@) == records_view(old(records)@) + page_records(page@),
{
    let ghost before = records_view(records@);
    let ghost groups = page@.repositories.map_values(|r: RepositoryNodeView| repository_records(r));
    let mut i: usize = 0;
    proof {
        assert(groups.take(0) =~= Seq::<Seq<RecordView>>::empty());
        assert(before + groups.take(0).flatten() =~= before);
    }
    while i < page.repositories.len()
        invariant
            i <= page.repositories.len(),
            groups == page@.repositories.map_values(|r: RepositoryNodeView| repository_records(r)),
            records_view(records@) == before + groups.take(i as int).flatten(),
        decreases page.repositories.len() - i,
    {
        collect_repository(&page.repositories[i], records);
        proof {
            let group = repository_records(page.repositories@[i as int]@);
            assert(groups[i as int] == group);
            assert(groups.take(i + 1) =~= groups.take(i as int).push(group));
            groups.take(i as int).lemma_flatten_push(group);
            assert(before + groups.take(i + 1).flatten() =~= (before + groups.take(i as int).flatten())
                + group);
        }
        i += 1;
    }
    proof {
        assert(groups.take(page.repositories.len() as int) =~= groups);
    }
}

/// Mathematical value of a [`DiscoveryWalk`].
pub ghost struct WalkView {
    /// The accounts to scan, in visiting order.
    pub accounts: Seq<Seq<char>>,
    /// Index of the account in hand; the number of accounts when all are scanned.
    pub position: int,
    /// Cursor of the page to fetch next for the account in hand; empty for its first page.
    pub cursor: Seq<char>,
    /// The records collected so far, in discovery order.
    pub records: Seq<RecordView>,
    /// The failure that ended the walk, if one did.
    pub failure: Option<UpstreamError>,
}

/// What a walk asks for next.
#[derive(Debug, PartialEq, Eq)]
pub enum DiscoveryAction {
    /// Fetch the page that these variables name.
    FetchPage(Variables),
    /// Nothing is left to fetch.
    Finished,
}

/// Mathematical value of a [`DiscoveryAction`].
pub ghost enum DiscoveryActionView {
    FetchPage(VariablesView),
    Finished,
}

impl View for DiscoveryAction {
    type V = DiscoveryActionView;

    open spec fn view(&self) -> DiscoveryActionView {
        match *self {
            DiscoveryAction::FetchPage(variables) => DiscoveryActionView::FetchPage(variables@),
            DiscoveryAction::Finished => DiscoveryActionView::Finished,
        }
    }
}

impl WalkView {
    /// The walk is over: it failed, or every account has been scanned.
    pub open spec fn done(self) -> bool {
        self.failure is Some || self.position >= self.accounts.len()
    }

    /// The walk stands inside its list of accounts.
    pub open spec fn wf(self) -> bool {
        0 <= self.position <= self.accounts.len()
    }

    /// The walk at the first page of the next account.
    pub open spec fn next_account(self) -> WalkView {
        WalkView { position: self.position + 1, cursor: Seq::empty(), ..self }
    }

    /// The walk after `event`. A page adds its records and either names the next page of
    /// the same account or ends the account. An account that does not resolve is passed
    /// over; what it gave so far stays. A failure ends the walk. Once the walk is over,
    /// events change nothing.
    pub open spec fn step(self, event: PageEventView) -> WalkView {
        if self.done() {
            self
        } else {
            match event {
                PageEventView::Failed(e) => WalkView { failure: Some(e), ..self },
                PageEventView::OwnerMissing => self.next_account(),
                PageEventView::Page(page) => {
                    let collected = WalkView { records: self.records + page_records(page), ..self };
                    match page.next_cursor {
                        Some(cursor) => WalkView { cursor, ..collected },
                        None => collected.next_account(),
                    }
                },
            }
        }
    }

    /// The page request that the walk waits for.
    pub open spec fn pending(self) -> DiscoveryActionView {
        if self.done() {
            DiscoveryActionView::Finished
        } else {
            DiscoveryActionView::FetchPage(
                VariablesView {
                    login: self.accounts[self.position],
                    repositories_cursor: self.cursor,
                },
            )
        }
    }

    /// What the walk has to show: the failure that ended it, or else the records.
    pub open spec fn outcome(self) -> Result<Seq<RecordView>, UpstreamError> {
        match self.failure {
            Some(e) => Err(e),
            None => Ok(self.records),
        }
    }
}

/// The walk over `accounts` before its first request.
pub open spec fn begin(accounts: Seq<Seq<char>>) -> WalkView {
    WalkView {
        accounts,
        position: 0,
        cursor: Seq::empty(),
        records: Seq::empty(),
        failure: None,
    }
}

/// A discovery walk in progress.
pub struct DiscoveryWalk {
    accounts: Vec<String>,
    position: usize,
    cursor: String,
    records: Vec<PullRequestRecord>,
    failure: Option<UpstreamError>,
}

impl View for DiscoveryWalk {
    type V = WalkView;

    closed spec fn view(&self) -> WalkView {
        WalkView {
            accounts: strings_view(self.accounts@),
            position: self.position as int,
            cursor: self.cursor@,
            records: records_view(self.records@),
            failure: self.failure,
        }
    }
}

impl DiscoveryWalk {
    #[verifier::type_invariant]
    spec fn inv(self) -> bool {
        self@.wf()
    }

    /// Starts a walk over `accounts`, each visited once.
    pub fn start(accounts: AccountSet) -> (walk: DiscoveryWalk)
        ensures
            walk@ == begin(accounts.order()),
            walk@.accounts.no_duplicates(),
            walk@.accounts.to_set() == accounts@,
    {
        let walk = DiscoveryWalk {
            accounts: accounts.into_logins(),
            position: 0,
            cursor: String::new(),
            records: Vec::new(),
            failure: None,
        };
        assert(walk@.records =~= Seq::<RecordView>::empty());
        walk
    }

    /// Tells whether the walk is over.
    pub fn is_done(&self) -> (done: bool)
        ensures
            done == self@.done(),
    {
        self.failure.is_some() || self.position >= self.accounts.len()
    }

    /// The page request that the walk waits for; [`DiscoveryAction::Finished`] when it is
    /// over.
    pub fn pending(&self) -> (action: DiscoveryAction)
        ensures
            action@ == self@.pending(),
    {
        if self.is_done() {
            DiscoveryAction::Finished
        } else {
            DiscoveryAction::FetchPage(
                Variables {
                    login: self.accounts[self.position].clone(),
                    repositories_cursor: self.cursor.clone(),
                },
            )
        }
    }

    /// Takes the answer to the pending request and moves the walk on.
    pub fn step(self, event: PageEvent) -> (next: DiscoveryWalk)
        ensures
            next@ == self@.step(event@),
    {
        proof {
            use_type_invariant(&self);
        }
        if self.is_done() {
            return self;
        }
        assert(self.position < self.accounts.len());
        let DiscoveryWalk { accounts, position, cursor, records, failure } = self;
        match event {
            PageEvent::Failed(e) => DiscoveryWalk {
                accounts,
                position,
                cursor,
                records,
                failure: Some(e),
            },
            PageEvent::OwnerMissing => DiscoveryWalk {
                accounts,
                position: position + 1,
                cursor: String::new(),
                records,
                failure,
            },
            PageEvent::Page(page) => {
                let mut records = records;
                collect_page(&page, &mut records);
                match page.next_cursor {
                    Some(next) => DiscoveryWalk {
                        accounts,
                        position,
                        cursor: next,
                        records,
                        failure,
                    },
                    None => DiscoveryWalk {
                        accounts,
                        position: position + 1,
                        cursor: String::new(),
                        records,
                        failure,
                    },
                }
            },
        }
    }

    /// Ends the walk: the failure that stopped it, or else every record it collected, in
    /// discovery order. The records are complete once the walk is over.
    pub fn finish(self) -> (outcome: Result<Vec<PullRequestRecord>, UpstreamError>)
        ensures
            match outcome {
                Ok(records) => self@.outcome() == Ok::<Seq<RecordView>, UpstreamError>(
                    records_view(records@),
                ),
                Err(e) => self@.outcome() == Err::<Seq<RecordView>, UpstreamError>(e),
            },
    {
        match self.failure {
            Some(e) => Err(e),
            None => Ok(self.records),
        }
    }
}

} // verus!
