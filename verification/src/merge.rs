//! The merge eligibility engine: for every pull request that a trigger selects, fetch it
//! again, compare it with the cached record, evaluate its check runs, and merge it if all
//! of them pass.
//!
//! The engine does no I/O. It is a state machine: [`MergeRun::pending`] names the next
//! upstream call, and [`MergeRun::step`] takes the answer to it.

use vstd::prelude::*;
use crate::checks::{CheckRun, CheckRunView};

verus! {

/// A pull request as the upstream API shows it now.
#[derive(Debug, PartialEq, Eq)]
pub struct LivePullRequest {
    pub title: String,
    /// Hash of the head commit.
    pub head_sha: String,
}

/// Mathematical value of a [`LivePullRequest`].
pub ghost struct LiveView {
    pub title: Seq<char>,
    pub head_sha: Seq<char>,
}

impl View for LivePullRequest {
    type V = LiveView;

    open spec fn view(&self) -> LiveView {
        LiveView { title: self.title@, head_sha: self.head_sha@ }
    }
}

/// How the upstream API is asked to merge.
#[derive(Debug, Clone, Copy, PartialEq, Eq, Structural)]
pub enum MergeMethod {
    Merge,
    Squash,
    Rebase,
}

/// Why a candidate was not merged.
#[derive(Debug, PartialEq, Eq)]
pub enum Rejection {
    /// The live title is not the cached one any more.
    StaleTitle,
    /// The head commit has no check run at all.
    NoChecksConfigured,
    /// This check run, the first that did not pass.
    CheckNotPassing(CheckRun),
    /// The pull request or its check runs could not be fetched.
    UpstreamFetchFailed,
    /// The upstream API refused the merge.
    UpstreamMergeFailed,
    /// The cached repository identity is not of the form `owner/name`.
    MalformedRepositoryIdentity,
}

/// Mathematical value of a [`Rejection`].
pub ghost enum RejectionView {
    StaleTitle,
    NoChecksConfigured,
    CheckNotPassing(CheckRunView),
    UpstreamFetchFailed,
    UpstreamMergeFailed,
    MalformedRepositoryIdentity,
}

impl View for Rejection {
    type V = RejectionView;

    open spec fn view(&self) -> RejectionView {
        match *self {
            Rejection::StaleTitle => RejectionView::StaleTitle,
            Rejection::NoChecksConfigured => RejectionView::NoChecksConfigured,
            Rejection::CheckNotPassing(check) => RejectionView::CheckNotPassing(check@),
            Rejection::UpstreamFetchFailed => RejectionView::UpstreamFetchFailed,
            Rejection::UpstreamMergeFailed => RejectionView::UpstreamMergeFailed,
            Rejection::MalformedRepositoryIdentity => RejectionView::MalformedRepositoryIdentity,
        }
    }
}

/// Where a candidate stands on its way to a merge.
#[derive(Debug, PartialEq, Eq)]
pub enum CandidateState {
    /// Selected from the snapshot; the live pull request is not known yet.
    Matched,
    /// The live title equals the cached one; `head` is the live head commit.
    Revalidated { head: String },
    /// Every check run of `head` passes; the merge has been asked for.
    ChecksEvaluated { head: String },
    /// Merged upstream.
    Merged,
    /// Given up.
    Rejected(Rejection),
}

/// Mathematical value of a [`CandidateState`].
pub ghost enum StateView {
    Matched,
    Revalidated { head: Seq<char> },
    ChecksEvaluated { head: Seq<char> },
    Merged,
    Rejected(RejectionView),
}

impl StateView {
    /// The candidate is done with: merged or rejected.
    pub open spec fn terminal(self) -> bool {
        self is Merged || self is Rejected
    }
}

impl View for CandidateState {
    type V = StateView;

    open spec fn view(&self) -> StateView {
        match *self {
            CandidateState::Matched => StateView::Matched,
            CandidateState::Revalidated { head } => StateView::Revalidated { head: head@ },
            CandidateState::ChecksEvaluated { head } => StateView::ChecksEvaluated { head: head@ },
            CandidateState::Merged => StateView::Merged,
            CandidateState::Rejected(reason) => StateView::Rejected(reason@),
        }
    }
}

/// Values of a sequence of candidate states, in order.
pub open spec fn states_view(states: Seq<CandidateState>) -> Seq<StateView> {
    states.map_values(|s: CandidateState| s@)
}

/// An answer of the upstream API to the call that was pending.
#[derive(Debug, PartialEq, Eq)]
pub enum MergeEvent {
    /// The live pull request, or `None` where it could not be fetched.
    PullRequest(Option<LivePullRequest>),
    /// The check runs of the head commit, or `None` where they could not be fetched.
    CheckRuns(Option<Vec<CheckRun>>),
    /// Whether the merge went through.
    MergeResult(bool),
}

/// Mathematical value of a [`MergeEvent`].
pub ghost enum EventView {
    PullRequest(Option<LiveView>),
    CheckRuns(Option<Seq<CheckRunView>>),
    MergeResult(bool),
}

impl View for MergeEvent {
    type V = EventView;

    open spec fn view(&self) -> EventView {
        match *self {
            MergeEvent::PullRequest(Some(live)) => EventView::PullRequest(Some(live@)),
            MergeEvent::PullRequest(None) => EventView::PullRequest(None),
            MergeEvent::CheckRuns(Some(checks)) => EventView::CheckRuns(
                Some(crate::checks::checks_view(checks@)),
            ),
            MergeEvent::CheckRuns(None) => EventView::CheckRuns(None),
            MergeEvent::MergeResult(merged) => EventView::MergeResult(merged),
        }
    }
}

/// The next call to make upstream.
#[derive(Debug, PartialEq, Eq)]
pub enum MergeAction {
    /// Fetch the pull request `number` of `owner/name`.
    FetchPullRequest { owner: String, name: String, number: u64 },
    /// List the check runs of commit `head` in `owner/name`.
    FetchCheckRuns { owner: String, name: String, head: String },
    /// Merge the pull request `number` of `owner/name`, on condition that its head is still
    /// `head`.
    Merge {
        owner: String,
        name: String,
        number: u64,
        head: String,
        method: MergeMethod,
        commit_title: String,
    },
    /// Nothing is left to do.
    Done,
}

/// Mathematical value of a [`MergeAction`].
pub ghost enum ActionView {
    FetchPullRequest { owner: Seq<char>, name: Seq<char>, number: u64 },
    FetchCheckRuns { owner: Seq<char>, name: Seq<char>, head: Seq<char> },
    Merge {
        owner: Seq<char>,
        name: Seq<char>,
        number: u64,
        head: Seq<char>,
        method: MergeMethod,
        commit_title: Seq<char>,
    },
    Done,
}

impl View for MergeAction {
    type V = ActionView;

    open spec fn view(&self) -> ActionView {
        match *self {
            MergeAction::FetchPullRequest { owner, name, number } => ActionView::FetchPullRequest {
                owner: owner@,
                name: name@,
                number,
            },
            MergeAction::FetchCheckRuns { owner, name, head } => ActionView::FetchCheckRuns {
                owner: owner@,
                name: name@,
                head: head@,
            },
            MergeAction::Merge {
                owner,
                name,
                number,
                head,
                method,
                commit_title,
            } => ActionView::Merge {
                owner: owner@,
                name: name@,
                number,
                head: head@,
                method,
                commit_title: commit_title@,
            },
            MergeAction::Done => ActionView::Done,
        }
    }
}

/// Title of the merge commits that the engine asks for.
pub open spec fn merge_commit_title() -> Seq<char> {
    "Auto merge! (merge-pr-in-all)"@
}

} // verus!
