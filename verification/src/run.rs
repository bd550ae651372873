//! One run of the merge engine over the candidates that a trigger selected.

use vstd::prelude::*;
use crate::accounts::{AccountSet, UpstreamError};
use crate::checks::{evaluate_checks, verdict_of, Verdict, VerdictView};
use crate::merge::{
    merge_commit_title, states_view, ActionView, CandidateState, EventView, MergeAction,
    MergeEvent, MergeMethod, Rejection, RejectionView, StateView,
};
use crate::record::{
    records_view, repository_parts, split_repository, MergeSelector, PullRequestRecord,
    RecordView, SelectorView,
};
use crate::snapshot::{selected, SnapshotStore};
use crate::trigger::AcceptedTrigger;

verus! {

/// The state of a candidate after `event`, given its state before and its cached title.
///
/// A matched candidate waits for the live pull request: a failed fetch rejects it, a title
/// other than the cached one rejects it as stale, and an equal title revalidates it at the
/// live head. A revalidated candidate waits for the check runs of that head: a failed fetch,
/// an empty list, or a first run that does not pass rejects it, and otherwise the merge is
/// due. Then the merge result decides. Any other event leaves the state as it is.
pub open spec fn decide(state: StateView, cached_title: Seq<char>, event: EventView) -> StateView {
    match (state, event) {
        (StateView::Matched, EventView::PullRequest(None)) => StateView::Rejected(
            RejectionView::UpstreamFetchFailed,
        ),
        (StateView::Matched, EventView::PullRequest(Some(live))) => {
            if live.title == cached_title {
                StateView::Revalidated { head: live.head_sha }
            } else {
                StateView::Rejected(RejectionView::StaleTitle)
            }
        },
        (StateView::Revalidated { head }, EventView::CheckRuns(None)) => StateView::Rejected(
            RejectionView::UpstreamFetchFailed,
        ),
        (StateView::Revalidated { head }, EventView::CheckRuns(Some(checks))) => {
            match verdict_of(checks) {
                VerdictView::Open => StateView::ChecksEvaluated { head },
                VerdictView::NoChecksConfigured => StateView::Rejected(
                    RejectionView::NoChecksConfigured,
                ),
                VerdictView::CheckNotPassing(at) => StateView::Rejected(
                    RejectionView::CheckNotPassing(checks[at]),
                ),
            }
        },
        (StateView::ChecksEvaluated { head }, EventView::MergeResult(merged)) => {
            if merged {
                StateView::Merged
            } else {
                StateView::Rejected(RejectionView::UpstreamMergeFailed)
            }
        },
        _ => state,
    }
}

/// Mathematical value of a [`MergeRun`].
pub ghost struct RunView {
    /// What the trigger asked for.
    pub selector: SelectorView,
    /// The records the selector picked, in snapshot order.
    pub candidates: Seq<RecordView>,
    /// Index of the candidate in hand; the number of candidates when the run is over.
    pub position: int,
    /// State of the candidate in hand.
    pub current: StateView,
    /// Final states of the candidates before `position`.
    pub settled: Seq<StateView>,
}

impl RunView {
    /// The run is over: every candidate has been merged or rejected.
    pub open spec fn done(self) -> bool {
        self.position >= self.candidates.len()
    }

    /// The candidate in hand.
    pub open spec fn candidate(self) -> RecordView
        recommends
            !self.done(),
    {
        self.candidates[self.position]
    }

    /// The run stands inside its list of candidates, every candidate is one that the
    /// selector picks, and each candidate before `position` has a final state: rejected for
    /// its repository identity exactly where that identity does not split.
    pub open spec fn accounted(self) -> bool {
        &&& 0 <= self.position <= self.candidates.len()
        &&& self.settled.len() == self.position
        &&& forall|i: int| 0 <= i < self.candidates.len() ==> self.selector.selects(#[trigger] self.candidates[i])
        &&& forall|i: int|
            0 <= i < self.settled.len() ==> {
                &&& (#[trigger] self.settled[i]).terminal()
                &&& self.settled[i] == StateView::Rejected(RejectionView::MalformedRepositoryIdentity)
                    <==> repository_parts(self.candidates[i].repository) is None
            }
    }

    /// What holds of every run that the engine builds.
    pub open spec fn wf(self) -> bool {
        &&& self.accounted()
        &&& !self.current.terminal()
        &&& !self.done() ==> repository_parts(self.candidate().repository) is Some
        &&& self.done() ==> self.current == StateView::Matched
    }

    /// Rejects, one after another, the candidates from `position` on whose repository
    /// identity does not split, and stops at the first that does.
    pub open spec fn settle(self) -> RunView
        decreases self.candidates.len() - self.position,
    {
        if 0 <= self.position < self.candidates.len() && repository_parts(
            self.candidate().repository,
        ) is None {
            RunView {
                position: self.position + 1,
                settled: self.settled.push(
                    StateView::Rejected(RejectionView::MalformedRepositoryIdentity),
                ),
                ..self
            }.settle()
        } else {
            self
        }
    }

    /// Ends the candidate in hand in the state `outcome` and moves on to the next one.
    pub open spec fn conclude(self, outcome: StateView) -> RunView {
        RunView {
            position: self.position + 1,
            current: StateView::Matched,
            settled: self.settled.push(outcome),
            ..self
        }.settle()
    }

    /// The run keeps everything but the state of the candidate in hand.
    pub open spec fn advance(self, state: StateView) -> RunView {
        RunView { current: state, ..self }
    }

    /// The run after `event`: the candidate in hand moves as [`decide`] says, and the run
    /// goes on to the next candidate once this one is merged or rejected. An event that
    /// comes after the run is over changes nothing.
    pub open spec fn step(self, event: EventView) -> RunView {
        if self.done() {
            self
        } else {
            let state = decide(self.current, self.candidate().title, event);
            if state.terminal() {
                self.conclude(state)
            } else {
                self.advance(state)
            }
        }
    }

    /// The upstream call that the run waits for.
    pub open spec fn pending(self) -> ActionView {
        if self.done() {
            ActionView::Done
        } else {
            let (owner, name) = repository_parts(self.candidate().repository)->0;
            let number = self.candidate().number;
            match self.current {
                StateView::Revalidated { head } => ActionView::FetchCheckRuns { owner, name, head },
                StateView::ChecksEvaluated { head } => ActionView::Merge {
                    owner,
                    name,
                    number,
                    head,
                    method: MergeMethod::Merge,
                    commit_title: merge_commit_title(),
                },
                _ => ActionView::FetchPullRequest { owner, name, number },
            }
        }
    }
}

/// The run that a trigger for `selector` starts on `snapshot`.
pub open spec fn start(snapshot: Seq<RecordView>, selector: SelectorView) -> RunView {
    RunView {
        selector,
        candidates: selected(snapshot, selector),
        position: 0,
        current: StateView::Matched,
        settled: Seq::empty(),
    }.settle()
}

/// The run after a sequence of events, one step for each.
pub open spec fn replay(run: RunView, events: Seq<EventView>) -> RunView
    decreases events.len(),
{
    if events.len() == 0 {
        run
    } else {
        replay(run.step(events[0]), events.drop_first())
    }
}

/// Settling keeps a run well formed, apart from the identity of the candidate it stops at,
/// which it establishes.
pub proof fn lemma_settle_wf(run: RunView)
    requires
        run.accounted(),
        run.current == StateView::Matched,
    ensures
        run.settle().wf(),
        run.settle().selector == run.selector,
        run.settle().candidates == run.candidates,
        run.settle().current == run.current,
        run.settle().position >= run.position,
        run.settle().settled.len() >= run.settled.len(),
        run.settle().settled.subrange(0, run.settled.len() as int) == run.settled,
    decreases run.candidates.len() - run.position,
{
    if run.position < run.candidates.len() && repository_parts(run.candidate().repository) is None {
        let next = RunView {
            position: run.position + 1,
            settled: run.settled.push(StateView::Rejected(RejectionView::MalformedRepositoryIdentity)),
            ..run
        };
        lemma_settle_wf(next);
        assert(next.settle().settled.subrange(0, run.settled.len() as int) =~= next.settle().settled.subrange(
            0,
            next.settled.len() as int,
        ).subrange(0, run.settled.len() as int));
        assert(next.settled.subrange(0, run.settled.len() as int) =~= run.settled);
    } else {
        assert(run.settled.subrange(0, run.settled.len() as int) =~= run.settled);
    }
}

/// A step keeps a run well formed, never goes back, and never changes what is settled.
pub proof fn lemma_step_wf(run: RunView, event: EventView)
    requires
        run.wf(),
    ensures
        run.step(event).wf(),
        run.step(event).selector == run.selector,
        run.step(event).candidates == run.candidates,
        run.step(event).position >= run.position,
        run.step(event).settled.len() >= run.settled.len(),
        run.step(event).settled.subrange(0, run.settled.len() as int) == run.settled,
{
    assert(run.settled.subrange(0, run.settled.len() as int) =~= run.settled);
    if !run.done() {
        let state = decide(run.current, run.candidate().title, event);
        if state.terminal() {
            let moved = RunView {
                position: run.position + 1,
                current: StateView::Matched,
                settled: run.settled.push(state),
                ..run
            };
            assert(state != StateView::Rejected(RejectionView::MalformedRepositoryIdentity));
            lemma_settle_wf(moved);
            assert(moved.settled.subrange(0, run.settled.len() as int) =~= run.settled);
            assert(moved.settle().settled.subrange(0, run.settled.len() as int)
                =~= moved.settle().settled.subrange(0, moved.settled.len() as int).subrange(
                0,
                run.settled.len() as int,
            ));
        }
    }
}

impl CandidateState {
    /// Tells whether the candidate is done with: merged or rejected.
    pub fn is_terminal(&self) -> (terminal: bool)
        ensures
            terminal == self@.terminal(),
    {
        match self {
            CandidateState::Merged => true,
            CandidateState::Rejected(_) => true,
            _ => false,
        }
    }

    /// The state after `event`, for a candidate whose cached title is `cached_title`.
    pub fn on_event(self, cached_title: &String, event: MergeEvent) -> (next: CandidateState)
        ensures
            next@ == decide(self@, cached_title@, event@),
    {
        match (self, event) {
            (CandidateState::Matched, MergeEvent::PullRequest(None)) => CandidateState::Rejected(
                Rejection::UpstreamFetchFailed,
            ),
            (CandidateState::Matched, MergeEvent::PullRequest(Some(live))) => {
                if live.title == *cached_title {
                    CandidateState::Revalidated { head: live.head_sha }
                } else {
                    CandidateState::Rejected(Rejection::StaleTitle)
                }
            },
            (CandidateState::Revalidated { head }, MergeEvent::CheckRuns(None)) => {
                CandidateState::Rejected(Rejection::UpstreamFetchFailed)
            },
            (CandidateState::Revalidated { head }, MergeEvent::CheckRuns(Some(checks))) => {
                match evaluate_checks(&checks) {
                    Verdict::Open => CandidateState::ChecksEvaluated { head },
                    Verdict::NoChecksConfigured => CandidateState::Rejected(
                        Rejection::NoChecksConfigured,
                    ),
                    Verdict::CheckNotPassing(at) => {
                        assert(crate::checks::checks_view(checks@)[at as int] == checks@[at as int]@);
                        CandidateState::Rejected(Rejection::CheckNotPassing(checks[at].clone()))
                    },
                }
            },
            (CandidateState::ChecksEvaluated { head }, MergeEvent::MergeResult(merged)) => {
                if merged {
                    CandidateState::Merged
                } else {
                    CandidateState::Rejected(Rejection::UpstreamMergeFailed)
                }
            },
            (state, _) => state,
        }
    }
}

/// One run of the merge engine: the candidates that a trigger selected, how far the run
/// has come, and what became of the candidates it is done with.
pub struct MergeRun {
    selector: MergeSelector,
    candidates: Vec<PullRequestRecord>,
    position: usize,
    current: CandidateState,
    settled: Vec<CandidateState>,
}

impl View for MergeRun {
    type V = RunView;

    closed spec fn view(&self) -> RunView {
        RunView {
            selector: self.selector@,
            candidates: records_view(self.candidates@),
            position: self.position as int,
            current: self.current@,
            settled: states_view(self.settled@),
        }
    }
}

/// Tells whether the repository identity of `record` names an owner and a name.
fn has_identity(record: &PullRequestRecord) -> (splits: bool)
    ensures
        splits == (repository_parts(record@.repository) is Some),
{
    split_repository(record.repository.as_str()).is_some()
}

impl MergeRun {
    #[verifier::type_invariant]
    spec fn inv(self) -> bool {
        self@.wf()
    }

    /// Builds the run that stands at `position` with a fresh candidate, after rejecting
    /// the candidates from there on whose repository identity does not split.
    fn settle(
        selector: MergeSelector,
        candidates: Vec<PullRequestRecord>,
        position: usize,
        settled: Vec<CandidateState>,
    ) -> (run: MergeRun)
        requires
            position <= candidates.len(),
            (RunView {
                selector: selector@,
                candidates: records_view(candidates@),
                position: position as int,
                current: StateView::Matched,
                settled: states_view(settled@),
            }).accounted(),
        ensures
            run@ == (RunView {
                selector: selector@,
                candidates: records_view(candidates@),
                position: position as int,
                current: StateView::Matched,
                settled: states_view(settled@),
            }).settle(),
            run@.wf(),
    {
        let ghost target = (RunView {
            selector: selector@,
            candidates: records_view(candidates@),
            position: position as int,
            current: StateView::Matched,
            settled: states_view(settled@),
        });
        proof {
            lemma_settle_wf(target);
        }
        let mut position = position;
        let mut settled = settled;
        while position < candidates.len() && !has_identity(&candidates[position])
            invariant
                position <= candidates.len(),
                settled.len() == position,
                (RunView {
                    selector: selector@,
                    candidates: records_view(candidates@),
                    position: position as int,
                    current: StateView::Matched,
                    settled: states_view(settled@),
                }).accounted(),
                (RunView {
                    selector: selector@,
                    candidates: records_view(candidates@),
                    position: position as int,
                    current: StateView::Matched,
                    settled: states_view(settled@),
                }).settle() == target.settle(),
            decreases candidates.len() - position,
        {
            let ghost before = states_view(settled@);
            settled.push(CandidateState::Rejected(Rejection::MalformedRepositoryIdentity));
            position += 1;
            assert(states_view(settled@) =~= before.push(
                StateView::Rejected(RejectionView::MalformedRepositoryIdentity),
            ));
        }
        MergeRun { selector, candidates, position, current: CandidateState::Matched, settled }
    }

    /// The upstream call that the run waits for; [`MergeAction::Done`] when it is over.
    pub fn pending(&self) -> (action: MergeAction)
        ensures
            action@ == self@.pending(),
    {
        proof {
            use_type_invariant(self);
        }
        if self.position >= self.candidates.len() {
            return MergeAction::Done;
        }
        let record = &self.candidates[self.position];
        match split_repository(record.repository.as_str()) {
            None => MergeAction::Done,
            Some((owner, name)) => match &self.current {
                CandidateState::Revalidated { head } => MergeAction::FetchCheckRuns {
                    owner,
                    name,
                    head: head.clone(),
                },
                CandidateState::ChecksEvaluated { head } => MergeAction::Merge {
                    owner,
                    name,
                    number: record.number,
                    head: head.clone(),
                    method: MergeMethod::Merge,
                    commit_title: String::from_str("Auto merge! (merge-pr-in-all)"),
                },
                _ => MergeAction::FetchPullRequest { owner, name, number: record.number },
            },
        }
    }

    /// Takes the answer to the pending call and moves the run on.
    pub fn step(self, event: MergeEvent) -> (next: MergeRun)
        ensures
            next@ == self@.step(event@),
            next@.wf(),
    {
        proof {
            use_type_invariant(&self);
            lemma_step_wf(self@, event@);
        }
        if self.position >= self.candidates.len() {
            return self;
        }
        let MergeRun { selector, candidates, position, current, settled } = self;
        let state = current.on_event(&candidates[position].title, event);
        if state.is_terminal() {
            let mut settled = settled;
            let ghost before = states_view(settled@);
            settled.push(state);
            assert(states_view(settled@) =~= before.push(state@));
            MergeRun::settle(selector, candidates, position + 1, settled)
        } else {
            MergeRun { selector, candidates, position, current: state, settled }
        }
    }

    /// Tells whether the run is over.
    pub fn is_done(&self) -> (done: bool)
        ensures
            done == self@.done(),
    {
        self.position >= self.candidates.len()
    }

    /// The records that the trigger selected, in snapshot order.
    pub fn candidates(&self) -> (candidates: &Vec<PullRequestRecord>)
        ensures
            records_view(candidates@) == self@.candidates,
    {
        &self.candidates
    }

    /// Final states of the candidates that the run is done with, in candidate order.
    pub fn settled(&self) -> (settled: &Vec<CandidateState>)
        ensures
            states_view(settled@) == self@.settled,
            settled.len() == self@.position,
    {
        proof {
            use_type_invariant(self);
        }
        &self.settled
    }

    /// State of the candidate in hand.
    pub fn current(&self) -> (current: &CandidateState)
        ensures
            current@ == self@.current,
    {
        &self.current
    }
}

/// Starts a merge attempt for an authenticated trigger.
///
/// `accounts` is the freshly resolved account set; where resolving it failed, the attempt
/// fails with the same error and touches nothing. Otherwise the run covers exactly the
/// records of the snapshot that the trigger's selector picks. None at all is no error:
/// the run is then over from the start.
pub fn attempt_merge(
    trigger: AcceptedTrigger,
    accounts: Result<AccountSet, UpstreamError>,
    store: &SnapshotStore,
) -> (run: Result<MergeRun, UpstreamError>)
    ensures
        match accounts {
            Ok(_) => run is Ok && run->Ok_0@ == start(store@, trigger@) && run->Ok_0@.wf(),
            Err(e) => run is Err && run->Err_0 == e,
        },
{
    match accounts {
        Err(e) => Err(e),
        Ok(_) => {
            let selector = trigger.into_selector();
            let candidates = store.select(&selector);
            let settled: Vec<CandidateState> = Vec::new();
            proof {
                let picks = |r: RecordView| selector@.selects(r);
                assert forall|i: int| 0 <= i < candidates.len() implies selector@.selects(
                    #[trigger] records_view(candidates@)[i],
                ) by {
                    store@.lemma_filter_pred(picks, i);
                }
                assert(states_view(settled@) =~= Seq::<StateView>::empty());
            }
            Ok(MergeRun::settle(selector, candidates, 0, settled))
        },
    }
}

} // verus!
