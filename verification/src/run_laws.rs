//! What holds of every run of the merge engine, whatever the upstream API answers.

use vstd::prelude::*;
use crate::checks::{lemma_verdict_names_first_failing, verdict_of};
use crate::merge::{ActionView, EventView, LiveView, RejectionView, StateView};
use crate::record::{repository_parts, RecordView, SelectorView};
use crate::run::{decide, lemma_settle_wf, lemma_step_wf, replay, start, RunView};
use crate::snapshot::selected;

verus! {

/// The call `action` is about the pull request that `record` caches.
pub open spec fn acts_on(action: ActionView, record: RecordView) -> bool {
    match action {
        ActionView::FetchPullRequest { owner, name, number } => {
            repository_parts(record.repository) == Some((owner, name)) && number == record.number
        },
        ActionView::FetchCheckRuns { owner, name, head } => {
            repository_parts(record.repository) == Some((owner, name))
        },
        ActionView::Merge { owner, name, number, head, method, commit_title } => {
            repository_parts(record.repository) == Some((owner, name)) && number == record.number
        },
        ActionView::Done => false,
    }
}

/// A fresh run is well formed, and its candidates are the selected records.
pub proof fn lemma_start_wf(snapshot: Seq<RecordView>, selector: SelectorView)
    ensures
        start(snapshot, selector).wf(),
        start(snapshot, selector).selector == selector,
        start(snapshot, selector).candidates == selected(snapshot, selector),
{
    let picks = |r: RecordView| selector.selects(r);
    let fresh = RunView {
        selector,
        candidates: selected(snapshot, selector),
        position: 0,
        current: StateView::Matched,
        settled: Seq::empty(),
    };
    assert forall|i: int| 0 <= i < fresh.candidates.len() implies selector.selects(
        #[trigger] fresh.candidates[i],
    ) by {
        snapshot.lemma_filter_pred(picks, i);
    }
    lemma_settle_wf(fresh);
}

/// Events keep a run well formed, never take it back, and never change its selector, its
/// candidates, or the final state of a candidate that it is done with.
pub proof fn lemma_replay_wf(run: RunView, events: Seq<EventView>)
    requires
        run.wf(),
    ensures
        replay(run, events).wf(),
        replay(run, events).selector == run.selector,
        replay(run, events).candidates == run.candidates,
        replay(run, events).position >= run.position,
        replay(run, events).settled.subrange(0, run.settled.len() as int) == run.settled,
    decreases events.len(),
{
    if events.len() == 0 {
        assert(run.settled.subrange(0, run.settled.len() as int) =~= run.settled);
    } else {
        let next = run.step(events[0]);
        lemma_step_wf(run, events[0]);
        lemma_replay_wf(next, events.drop_first());
        let end = replay(run, events);
        assert(end.settled.subrange(0, run.settled.len() as int) =~= end.settled.subrange(
            0,
            next.settled.len() as int,
        ).subrange(0, run.settled.len() as int));
    }
}

/// Selector filtering: whatever the upstream API answers, a run started for `selector` on
/// `snapshot` has as candidates exactly the records that the selector picks, and every
/// call it asks for is about the candidate in hand, one of them. A record whose submitter
/// or title differs is no candidate and is never acted on.
pub proof fn lemma_acts_on_selected_only(
    snapshot: Seq<RecordView>,
    selector: SelectorView,
    events: Seq<EventView>,
)
    ensures
        ({
            let run = replay(start(snapshot, selector), events);
            &&& run.candidates == selected(snapshot, selector)
            &&& forall|i: int|
                0 <= i < run.candidates.len() ==> selector.selects(#[trigger] run.candidates[i])
                    && snapshot.contains(run.candidates[i])
            &&& forall|r: RecordView| !selector.selects(r) ==> !run.candidates.contains(r)
            &&& !(run.pending() is Done) ==> {
                &&& 0 <= run.position < run.candidates.len()
                &&& acts_on(run.pending(), run.candidates[run.position])
            }
        }),
{
    let picks = |r: RecordView| selector.selects(r);
    lemma_start_wf(snapshot, selector);
    lemma_replay_wf(start(snapshot, selector), events);
    let run = replay(start(snapshot, selector), events);
    assert forall|i: int| 0 <= i < run.candidates.len() implies snapshot.contains(
        #[trigger] run.candidates[i],
    ) by {
        lemma_filtered_from(snapshot, picks, i);
    }
    assert forall|r: RecordView| !selector.selects(r) implies !run.candidates.contains(r) by {
        if run.candidates.contains(r) {
            let i = choose|i: int| 0 <= i < run.candidates.len() && run.candidates[i] == r;
            assert(selector.selects(run.candidates[i]));
        }
    }
}

/// Every element of a filtered sequence comes from the sequence.
pub proof fn lemma_filtered_from<A>(s: Seq<A>, pred: spec_fn(A) -> bool, i: int)
    requires
        0 <= i < s.filter(pred).len(),
    ensures
        s.contains(s.filter(pred)[i]),
    decreases s.len(),
{
    reveal(Seq::filter);
    if s.len() > 0 {
        let rest = s.drop_last();
        if pred(s.last()) && i == rest.filter(pred).len() {
            assert(s[s.len() - 1] == s.last());
        } else {
            lemma_filtered_from(rest, pred, i);
            let j = choose|j: int| 0 <= j < rest.len() && rest[j] == rest.filter(pred)[i];
            assert(s[j] == rest[j]);
        }
    }
}

/// Stale-title guard: a candidate whose live title is not the cached one is rejected as
/// stale on the spot. Its check runs are never asked for, and whatever events follow, the
/// run never comes back to it: no merge of it is ever pending.
pub proof fn lemma_stale_title_never_merges(run: RunView, live: LiveView, later: Seq<EventView>)
    requires
        run.wf(),
        !run.done(),
        run.current == StateView::Matched,
        live.title != run.candidate().title,
    ensures
        ({
            let after = run.step(EventView::PullRequest(Some(live)));
            let end = replay(after, later);
            &&& after.position > run.position
            &&& after.settled[run.position] == StateView::Rejected(RejectionView::StaleTitle)
            &&& end.position > run.position
            &&& end.settled[run.position] == StateView::Rejected(RejectionView::StaleTitle)
            &&& !acts_on_index(end, run.position)
        }),
{
    let event = EventView::PullRequest(Some(live));
    let after = run.step(event);
    let stale = StateView::Rejected(RejectionView::StaleTitle);
    assert(decide(run.current, run.candidate().title, event) == stale);
    let moved = RunView {
        position: run.position + 1,
        current: StateView::Matched,
        settled: run.settled.push(stale),
        ..run
    };
    lemma_settle_wf(moved);
    assert(after == moved.settle());
    assert(after.settled.subrange(0, moved.settled.len() as int)[run.position] == stale);
    lemma_step_wf(run, event);
    lemma_replay_wf(after, later);
    let end = replay(after, later);
    assert(end.settled.subrange(0, after.settled.len() as int)[run.position] == stale);
}

/// A candidate is rejected for its repository identity exactly where that identity does
/// not split into owner and name. A well-formed record is never rejected for it.
pub proof fn lemma_malformed_identity_only(run: RunView, index: int)
    requires
        run.wf(),
        0 <= index < run.settled.len(),
    ensures
        run.settled[index] == StateView::Rejected(RejectionView::MalformedRepositoryIdentity)
            <==> repository_parts(run.candidates[index].repository) is None,
        run.candidates[index].well_formed() ==> run.settled[index] != StateView::Rejected(
            RejectionView::MalformedRepositoryIdentity,
        ),
{
}

/// The run waits for a call about the candidate at `index`.
pub open spec fn acts_on_index(run: RunView, index: int) -> bool {
    !run.done() && run.position == index
}

/// A merge is asked for only on the way that the engine lays down: a candidate is
/// revalidated only by a live pull request whose title equals the cached one, its merge
/// becomes due only by a non-empty list of check runs that all pass, for the head that was
/// revalidated, and it counts as merged only once the merge that was due went through.
pub proof fn lemma_merge_needs_passing_checks(state: StateView, cached_title: Seq<char>, event: EventView)
    ensures
        ({
            let next = decide(state, cached_title, event);
            &&& next is Revalidated && next != state ==> {
                &&& state is Matched
                &&& event matches EventView::PullRequest(Some(live))
                &&& live.title == cached_title
                &&& next == StateView::Revalidated { head: live.head_sha }
            }
            &&& next is ChecksEvaluated && next != state ==> {
                &&& state matches StateView::Revalidated { head }
                &&& next == StateView::ChecksEvaluated { head }
                &&& event matches EventView::CheckRuns(Some(checks))
                &&& checks.len() > 0
                &&& forall|j: int| 0 <= j < checks.len() ==> checks[j].passing()
            }
            &&& next is Merged && next != state ==> {
                &&& state is ChecksEvaluated
                &&& event == EventView::MergeResult(true)
            }
        }),
{
    if let EventView::CheckRuns(Some(checks)) = event {
        lemma_verdict_names_first_failing(checks);
    }
}

/// The run asks for a merge exactly while the candidate in hand has had its checks
/// evaluated, and then for the head that was revalidated.
pub proof fn lemma_merge_pending(run: RunView)
    requires
        run.wf(),
    ensures
        run.pending() is Merge <==> !run.done() && run.current is ChecksEvaluated,
        run.pending() matches ActionView::Merge { head, .. } ==> run.current
            == (StateView::ChecksEvaluated { head }),
{
}

/// Check-run gating: for a revalidated candidate, an empty list of check runs rejects it
/// for want of checks, a list with a run that does not pass rejects it with the first such
/// run, and only a non-empty list of passing runs makes the merge due. In the first two
/// cases the run moves on without asking for a merge of the candidate.
pub proof fn lemma_check_runs_decide(run: RunView, checks: Seq<crate::checks::CheckRunView>)
    requires
        run.wf(),
        !run.done(),
        run.current is Revalidated,
    ensures
        ({
            let after = run.step(EventView::CheckRuns(Some(checks)));
            let all_pass = forall|j: int| 0 <= j < checks.len() ==> checks[j].passing();
            &&& checks.len() == 0 ==> after.position > run.position && after.settled[run.position]
                == StateView::Rejected(RejectionView::NoChecksConfigured)
            &&& checks.len() > 0 && all_pass ==> after.position == run.position && after.pending() is Merge
            &&& checks.len() > 0 && !all_pass ==> after.position > run.position && exists|at: int|
                crate::checks::first_failing(checks, at) && after.settled[run.position]
                    == StateView::Rejected(RejectionView::CheckNotPassing(checks[at]))
        }),
{
    let event = EventView::CheckRuns(Some(checks));
    let after = run.step(event);
    let state = decide(run.current, run.candidate().title, event);
    lemma_verdict_names_first_failing(checks);
    lemma_step_wf(run, event);
    if state.terminal() {
        let moved = RunView {
            position: run.position + 1,
            current: StateView::Matched,
            settled: run.settled.push(state),
            ..run
        };
        lemma_settle_wf(moved);
        assert(after == moved.settle());
        assert(after.settled.subrange(0, moved.settled.len() as int)[run.position] == state);
        if checks.len() > 0 {
            let at = verdict_of(checks)->CheckNotPassing_0;
            assert(crate::checks::first_failing(checks, at));
        }
    }
}

/// The event is an answer to the call that a candidate in this state waits for.
pub open spec fn answers(state: StateView, event: EventView) -> bool {
    match (state, event) {
        (StateView::Matched, EventView::PullRequest(_)) => true,
        (StateView::Revalidated { .. }, EventView::CheckRuns(_)) => true,
        (StateView::ChecksEvaluated { .. }, EventView::MergeResult(_)) => true,
        _ => false,
    }
}

/// An upper bound on the upstream calls that a run may still ask for: three for each
/// candidate that is left, less those already made for the candidate in hand.
pub open spec fn calls_left(run: RunView) -> int {
    if run.done() {
        0
    } else {
        3 * (run.candidates.len() - run.position) - match run.current {
            StateView::Revalidated { .. } => 1int,
            StateView::ChecksEvaluated { .. } => 2int,
            _ => 0int,
        }
    }
}

/// Every answer to the pending call brings the run closer to its end, so a run over `n`
/// candidates asks for at most `3 * n` calls and never retries one.
pub proof fn lemma_answers_make_progress(run: RunView, event: EventView)
    requires
        run.wf(),
        !run.done(),
        answers(run.current, event),
    ensures
        0 <= calls_left(run.step(event)) < calls_left(run),
        calls_left(run) <= 3 * run.candidates.len(),
{
    lemma_step_wf(run, event);
    let state = decide(run.current, run.candidate().title, event);
    if state.terminal() {
        let moved = RunView {
            position: run.position + 1,
            current: StateView::Matched,
            settled: run.settled.push(state),
            ..run
        };
        assert(state != StateView::Rejected(RejectionView::MalformedRepositoryIdentity));
        lemma_settle_wf(moved);
    }
}

} // verus!
