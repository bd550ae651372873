//! Check runs of a head commit and what they say about a merge.

use vstd::prelude::*;

verus! {

/// One check run reported for a commit.
#[derive(Debug, PartialEq, Eq)]
pub struct CheckRun {
    pub name: String,
    pub id: u64,
    /// Absent while the run has not finished.
    pub conclusion: Option<String>,
}

/// Mathematical value of a [`CheckRun`].
pub ghost struct CheckRunView {
    pub name: Seq<char>,
    pub id: u64,
    pub conclusion: Option<Seq<char>>,
}

impl View for CheckRun {
    type V = CheckRunView;

    open spec fn view(&self) -> CheckRunView {
        CheckRunView {
            name: self.name@,
            id: self.id,
            conclusion: match self.conclusion {
                Some(c) => Some(c@),
                None => None,
            },
        }
    }
}

impl Clone for CheckRun {
    fn clone(&self) -> (copy: Self)
        ensures
            copy@ == self@,
    {
        CheckRun {
            name: self.name.clone(),
            id: self.id,
            conclusion: match &self.conclusion {
                Some(c) => Some(c.clone()),
                None => None,
            },
        }
    }
}

/// Values of a sequence of check runs, in order.
pub open spec fn checks_view(checks: Seq<CheckRun>) -> Seq<CheckRunView> {
    checks.map_values(|c: CheckRun| c@)
}

/// The conclusions that let a merge go ahead.
pub open spec fn accepted_conclusion(conclusion: Seq<char>) -> bool {
    conclusion == "success"@ || conclusion == "skipped"@ || conclusion == "neutral"@
}

impl CheckRunView {
    /// The run has finished with an accepted conclusion.
    pub open spec fn passing(self) -> bool {
        match self.conclusion {
            Some(c) => accepted_conclusion(c),
            None => false,
        }
    }
}

/// What a set of check runs says about a merge.
pub ghost enum VerdictView {
    /// At least one run, and every run passes.
    Open,
    /// No run at all.
    NoChecksConfigured,
    /// The run at this position is the first that does not pass.
    CheckNotPassing(int),
}

/// `at` is the position of the first run in `checks` that does not pass.
pub open spec fn first_failing(checks: Seq<CheckRunView>, at: int) -> bool {
    &&& 0 <= at < checks.len()
    &&& !checks[at].passing()
    &&& forall|j: int| 0 <= j < at ==> checks[j].passing()
}

/// What `checks` say about a merge.
pub open spec fn verdict_of(checks: Seq<CheckRunView>) -> VerdictView {
    if checks.len() == 0 {
        VerdictView::NoChecksConfigured
    } else if forall|j: int| 0 <= j < checks.len() ==> checks[j].passing() {
        VerdictView::Open
    } else {
        VerdictView::CheckNotPassing(choose|at: int| first_failing(checks, at))
    }
}

/// A first failing run decides.
pub proof fn lemma_first_failing_decides(checks: Seq<CheckRunView>, at: int)
    requires
        first_failing(checks, at),
    ensures
        verdict_of(checks) == VerdictView::CheckNotPassing(at),
{
    let chosen = choose|c: int| first_failing(checks, c);
    assert(first_failing(checks, chosen));
    if chosen < at {
    } else if at < chosen {
    }
}

/// Where some run does not pass, some run is the first not to pass.
pub proof fn lemma_some_first_failing(checks: Seq<CheckRunView>, j: int)
    requires
        0 <= j < checks.len(),
        !checks[j].passing(),
    ensures
        exists|at: int| first_failing(checks, at),
    decreases j,
{
    if forall|k: int| 0 <= k < j ==> checks[k].passing() {
        assert(first_failing(checks, j));
    } else {
        let k = choose|k: int| 0 <= k < j && !checks[k].passing();
        lemma_some_first_failing(checks, k);
    }
}

/// The position that a refusal names is that of the first run that does not pass.
pub proof fn lemma_verdict_names_first_failing(checks: Seq<CheckRunView>)
    ensures
        verdict_of(checks) matches VerdictView::CheckNotPassing(at) ==> first_failing(checks, at),
        verdict_of(checks) is Open <==> checks.len() > 0 && forall|j: int|
            0 <= j < checks.len() ==> checks[j].passing(),
        verdict_of(checks) is NoChecksConfigured <==> checks.len() == 0,
{
    if verdict_of(checks) is CheckNotPassing {
        let j = choose|j: int| 0 <= j < checks.len() && !checks[j].passing();
        lemma_some_first_failing(checks, j);
    }
}

/// Outcome of [`evaluate_checks`].
#[derive(Debug, Clone, Copy, PartialEq, Eq)]
pub enum Verdict {
    /// At least one run, and every run passes.
    Open,
    /// No run at all.
    NoChecksConfigured,
    /// The run at this position is the first that does not pass.
    CheckNotPassing(usize),
}

impl View for Verdict {
    type V = VerdictView;

    open spec fn view(&self) -> VerdictView {
        match *self {
            Verdict::Open => VerdictView::Open,
            Verdict::NoChecksConfigured => VerdictView::NoChecksConfigured,
            Verdict::CheckNotPassing(at) => VerdictView::CheckNotPassing(at as int),
        }
    }
}

/// Tells whether a conclusion lets a merge go ahead.
pub fn is_accepted_conclusion(conclusion: &String) -> (accepted: bool)
    ensures
        accepted == accepted_conclusion(conclusion@),
{
    let success = String::from_str("success");
    let skipped = String::from_str("skipped");
    let neutral = String::from_str("neutral");
    *conclusion == success || *conclusion == skipped || *conclusion == neutral
}

impl CheckRun {
    /// Tells whether the run has finished with an accepted conclusion.
    pub fn is_passing(&self) -> (passing: bool)
        ensures
            passing == self@.passing(),
    {
        match &self.conclusion {
            Some(c) => is_accepted_conclusion(c),
            None => false,
        }
    }
}

/// Evaluates the check runs of a commit: empty means that no checks are configured, and
/// otherwise the first run that does not pass, if any, decides; later runs are not looked at.
pub fn evaluate_checks(checks: &Vec<CheckRun>) -> (decision: Verdict)
    ensures
        decision@ == verdict_of(checks_view(checks@)),
        decision matches Verdict::CheckNotPassing(at) ==> first_failing(checks_view(checks@), at as int),
{
    if checks.len() == 0 {
        return Verdict::NoChecksConfigured;
    }
    let ghost model = checks_view(checks@);
    let mut i: usize = 0;
    while i < checks.len()
        invariant
            i <= checks.len(),
            model == checks_view(checks@),
            forall|j: int| 0 <= j < i ==> model[j].passing(),
        decreases checks.len() - i,
    {
        if !checks[i].is_passing() {
            proof {
                assert(model[i as int] == checks@[i as int]@);
                lemma_first_failing_decides(model, i as int);
            }
            return Verdict::CheckNotPassing(i);
        }
        assert(model[i as int] == checks@[i as int]@);
        i += 1;
    }
    Verdict::Open
}

} // verus!
