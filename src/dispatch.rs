//! Collecting how every task of a run ended: tasks run side by side, none
//! stops another, and each failed one is reported once.

use vstd::prelude::*;

use crate::task::{FetchTask, Stage, TaskError};

verus! {

/// How one identifier's task ended.
#[derive(Debug, Clone)]
pub struct TaskOutcome {
    pub identifier: String,
    pub error: Option<TaskError>,
}

/// Positions of the failed outcomes, in order.
pub open spec fn failed_positions(outcomes: Seq<TaskOutcome>) -> Seq<int>
    decreases outcomes.len(),
{
    if outcomes.len() == 0 {
        Seq::empty()
    } else {
        let rest = failed_positions(outcomes.drop_last());
        if outcomes.last().error is Some {
            rest.push(outcomes.len() - 1)
        } else {
            rest
        }
    }
}

impl FetchTask {
    /// How a task that has ended came out.
    pub fn outcome(self) -> (r: TaskOutcome)
        requires
            self.stage is Done || self.stage is Failed,
        ensures
            r.identifier@ == self.identifier@,
            match self.stage {
                Stage::Failed(e) => r.error == Some(e),
                _ => r.error is None,
            },
    {
        let error = match self.stage {
            Stage::Failed(e) => Some(e),
            _ => None,
        };
        TaskOutcome { identifier: self.identifier, error }
    }
}

/// The positions of the outcomes to report as errors: one for each failed
/// task, in order, and none for a task that succeeded.
pub fn failed_outcomes(outcomes: &Vec<TaskOutcome>) -> (r: Vec<usize>)
    ensures
        r@.map_values(|p: usize| p as int) == failed_positions(outcomes@),
{
    let mut r: Vec<usize> = Vec::new();
    let mut i: usize = 0;
    while i < outcomes.len()
        invariant
            i <= outcomes@.len(),
            r@.map_values(|p: usize| p as int) == failed_positions(outcomes@.subrange(0, i as int)),
        decreases outcomes@.len() - i,
    {
        assert(outcomes@.subrange(0, i + 1).drop_last() =~= outcomes@.subrange(0, i as int));
        if outcomes[i].error.is_some() {
            r.push(i);
            assert(r@.map_values(|p: usize| p as int) =~= failed_positions(
                outcomes@.subrange(0, i as int),
            ).push(i as int));
        }
        i = i + 1;
    }
    assert(outcomes@.subrange(0, outcomes@.len() as int) =~= outcomes@);
    r
}

/// Where no task failed, nothing is reported.
pub proof fn law_no_failure_no_report(outcomes: Seq<TaskOutcome>)
    requires
        forall|j: int| 0 <= j < outcomes.len() ==> outcomes[j].error is None,
    ensures
        failed_positions(outcomes) == Seq::<int>::empty(),
    decreases outcomes.len(),
{
    if outcomes.len() > 0 {
        law_no_failure_no_report(outcomes.drop_last());
    }
}

/// Where one task failed and all others succeeded, exactly one error is
/// reported, and it is that task's.
pub proof fn law_one_failure_one_report(outcomes: Seq<TaskOutcome>, k: int)
    requires
        0 <= k < outcomes.len(),
        outcomes[k].error is Some,
        forall|j: int| 0 <= j < outcomes.len() && j != k ==> outcomes[j].error is None,
    ensures
        failed_positions(outcomes) == seq![k],
    decreases outcomes.len(),
{
    if k == outcomes.len() - 1 {
        law_no_failure_no_report(outcomes.drop_last());
        assert(Seq::<int>::empty().push(k) =~= seq![k]);
    } else {
        law_one_failure_one_report(outcomes.drop_last(), k);
    }
}

} // verus!
