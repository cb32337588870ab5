//! How the steps of a plan are taken: in order, and none behind one that failed.
use vstd::prelude::*;

use crate::error::{EtlError, EtlResult};

verus! {

/// What is to be done next in a plan.
#[derive(Debug)]
pub enum PlanStep {
    /// Take a step, by its place.
    Take(usize),
    /// All steps are taken.
    Done,
    /// The plan ends with the error of a step.
    Fail(EtlError),
}

/// Where a plan stands: the steps before `next` succeeded.
#[derive(Debug)]
pub struct PlanRun {
    /// Place of the step that is being taken.
    pub next: usize,
    /// Number of steps.
    pub total: usize,
}

/// What is to be done when so many steps succeeded.
pub open spec fn step_at(succeeded: nat, total: nat) -> PlanStep {
    if succeeded < total {
        PlanStep::Take(succeeded as usize)
    } else {
        PlanStep::Done
    }
}

/// Where a plan stands after a step, and what is to be done next.
pub open spec fn plan_goes_on(
    before: PlanRun,
    result: EtlResult<()>,
    after: PlanRun,
    step: PlanStep,
) -> bool {
    &&& after.total == before.total
    &&& match result {
        Ok(_) => after.next == before.next + 1 && step == step_at(
            after.next as nat,
            after.total as nat,
        ),
        Err(e) => after.next == before.next && step == PlanStep::Fail(e),
    }
}

impl PlanRun {
    /// Begins to take the steps of a plan.
    pub fn begin(total: usize) -> (r: (Self, PlanStep))
        ensures
            r.0.next == 0,
            r.0.total == total,
            r.1 == step_at(0, total as nat),
    {
        let step = if total == 0 {
            PlanStep::Done
        } else {
            PlanStep::Take(0)
        };
        (PlanRun { next: 0, total }, step)
    }

    /// Takes up how a step went. A step that failed ends the plan with its error.
    pub fn on_result(&mut self, result: EtlResult<()>) -> (r: PlanStep)
        requires
            old(self).next < old(self).total,
        ensures
            plan_goes_on(*old(self), result, *final(self), r),
    {
        match result {
            Ok(_) => {
                self.next = self.next + 1;
                if self.next < self.total {
                    PlanStep::Take(self.next)
                } else {
                    PlanStep::Done
                }
            },
            Err(e) => PlanStep::Fail(e),
        }
    }
}

/// Whether a plan of so many steps went through these states as its steps were taken with these
/// results.
pub open spec fn is_plan_run(
    total: nat,
    states: Seq<(PlanRun, PlanStep)>,
    results: Seq<EtlResult<()>>,
) -> bool
    decreases results.len(),
{
    &&& states.len() == results.len() + 1
    &&& if results.len() == 0 {
        &&& states[0].0.next == 0
        &&& states[0].0.total == total
        &&& states[0].1 == step_at(0, total)
    } else {
        let before = states.drop_last().last();
        &&& is_plan_run(total, states.drop_last(), results.drop_last())
        &&& before.1 is Take
        &&& plan_goes_on(before.0, results.last(), states.last().0, states.last().1)
    }
}

/// Whether the last of the steps that were taken failed.
pub open spec fn failed(results: Seq<EtlResult<()>>) -> bool {
    results.len() > 0 && results.last() is Err
}

/// How many steps succeeded.
pub open spec fn succeeded(results: Seq<EtlResult<()>>) -> nat {
    if failed(results) {
        (results.len() - 1) as nat
    } else {
        results.len()
    }
}

/// The steps of a plan are taken in order. A step that failed ends the plan with its error, and no
/// step behind it is taken; a plan is done exactly when all its steps succeeded.
pub proof fn law_failed_step_ends_the_plan(
    total: nat,
    states: Seq<(PlanRun, PlanStep)>,
    results: Seq<EtlResult<()>>,
)
    requires
        is_plan_run(total, states, results),
    ensures
        succeeded(results) <= total,
        failed(results) ==> succeeded(results) < total && states.last().1 == PlanStep::Fail(
            results.last()->Err_0,
        ),
        !failed(results) ==> states.last().1 == step_at(succeeded(results), total),
        states.last().1 is Done <==> !failed(results) && results.len() == total,
        forall|i: int| 0 <= i < succeeded(results) ==> #[trigger] results[i] is Ok,
        forall|i: int|
            0 <= i < results.len() ==> (#[trigger] states[i]).1 == PlanStep::Take(i as usize),
    decreases results.len(),
{
    lemma_place(total, states, results);
    if results.len() > 0 {
        let earlier = states.drop_last();
        let n = results.len() - 1;
        law_failed_step_ends_the_plan(total, earlier, results.drop_last());
        lemma_place(total, earlier, results.drop_last());
        assert forall|i: int| 0 <= i < results.len() implies (#[trigger] states[i]).1
            == PlanStep::Take(i as usize) by {
            assert(states[i] == earlier[i]);
        }
        assert forall|i: int| 0 <= i < succeeded(results) implies #[trigger] results[i] is Ok by {
            if i < n {
                assert(results.drop_last()[i] == results[i]);
            }
        }
    }
}

proof fn lemma_place(total: nat, states: Seq<(PlanRun, PlanStep)>, results: Seq<EtlResult<()>>)
    requires
        is_plan_run(total, states, results),
    ensures
        states.last().0.total == total,
        states.last().0.next == succeeded(results),
        succeeded(results) <= total,
        failed(results) ==> succeeded(results) < total,
        states.last().1 == if failed(results) {
            PlanStep::Fail(results.last()->Err_0)
        } else {
            step_at(succeeded(results), total)
        },
        states.last().1 is Take ==> !failed(results) && results.len() < total,
    decreases results.len(),
{
    if results.len() > 0 {
        lemma_place(total, states.drop_last(), results.drop_last());
    }
}

/// What is recorded about a table that is created or changed.
#[derive(Clone, Copy, Debug, PartialEq, Eq, Structural)]
pub enum RecordStatus {
    /// The work was begun.
    Applying,
    /// The work is done.
    Applied,
}

/// What steps leave recorded about a table, given what each of them records and what was recorded
/// before.
pub open spec fn recorded_after<A>(
    records: spec_fn(A) -> Option<RecordStatus>,
    steps: Seq<A>,
    before: Option<RecordStatus>,
) -> Option<RecordStatus>
    decreases steps.len(),
{
    if steps.len() == 0 {
        before
    } else {
        match records(steps.last()) {
            Some(status) => Some(status),
            None => recorded_after(records, steps.drop_last(), before),
        }
    }
}

/// What the first `k` steps leave recorded, where at most one step records the begin of the work and
/// at most one records its end.
pub proof fn lemma_recorded<A>(
    records: spec_fn(A) -> Option<RecordStatus>,
    steps: Seq<A>,
    begin: int,
    end: int,
    k: int,
    before: Option<RecordStatus>,
)
    requires
        -1 <= begin < end <= steps.len(),
        0 <= k <= steps.len(),
        forall|i: int|
            0 <= i < steps.len() ==> records(#[trigger] steps[i]) == if i == begin {
                Some(RecordStatus::Applying)
            } else if i == end {
                Some(RecordStatus::Applied)
            } else {
                None
            },
    ensures
        recorded_after(records, steps.take(k), before) == if k > end {
            Some(RecordStatus::Applied)
        } else if 0 <= begin < k {
            Some(RecordStatus::Applying)
        } else {
            before
        },
    decreases k,
{
    if k > 0 {
        lemma_recorded(records, steps, begin, end, k - 1, before);
        assert(steps.take(k).drop_last() =~= steps.take(k - 1));
        assert(steps.take(k).last() == steps[k - 1]);
    }
}

/// A plan takes its steps one after another and is done behind the last.
pub proof fn law_steps_are_taken_in_order(succeeded: nat, total: nat)
    ensures
        succeeded < total ==> step_at(succeeded, total) == PlanStep::Take(succeeded as usize),
        succeeded >= total ==> step_at(succeeded, total) is Done,
{
}

/// What is recorded of a table is what its last recording step says; without one it stays.
pub proof fn law_last_record_stands<A>(
    records: spec_fn(A) -> Option<RecordStatus>,
    steps: Seq<A>,
    step: A,
    before: Option<RecordStatus>,
)
    ensures
        recorded_after(records, Seq::empty(), before) == before,
        records(step) is Some ==> recorded_after(records, steps.push(step), before) == records(step),
        records(step) is None ==> recorded_after(records, steps.push(step), before)
            == recorded_after(records, steps, before),
{
    assert(steps.push(step).drop_last() =~= steps);
}

/// A step that succeeds moves the plan to the next one; a step that fails ends it with its error.
pub proof fn law_plan_goes_on_by_one(
    before: PlanRun,
    result: EtlResult<()>,
    after: PlanRun,
    step: PlanStep,
)
    requires
        plan_goes_on(before, result, after, step),
    ensures
        after.total == before.total,
        result is Ok ==> after.next == before.next + 1,
        result is Ok ==> (before.next + 1 < before.total ==> step == PlanStep::Take(
            (before.next + 1) as usize,
        )),
        result is Ok ==> (before.next + 1 >= before.total ==> step is Done),
        result matches Err(e) ==> after.next == before.next && step == PlanStep::Fail(e),
{
}

} // verus!
