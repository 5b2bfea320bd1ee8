//! The life of one request.
//!
//! A request starts out created, has its tables resolved, then its
//! relations bound, and is executed last. Whatever fails ends the request:
//! nothing is tried twice.

use vstd::prelude::*;

verus! {

/// How far a request has come.
#[derive(Debug, Clone, Copy, PartialEq, Eq, Structural)]
pub enum Stage {
    Created,
    TablesResolved,
    RelationsBound,
    /// Executed with a result.
    Succeeded,
    /// Ended by a failure, at whatever stage.
    Failed,
}

/// What is done for a request, one thing after the other.
#[derive(Debug, Clone, Copy, PartialEq, Eq, Structural)]
pub enum Step {
    ResolveTables,
    BindRelations,
    Execute,
}

impl Stage {
    /// The request has come to its end.
    pub open spec fn is_terminal(self) -> bool {
        self == Stage::Succeeded || self == Stage::Failed
    }

    /// The step that is due at this stage, if any.
    pub open spec fn due(self) -> Option<Step> {
        match self {
            Stage::Created => Some(Step::ResolveTables),
            Stage::TablesResolved => Some(Step::BindRelations),
            Stage::RelationsBound => Some(Step::Execute),
            Stage::Succeeded => None,
            Stage::Failed => None,
        }
    }

    /// The stage that follows once `step` came out as `succeeded` says. A
    /// request that has ended stays as it is. The step that is due leads
    /// on if it succeeded; a failure, and a step that is not due, end the
    /// request.
    pub open spec fn after(self, step: Step, succeeded: bool) -> Stage {
        if self.is_terminal() {
            self
        } else if succeeded && self.due() == Some(step) {
            match step {
                Step::ResolveTables => Stage::TablesResolved,
                Step::BindRelations => Stage::RelationsBound,
                Step::Execute => Stage::Succeeded,
            }
        } else {
            Stage::Failed
        }
    }

    /// Tells whether the request has come to its end.
    pub fn terminal(&self) -> (r: bool)
        ensures
            r == self.is_terminal(),
    {
        match self {
            Stage::Succeeded => true,
            Stage::Failed => true,
            _ => false,
        }
    }

    /// The stage that follows once `step` came out as `succeeded` says.
    pub fn advance(&self, step: Step, succeeded: bool) -> (next: Stage)
        ensures
            next == self.after(step, succeeded),
    {
        match (self, step, succeeded) {
            (Stage::Succeeded, _, _) => Stage::Succeeded,
            (Stage::Failed, _, _) => Stage::Failed,
            (Stage::Created, Step::ResolveTables, true) => Stage::TablesResolved,
            (Stage::TablesResolved, Step::BindRelations, true) => Stage::RelationsBound,
            (Stage::RelationsBound, Step::Execute, true) => Stage::Succeeded,
            _ => Stage::Failed,
        }
    }
}

/// The stage reached from `stage` by a run of steps with their outcomes.
pub open spec fn after_all(stage: Stage, steps: Seq<(Step, bool)>) -> Stage
    decreases steps.len(),
{
    if steps.len() == 0 {
        stage
    } else {
        after_all(stage, steps.drop_last()).after(steps.last().0, steps.last().1)
    }
}

/// A request that has ended stays as it ended, whatever is tried on it.
pub proof fn lemma_terminal_stays(stage: Stage, steps: Seq<(Step, bool)>)
    requires
        stage.is_terminal(),
    ensures
        after_all(stage, steps) == stage,
    decreases steps.len(),
{
    if steps.len() > 0 {
        lemma_terminal_stays(stage, steps.drop_last());
    }
}

/// A failed step ends the request in failure, unless it had already ended.
pub proof fn lemma_failure_is_final(stage: Stage, step: Step, later: Seq<(Step, bool)>)
    requires
        !stage.is_terminal(),
    ensures
        after_all(stage.after(step, false), later) == Stage::Failed,
{
    lemma_terminal_stays(Stage::Failed, later);
}

/// A new request succeeds only by the three steps in their order, each of
/// them successful.
pub proof fn lemma_success_path(steps: Seq<(Step, bool)>)
    requires
        after_all(Stage::Created, steps) == Stage::Succeeded,
    ensures
        steps.len() >= 3,
        steps[0] == (Step::ResolveTables, true),
        steps[1] == (Step::BindRelations, true),
        steps[2] == (Step::Execute, true),
{
    lemma_prefix_stage(steps, 0);
    lemma_prefix_stage(steps, 1);
    lemma_prefix_stage(steps, 2);
    lemma_prefix_stage(steps, 3);
    if steps.len() >= 1 {
        assert(steps.subrange(0, 1).drop_last() =~= steps.subrange(0, 0));
    }
    if steps.len() >= 2 {
        assert(steps.subrange(0, 2).drop_last() =~= steps.subrange(0, 1));
    }
    if steps.len() >= 3 {
        assert(steps.subrange(0, 3).drop_last() =~= steps.subrange(0, 2));
    }
}

/// A run that ends in success has not failed at any point on the way.
proof fn lemma_prefix_stage(steps: Seq<(Step, bool)>, k: int)
    requires
        after_all(Stage::Created, steps) == Stage::Succeeded,
        0 <= k,
    ensures
        k <= steps.len() ==> after_all(Stage::Created, steps.subrange(0, k)) != Stage::Failed,
    decreases steps.len() - k,
{
    if k < steps.len() {
        lemma_prefix_stage(steps, k + 1);
        assert(steps.subrange(0, k + 1).drop_last() =~= steps.subrange(0, k));
    } else if k == steps.len() {
        assert(steps.subrange(0, k) =~= steps);
    }
}

} // verus!
