//! Carrying out a plan step by step.
//!
//! The steps of an upload cycle or of a garbage collection pass are carried
//! out in order. A step that fails ends the cycle or pass: no later step is
//! started, and what earlier steps did stays done.

use vstd::prelude::*;

verus! {

/// How carrying out one step ended.
#[derive(Clone, Copy, Debug, PartialEq, Eq, Structural)]
pub enum StepOutcome {
    Succeeded,
    Failed,
}

/// How far a plan of `total` steps has been carried out, as a mathematical
/// value.
pub struct ProgressState {
    /// Number of steps of the plan.
    pub total: nat,
    /// Number of steps that succeeded; they are the first `completed` steps.
    pub completed: nat,
    /// Whether the step after those failed.
    pub failed: bool,
}

impl ProgressState {
    /// The state before any step.
    pub open spec fn initial(total: nat) -> ProgressState {
        ProgressState { total, completed: 0, failed: false }
    }

    /// The step to carry out next: none once a step has failed or all steps
    /// are done.
    pub open spec fn next_step(self) -> Option<nat> {
        if !self.failed && self.completed < self.total {
            Some(self.completed)
        } else {
            None
        }
    }

    /// The state after the outcome of the step that `next_step` named. With
    /// no step to carry out, an outcome changes nothing.
    pub open spec fn record(self, outcome: StepOutcome) -> ProgressState {
        if self.next_step() is None {
            self
        } else {
            match outcome {
                StepOutcome::Succeeded => ProgressState { completed: self.completed + 1, ..self },
                StepOutcome::Failed => ProgressState { failed: true, ..self },
            }
        }
    }

    /// The state after a sequence of outcomes.
    pub open spec fn record_all(self, outcomes: Seq<StepOutcome>) -> ProgressState
        decreases outcomes.len(),
    {
        if outcomes.len() == 0 {
            self
        } else {
            self.record_all(outcomes.drop_last()).record(outcomes.last())
        }
    }

    /// Number of steps that were started: those that succeeded, and the one
    /// that failed.
    pub open spec fn started(self) -> nat {
        if self.failed {
            self.completed + 1
        } else {
            self.completed
        }
    }
}

/// A failure is final: whatever is recorded after it, the state stays as it
/// is, so no further step is ever started.
pub proof fn lemma_failure_is_final(state: ProgressState, later: Seq<StepOutcome>)
    requires
        state.failed,
    ensures
        state.record_all(later) == state,
        state.record_all(later).next_step() is None,
    decreases later.len(),
{
    if later.len() > 0 {
        lemma_failure_is_final(state, later.drop_last());
    }
}

/// Steps are started in the order of the plan, none twice and none skipped:
/// after any outcomes, the started steps are a prefix of the plan, and all
/// of them but a failed last one succeeded.
pub proof fn lemma_steps_in_order(total: nat, outcomes: Seq<StepOutcome>)
    ensures
        ProgressState::initial(total).record_all(outcomes).total == total,
        ProgressState::initial(total).record_all(outcomes).started() <= total,
        ProgressState::initial(total).record_all(outcomes).completed <= outcomes.len(),
    decreases outcomes.len(),
{
    if outcomes.len() > 0 {
        lemma_steps_in_order(total, outcomes.drop_last());
    }
}

/// How far a plan has been carried out.
#[derive(Debug)]
pub struct Progress {
    total: usize,
    completed: usize,
    failed: bool,
}

impl View for Progress {
    type V = ProgressState;

    closed spec fn view(&self) -> ProgressState {
        ProgressState {
            total: self.total as nat,
            completed: self.completed as nat,
            failed: self.failed,
        }
    }
}

impl Progress {
    #[verifier::type_invariant]
    spec fn well_formed(&self) -> bool {
        self.completed <= self.total && (self.failed ==> self.completed < self.total)
    }

    /// Progress of a plan of `total` steps of which none has been started.
    pub fn new(total: usize) -> (progress: Self)
        ensures
            progress@ == ProgressState::initial(total as nat),
    {
        Progress { total, completed: 0, failed: false }
    }

    /// Index of the step to carry out next, if there is one.
    pub fn next_step(&self) -> (step: Option<usize>)
        ensures
            step is Some <==> self@.next_step() is Some,
            step is Some ==> step->0 == self@.next_step()->0,
    {
        if !self.failed && self.completed < self.total {
            Some(self.completed)
        } else {
            None
        }
    }

    /// Records how the step that `next_step` named ended.
    pub fn record(&mut self, outcome: StepOutcome)
        ensures
            final(self)@ == old(self)@.record(outcome),
    {
        proof {
            use_type_invariant(&*self);
        }
        if !self.failed && self.completed < self.total {
            match outcome {
                StepOutcome::Succeeded => {
                    self.completed = self.completed + 1;
                },
                StepOutcome::Failed => {
                    self.failed = true;
                },
            }
        }
    }

    /// Number of steps that succeeded.
    pub fn completed(&self) -> (completed: usize)
        ensures
            completed == self@.completed,
    {
        self.completed
    }

    /// Whether a step failed.
    pub fn has_failed(&self) -> (failed: bool)
        ensures
            failed == self@.failed,
    {
        self.failed
    }
}

} // verus!
