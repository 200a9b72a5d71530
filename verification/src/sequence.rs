//! Strict sequencing: the calls of a plan are issued one at a time, in order,
//! and the first failure ends the run.
//!
//! The rule is a function from where a run stands and how its last call
//! ended to where it stands next and what to do next. [`run_plan`] follows it
//! against an invoker; the laws at the end of this file say what follows
//! from it for every plan and every way the calls may end.

use crate::call::CrossCall;
use crate::error::ProcessorError;
use solana_program::program_error::ProgramError;
use vstd::prelude::*;

verus! {

/// What the processor does next.
#[derive(Debug, PartialEq, Eq)]
pub enum Step {
    /// Hand this call to the invoker and come back with how it ended.
    Invoke(CrossCall),
    /// Return this to the host. The run is over.
    Return(Result<(), ProcessorError>),
}

/// Where a run through a plan stands.
pub ghost struct Progress {
    /// The calls to make, in order.
    pub plan: Seq<CrossCall>,
    /// How many of them have been handed to the invoker.
    pub issued: nat,
    /// Whether the run is over. While it is not, the last call issued has not
    /// been answered yet.
    pub finished: bool,
}

impl Progress {
    /// A run that is not over has issued a call, and no run issues more calls
    /// than its plan holds.
    pub open spec fn wf(self) -> bool {
        self.issued <= self.plan.len() && (self.finished || self.issued >= 1)
    }

    /// The calls that the invoker has received, in order.
    pub open spec fn calls_issued(self) -> Seq<CrossCall> {
        self.plan.take(self.issued as int)
    }

    /// The start of a run: the first call of the plan, or success at once
    /// where the plan is empty.
    pub open spec fn begin(plan: Seq<CrossCall>) -> (Progress, Step) {
        if plan.len() == 0 {
            (Progress { plan, issued: 0, finished: true }, Step::Return(Ok(())))
        } else {
            (Progress { plan, issued: 1, finished: false }, Step::Invoke(plan[0]))
        }
    }

    /// The step after the last call issued ended with `outcome`. A failure
    /// ends the run with the call's own error; a success leads to the next
    /// call of the plan, or ends the run where there is none.
    pub open spec fn resume(self, outcome: Result<(), ProgramError>) -> (Progress, Step) {
        match outcome {
            Err(error) => (
                Progress { finished: true, ..self },
                Step::Return(Err(ProcessorError::CrossModule(error))),
            ),
            Ok(()) => if self.issued < self.plan.len() {
                (
                    Progress { issued: self.issued + 1, ..self },
                    Step::Invoke(self.plan[self.issued as int]),
                )
            } else {
                (Progress { finished: true, ..self }, Step::Return(Ok(())))
            },
        }
    }

    /// Where a run through `plan` stands once its calls have ended with
    /// `outcomes`, the first call with the first outcome. Outcomes past the
    /// end of the run answer no call and change nothing.
    pub open spec fn run(plan: Seq<CrossCall>, outcomes: Seq<Result<(), ProgramError>>) -> (
        Progress,
        Step,
    )
        decreases outcomes.len(),
    {
        if outcomes.len() == 0 {
            Progress::begin(plan)
        } else {
            let before = Progress::run(plan, outcomes.drop_last());
            if before.0.finished {
                before
            } else {
                before.0.resume(outcomes.last())
            }
        }
    }
}

/// A run through a plan.
pub struct Sequencer {
    plan: Vec<CrossCall>,
    issued: usize,
    finished: bool,
}

impl View for Sequencer {
    type V = Progress;

    closed spec fn view(&self) -> Progress {
        Progress { plan: self.plan@, issued: self.issued as nat, finished: self.finished }
    }
}

impl Sequencer {
    /// Starts a run through `plan`.
    pub fn begin(plan: Vec<CrossCall>) -> (started: (Sequencer, Step))
        ensures
            (started.0@, started.1) == Progress::begin(plan@),
            started.0@.wf(),
    {
        if plan.len() == 0 {
            (Sequencer { plan, issued: 0, finished: true }, Step::Return(Ok(())))
        } else {
            let first = plan[0];
            (Sequencer { plan, issued: 1, finished: false }, Step::Invoke(first))
        }
    }

    /// Takes how the last call issued ended, and says what to do next.
    pub fn resume(self, outcome: Result<(), ProgramError>) -> (next: (Sequencer, Step))
        requires
            self@.wf(),
            !self@.finished,
        ensures
            (next.0@, next.1) == self@.resume(outcome),
            next.0@.wf(),
    {
        match outcome {
            Err(error) => (
                Sequencer { plan: self.plan, issued: self.issued, finished: true },
                Step::Return(Err(ProcessorError::CrossModule(error))),
            ),
            Ok(()) => if self.issued < self.plan.len() {
                let call = self.plan[self.issued];
                (
                    Sequencer { plan: self.plan, issued: self.issued + 1, finished: false },
                    Step::Invoke(call),
                )
            } else {
                (
                    Sequencer { plan: self.plan, issued: self.issued, finished: true },
                    Step::Return(Ok(())),
                )
            },
        }
    }
}

/// Whether `outcomes` are answers that `invoker` gave to the calls of
/// `plan`, the first outcome to the first call.
pub open spec fn answered_by<F: Fn(CrossCall) -> Result<(), ProgramError>>(
    invoker: F,
    plan: Seq<CrossCall>,
    outcomes: Seq<Result<(), ProgramError>>,
) -> bool {
    &&& outcomes.len() <= plan.len()
    &&& forall|i: int|
        0 <= i < outcomes.len() ==> call_ensures(invoker, (plan[i],), #[trigger] outcomes[i])
}

/// Runs `plan` against `invoker`: hands it the calls in order, one at a
/// time, and stops at the first that fails.
///
/// The result is the one that [`Progress::run`] gives for the outcomes that
/// the invoker answered with. So on success every call of the plan was
/// answered with success; on failure some call was answered with the error
/// returned, unchanged, and every call before it with success.
pub fn run_plan<F>(plan: Vec<CrossCall>, invoker: F) -> (result: Result<(), ProcessorError>)
    where F: Fn(CrossCall) -> Result<(), ProgramError>
    requires
        forall|i: int| 0 <= i < plan@.len() ==> call_requires(invoker, (#[trigger] plan@[i],)),
    ensures
        exists|outcomes: Seq<Result<(), ProgramError>>|
            {
                &&& #[trigger] answered_by(invoker, plan@, outcomes)
                &&& Progress::run(plan@, outcomes).1 == Step::Return(result)
            },
        result is Ok ==> forall|i: int|
            0 <= i < plan@.len() ==> call_ensures(invoker, (#[trigger] plan@[i],), Ok(())),
        result is Err ==> exists|k: int, error: ProgramError|
            {
                &&& 0 <= k < plan@.len()
                &&& result == Err::<(), ProcessorError>(ProcessorError::CrossModule(error))
                &&& #[trigger] call_ensures(invoker, (plan@[k],), Err(error))
                &&& forall|j: int|
                    0 <= j < k ==> call_ensures(invoker, (#[trigger] plan@[j],), Ok(()))
            },
{
    let ghost calls = plan@;
    let ghost mut outcomes: Seq<Result<(), ProgramError>> = Seq::empty();
    let started = Sequencer::begin(plan);
    let mut sequencer = started.0;
    let mut step = started.1;
    loop
        invariant
            calls == plan@,
            sequencer@.wf(),
            sequencer@.plan == calls,
            forall|i: int| 0 <= i < calls.len() ==> call_requires(invoker, (#[trigger] calls[i],)),
            answered_by(invoker, calls, outcomes),
            (sequencer@, step) == Progress::run(calls, outcomes),
            outcomes.len() + (if sequencer@.finished { 0int } else { 1int }) == sequencer@.issued,
            match step {
                Step::Invoke(call) => {
                    &&& !sequencer@.finished
                    &&& call == calls[sequencer@.issued - 1]
                    &&& forall|j: int|
                        0 <= j < sequencer@.issued - 1 ==> call_ensures(
                            invoker,
                            (#[trigger] calls[j],),
                            Ok(()),
                        )
                },
                Step::Return(Ok(())) => forall|i: int|
                    0 <= i < calls.len() ==> call_ensures(invoker, (#[trigger] calls[i],), Ok(())),
                Step::Return(Err(failure)) => exists|k: int, error: ProgramError|
                    {
                        &&& 0 <= k < calls.len()
                        &&& failure == ProcessorError::CrossModule(error)
                        &&& #[trigger] call_ensures(invoker, (calls[k],), Err(error))
                        &&& forall|j: int|
                            0 <= j < k ==> call_ensures(invoker, (#[trigger] calls[j],), Ok(()))
                    },
            },
        decreases calls.len() - sequencer@.issued + (if sequencer@.finished { 0int } else { 1int }),
    {
        match step {
            Step::Return(result) => {
                return result;
            },
            Step::Invoke(call) => {
                let ghost before = outcomes;
                let outcome = invoker(call);
                let next = sequencer.resume(outcome);
                sequencer = next.0;
                step = next.1;
                proof {
                    outcomes = before.push(outcome);
                    assert(outcomes.drop_last() =~= before);
                    if outcome is Ok {
                        assert(outcome->Ok_0 =~= ());
                    }
                }
            },
        }
    }
}

/// A failure is final: whatever the plan and however far the run has come,
/// a call that fails ends the run with that call's own error, and no further
/// call is issued.
pub proof fn lemma_failure_ends_run(progress: Progress, error: ProgramError)
    requires
        progress.wf(),
        !progress.finished,
    ensures
        progress.resume(Err(error)).1 == Step::Return(Err(ProcessorError::CrossModule(error))),
        progress.resume(Err(error)).0.finished,
        progress.resume(Err(error)).0.calls_issued() == progress.calls_issued(),
{
}

/// A success leads to the next call of the plan and to nothing else; after
/// the last call it ends the run with success.
pub proof fn lemma_success_moves_on(progress: Progress)
    requires
        progress.wf(),
        !progress.finished,
    ensures
        progress.issued < progress.plan.len() ==> {
            &&& progress.resume(Ok(())).1 == Step::Invoke(progress.plan[progress.issued as int])
            &&& progress.resume(Ok(())).0.calls_issued() == progress.calls_issued().push(
                progress.plan[progress.issued as int],
            )
        },
        progress.issued == progress.plan.len() ==> {
            &&& progress.resume(Ok(())).1 == Step::Return(Ok(()))
            &&& progress.resume(Ok(())).0.calls_issued() == progress.plan
        },
{
    if progress.issued < progress.plan.len() {
        assert(progress.resume(Ok(())).0.calls_issued() =~= progress.calls_issued().push(
            progress.plan[progress.issued as int],
        ));
    }
}

/// While every call succeeds, a run issues the calls of its plan in order,
/// one for each outcome and one more, and ends with success once the last
/// call of the plan has succeeded.
pub proof fn lemma_run_while_calls_succeed(
    plan: Seq<CrossCall>,
    outcomes: Seq<Result<(), ProgramError>>,
)
    requires
        forall|j: int| 0 <= j < outcomes.len() ==> outcomes[j] is Ok,
    ensures
        outcomes.len() < plan.len() ==> Progress::run(plan, outcomes) == (
            Progress { plan, issued: outcomes.len() + 1, finished: false },
            Step::Invoke(plan[outcomes.len() as int]),
        ),
        outcomes.len() >= plan.len() ==> Progress::run(plan, outcomes) == (
            Progress { plan, issued: plan.len(), finished: true },
            Step::Return(Ok(())),
        ),
    decreases outcomes.len(),
{
    if outcomes.len() > 0 {
        lemma_run_while_calls_succeed(plan, outcomes.drop_last());
    }
}

/// A run stops at the first call that fails: the calls before it and that
/// call are the only ones issued, and the run ends with that call's own
/// error, whatever outcomes might have followed.
pub proof fn lemma_run_stops_at_first_failure(
    plan: Seq<CrossCall>,
    outcomes: Seq<Result<(), ProgramError>>,
    k: int,
)
    requires
        0 <= k < plan.len(),
        k < outcomes.len(),
        outcomes[k] is Err,
        forall|j: int| 0 <= j < k ==> outcomes[j] is Ok,
    ensures
        Progress::run(plan, outcomes).0.calls_issued() == plan.take(k + 1),
        Progress::run(plan, outcomes).0.finished,
        Progress::run(plan, outcomes).1 == Step::Return(
            Err(ProcessorError::CrossModule(outcomes[k]->Err_0)),
        ),
    decreases outcomes.len(),
{
    let shorter = outcomes.drop_last();
    if outcomes.len() == k + 1 {
        lemma_run_while_calls_succeed(plan, shorter);
    } else {
        lemma_run_stops_at_first_failure(plan, shorter, k);
    }
}

/// A run in which every call succeeds issues the whole plan, in order, and
/// ends with success.
pub proof fn lemma_run_completes(plan: Seq<CrossCall>, outcomes: Seq<Result<(), ProgramError>>)
    requires
        outcomes.len() >= plan.len(),
        forall|j: int| 0 <= j < outcomes.len() ==> outcomes[j] is Ok,
    ensures
        Progress::run(plan, outcomes).0.calls_issued() == plan,
        Progress::run(plan, outcomes).0.finished,
        Progress::run(plan, outcomes).1 == Step::Return(Ok(())),
{
    lemma_run_while_calls_succeed(plan, outcomes);
}

/// However the calls end, a run never issues a call that is not in its
/// plan, never out of order, and never one twice: what the invoker has
/// received is always the plan up to some point.
pub proof fn lemma_run_issues_a_prefix(
    plan: Seq<CrossCall>,
    outcomes: Seq<Result<(), ProgramError>>,
)
    ensures
        Progress::run(plan, outcomes).0.wf(),
        Progress::run(plan, outcomes).0.plan == plan,
        Progress::run(plan, outcomes).0.issued <= outcomes.len() + 1,
        Progress::run(plan, outcomes).0.calls_issued().is_prefix_of(plan),
        Progress::run(plan, outcomes).1 is Return <==> Progress::run(plan, outcomes).0.finished,
    decreases outcomes.len(),
{
    if outcomes.len() > 0 {
        lemma_run_issues_a_prefix(plan, outcomes.drop_last());
    }
}

/// Once a run is over, outcomes that come after it change nothing: no call
/// is issued for them and the result stays.
pub proof fn lemma_run_ignores_later_outcomes(
    plan: Seq<CrossCall>,
    outcomes: Seq<Result<(), ProgramError>>,
    later: Seq<Result<(), ProgramError>>,
)
    requires
        Progress::run(plan, outcomes).0.finished,
    ensures
        Progress::run(plan, outcomes + later) == Progress::run(plan, outcomes),
    decreases later.len(),
{
    if later.len() > 0 {
        lemma_run_ignores_later_outcomes(plan, outcomes, later.drop_last());
        assert((outcomes + later).drop_last() =~= outcomes + later.drop_last());
    }
}

} // verus!
