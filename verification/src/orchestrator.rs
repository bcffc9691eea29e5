//! Running a batch of targets one after the other: what to do next, and what
//! becomes of each target's outcome. The caller performs each step and
//! reports how it went; a target that fails never stops the ones after it.

use vstd::prelude::*;
use vstd::string::StringExecFns;
use crate::adapters::all_targets;
use crate::adapters::catalog;
use crate::adapters::find_by_id;
use crate::adapters::id_has_prefix;
use crate::adapters::targets_by_prefix;
use crate::adapters::views_of;
use crate::adapters::Target;
use crate::adapters::TargetView;
use crate::result::BenchmarkResult;

verus! {

/// Where a batch stands with the target at its current position.
#[derive(Clone, Copy, Debug, PartialEq, Eq, Structural)]
pub enum Phase {
    /// The target is about to be set up.
    Setup,
    /// The target was set up and is about to run.
    Run,
    /// The target ran and is about to be torn down.
    Teardown,
    /// No target is left.
    Done,
}

/// What became of one target of the batch.
#[derive(Clone, Copy, Debug, PartialEq, Eq, Structural)]
pub enum Outcome {
    /// Its setup failed: it did not run and left no record.
    SetupFailed,
    /// It ran and was torn down.
    Ran,
    /// It ran and left its record, but its teardown failed.
    RanTeardownFailed,
}

/// What the caller reports after performing a step.
#[derive(Clone, Debug)]
pub enum Event {
    SetupSucceeded,
    SetupFailed,
    /// The target ran and produced this record.
    Completed(BenchmarkResult),
    TeardownSucceeded,
    TeardownFailed,
}

/// What the caller is to do next; the number is the target's position in the batch.
#[derive(Clone, Copy, Debug, PartialEq, Eq, Structural)]
pub enum Action {
    Setup(usize),
    Run(usize),
    Teardown(usize),
    /// Nothing is left to do: collect the records.
    Finish,
}

/// Why a batch could not be put together.
#[derive(Clone, Copy, Debug, PartialEq, Eq, Structural)]
pub enum ValidationError {
    /// No target has the identifier asked for.
    UnknownTarget,
    /// No target's identifier begins with the prefix asked for.
    NoMatch,
}

/// The state of a batch: how many targets it has, what became of those that
/// are dealt with, where it stands with the next one, and the records so far.
pub struct BatchState {
    pub total: nat,
    pub outcomes: Seq<Outcome>,
    pub phase: Phase,
    pub results: Seq<BenchmarkResult>,
}

/// Number of targets among `outcomes` that ran.
pub open spec fn ran_count(outcomes: Seq<Outcome>) -> nat
    decreases outcomes.len(),
{
    if outcomes.len() == 0 {
        0
    } else {
        ran_count(outcomes.drop_last()) + if outcomes.last() == Outcome::SetupFailed {
            0nat
        } else {
            1nat
        }
    }
}

/// Number of targets among `outcomes` whose setup failed.
pub open spec fn setup_failure_count(outcomes: Seq<Outcome>) -> nat
    decreases outcomes.len(),
{
    if outcomes.len() == 0 {
        0
    } else {
        setup_failure_count(outcomes.drop_last()) + if outcomes.last() == Outcome::SetupFailed {
            1nat
        } else {
            0nat
        }
    }
}

/// Number of targets among `outcomes` whose teardown failed.
pub open spec fn teardown_failure_count(outcomes: Seq<Outcome>) -> nat
    decreases outcomes.len(),
{
    if outcomes.len() == 0 {
        0
    } else {
        teardown_failure_count(outcomes.drop_last()) + if outcomes.last()
            == Outcome::RanTeardownFailed {
            1nat
        } else {
            0nat
        }
    }
}

/// The phase in which a batch of `total` targets stands once `dealt` of them are dealt with.
pub open spec fn phase_after(total: nat, dealt: nat) -> Phase {
    if dealt < total {
        Phase::Setup
    } else {
        Phase::Done
    }
}

/// A batch that is consistent: it is done exactly when every target is
/// dealt with, and it holds one record for every target that ran.
pub open spec fn consistent(s: BatchState) -> bool {
    &&& s.outcomes.len() <= s.total
    &&& (s.phase == Phase::Done <==> s.outcomes.len() == s.total)
    &&& s.results.len() == ran_count(s.outcomes) + if s.phase == Phase::Teardown {
        1nat
    } else {
        0nat
    }
}

/// The batch of `total` targets before anything was done.
pub open spec fn initial(total: nat) -> BatchState {
    BatchState {
        total,
        outcomes: Seq::empty(),
        phase: phase_after(total, 0),
        results: Seq::empty(),
    }
}

/// The state after `event`, or `None` where the event does not belong to
/// the phase in which the batch stands.
pub open spec fn step(s: BatchState, event: Event) -> Option<BatchState> {
    let dealt = (s.outcomes.len() + 1) as nat;
    match (s.phase, event) {
        (Phase::Setup, Event::SetupSucceeded) => Some(BatchState { phase: Phase::Run, ..s }),
        (Phase::Setup, Event::SetupFailed) => Some(
            BatchState {
                outcomes: s.outcomes.push(Outcome::SetupFailed),
                phase: phase_after(s.total, dealt),
                ..s
            },
        ),
        (Phase::Run, Event::Completed(record)) => Some(
            BatchState { results: s.results.push(record), phase: Phase::Teardown, ..s },
        ),
        (Phase::Teardown, Event::TeardownSucceeded) => Some(
            BatchState {
                outcomes: s.outcomes.push(Outcome::Ran),
                phase: phase_after(s.total, dealt),
                ..s
            },
        ),
        (Phase::Teardown, Event::TeardownFailed) => Some(
            BatchState {
                outcomes: s.outcomes.push(Outcome::RanTeardownFailed),
                phase: phase_after(s.total, dealt),
                ..s
            },
        ),
        _ => None,
    }
}

/// What is to be done in a state.
pub open spec fn action_in(s: BatchState) -> Action {
    match s.phase {
        Phase::Setup => Action::Setup(s.outcomes.len() as usize),
        Phase::Run => Action::Run(s.outcomes.len() as usize),
        Phase::Teardown => Action::Teardown(s.outcomes.len() as usize),
        Phase::Done => Action::Finish,
    }
}

/// Every target that is dealt with either ran or failed in its setup.
pub proof fn lemma_outcome_counts(outcomes: Seq<Outcome>)
    ensures
        ran_count(outcomes) + setup_failure_count(outcomes) == outcomes.len(),
        teardown_failure_count(outcomes) <= ran_count(outcomes),
    decreases outcomes.len(),
{
    if outcomes.len() > 0 {
        lemma_outcome_counts(outcomes.drop_last());
    }
}

/// A step keeps a batch consistent, never loses a record, and a failure
/// moves the batch on to the next target just as a success does.
pub proof fn lemma_step(s: BatchState, event: Event)
    requires
        consistent(s),
        step(s, event) is Some,
    ensures
        consistent(step(s, event).unwrap()),
        step(s, event).unwrap().total == s.total,
        s.results.is_prefix_of(step(s, event).unwrap().results),
        s.outcomes.is_prefix_of(step(s, event).unwrap().outcomes),
        event is SetupFailed || event is TeardownSucceeded || event is TeardownFailed ==> step(
            s,
            event,
        ).unwrap().outcomes.len() == s.outcomes.len() + 1,
{
    let next = step(s, event).unwrap();
    if next.outcomes.len() == s.outcomes.len() + 1 {
        assert(next.outcomes.drop_last() =~= s.outcomes);
    }
}

/// Failure isolation: once a consistent batch is done, it holds exactly one
/// record for each target whose setup did not fail.
pub proof fn lemma_isolation(s: BatchState)
    requires
        consistent(s),
        s.phase == Phase::Done,
    ensures
        s.results.len() + setup_failure_count(s.outcomes) == s.total,
{
    lemma_outcome_counts(s.outcomes);
}

/// A batch of targets that are run one after the other.
pub struct Batch {
    targets: Vec<Target>,
    outcomes: Vec<Outcome>,
    phase: Phase,
    results: Vec<BenchmarkResult>,
}

impl View for Batch {
    type V = BatchState;

    closed spec fn view(&self) -> BatchState {
        BatchState {
            total: self.targets@.len(),
            outcomes: self.outcomes@,
            phase: self.phase,
            results: self.results@,
        }
    }
}

impl Batch {
    /// The targets of the batch, in the order in which they run.
    pub closed spec fn targets(&self) -> Seq<TargetView> {
        views_of(self.targets@)
    }

    /// The batch is consistent. This holds of every batch there is.
    #[verifier::type_invariant]
    pub open spec fn wf(&self) -> bool {
        consistent(self@)
    }

    /// A batch of the given targets, with nothing done yet.
    pub fn new(targets: Vec<Target>) -> (batch: Batch)
        ensures
            batch.wf(),
            batch.targets() == views_of(targets@),
            batch@ == initial(targets@.len()),
    {
        let phase = if targets.len() > 0 {
            Phase::Setup
        } else {
            Phase::Done
        };
        Batch { targets, outcomes: Vec::new(), phase, results: Vec::new() }
    }

    /// The batch of the whole catalog, in catalog order.
    pub fn all() -> (batch: Batch)
        ensures
            batch.wf(),
            batch.targets() == catalog(),
            batch@ == initial(catalog().len()),
    {
        Batch::new(all_targets())
    }

    /// The batch of the targets whose identifier begins with `prefix`, in
    /// catalog order; an error where there is none.
    pub fn by_prefix(prefix: &str) -> (r: Result<Batch, ValidationError>)
        ensures
            match r {
                Ok(batch) => batch.wf() && batch.targets() == catalog().filter(
                    id_has_prefix(prefix@),
                ) && batch.targets().len() > 0 && batch@ == initial(batch.targets().len()),
                Err(e) => e == ValidationError::NoMatch && catalog().filter(
                    id_has_prefix(prefix@),
                ).len() == 0,
            },
    {
        let targets = targets_by_prefix(prefix);
        if targets.len() == 0 {
            Err(ValidationError::NoMatch)
        } else {
            Ok(Batch::new(targets))
        }
    }

    /// The batch of the one target with the identifier `id`; an error where
    /// the catalog has none.
    pub fn by_id(id: &str) -> (r: Result<Batch, ValidationError>)
        ensures
            match r {
                Ok(batch) => batch.wf() && batch.targets().len() == 1 && batch.targets()[0].id
                    == id@ && catalog().contains(batch.targets()[0]) && batch@ == initial(1),
                Err(e) => e == ValidationError::UnknownTarget && forall|i: int|
                    0 <= i < catalog().len() ==> (#[trigger] catalog()[i]).id != id@,
            },
    {
        let all = all_targets();
        proof {
            assert forall|k: int| 0 <= k < all@.len() implies (#[trigger] all@[k])@ == catalog()[k] by {
                assert(views_of(all@)[k] == catalog()[k]);
            }
        }
        match find_by_id(all, id) {
            Some(t) => {
                let mut targets: Vec<Target> = Vec::new();
                let ghost view = t@;
                proof {
                    let i = choose|i: int|
                        0 <= i < all@.len() && all@[i]@ == t@ && t@.id == id@ && forall|k: int|
                            0 <= k < i ==> (#[trigger] all@[k])@.id != id@;
                    assert(catalog()[i] == view);
                }
                targets.push(t);
                assert(views_of(targets@)[0] == view);
                Ok(Batch::new(targets))
            },
            None => {
                proof {
                    assert forall|i: int| 0 <= i < catalog().len() implies (
                    #[trigger] catalog()[i]).id != id@ by {
                        assert(all@[i]@.id != id@);
                    }
                }
                Err(ValidationError::UnknownTarget)
            },
        }
    }

    /// Number of targets in the batch.
    pub fn len(&self) -> (n: usize)
        ensures
            n == self@.total,
            n == self.targets().len(),
    {
        self.targets.len()
    }

    /// The target at `position`.
    pub fn target(&self, position: usize) -> (t: &Target)
        requires
            position < self@.total,
        ensures
            t@ == self.targets()[position as int],
    {
        &self.targets[position]
    }

    /// What is to be done next.
    pub fn next_action(&self) -> (action: Action)
        ensures
            self.wf(),
            action == action_in(self@),
            action matches Action::Setup(i) ==> i < self@.total,
            action matches Action::Run(i) ==> i < self@.total,
            action matches Action::Teardown(i) ==> i < self@.total,
    {
        proof {
            use_type_invariant(self);
        }
        let position = self.outcomes.len();
        match self.phase {
            Phase::Setup => Action::Setup(position),
            Phase::Run => Action::Run(position),
            Phase::Teardown => Action::Teardown(position),
            Phase::Done => Action::Finish,
        }
    }

    fn stepped(self, event: Event) -> (r: (Batch, bool))
        ensures
            r.0.targets() == self.targets(),
            match step(self@, event) {
                Some(next) => r.0@ == next && r.1,
                None => r.0@ == self@ && !r.1,
            },
    {
        proof {
            use_type_invariant(&self);
            if step(self@, event) is Some {
                lemma_step(self@, event);
            }
        }
        let Batch { targets, outcomes, phase, results } = self;
        let mut outcomes = outcomes;
        let mut results = results;
        let settled: Option<Outcome> = match (phase, event) {
            (Phase::Setup, Event::SetupSucceeded) => {
                return (Batch { targets, outcomes, phase: Phase::Run, results }, true);
            },
            (Phase::Run, Event::Completed(record)) => {
                results.push(record);
                return (Batch { targets, outcomes, phase: Phase::Teardown, results }, true);
            },
            (Phase::Setup, Event::SetupFailed) => Some(Outcome::SetupFailed),
            (Phase::Teardown, Event::TeardownSucceeded) => Some(Outcome::Ran),
            (Phase::Teardown, Event::TeardownFailed) => Some(Outcome::RanTeardownFailed),
            _ => None,
        };
        match settled {
            Some(outcome) => {
                outcomes.push(outcome);
                let next = if outcomes.len() < targets.len() {
                    Phase::Setup
                } else {
                    Phase::Done
                };
                (Batch { targets, outcomes, phase: next, results }, true)
            },
            None => (Batch { targets, outcomes, phase, results }, false),
        }
    }

    /// Takes in what the caller reports of the step it performed and says
    /// what is to be done next. An event that does not belong to the phase
    /// in which the batch stands changes nothing and is answered with `None`.
    pub fn advance(&mut self, event: Event) -> (r: Option<Action>)
        ensures
            final(self).wf(),
            final(self).targets() == old(self).targets(),
            match step(old(self)@, event) {
                Some(next) => final(self)@ == next && r == Some(action_in(next)),
                None => final(self)@ == old(self)@ && r is None,
            },
    {
        let mut current = Batch::new(Vec::new());
        core::mem::swap(self, &mut current);
        let (next, moved) = current.stepped(event);
        *self = next;
        proof {
            use_type_invariant(&*self);
        }
        if moved {
            Some(self.next_action())
        } else {
            None
        }
    }

    /// Whether no target is left.
    pub fn is_done(&self) -> (r: bool)
        ensures
            r == (self@.phase == Phase::Done),
    {
        match self.phase {
            Phase::Done => true,
            _ => false,
        }
    }

    /// What became of the targets dealt with so far, in their order.
    pub fn outcomes(&self) -> (r: &Vec<Outcome>)
        ensures
            r@ == self@.outcomes,
    {
        &self.outcomes
    }

    /// Number of targets so far whose setup failed.
    pub fn setup_failures(&self) -> (n: usize)
        ensures
            n == setup_failure_count(self@.outcomes),
    {
        let mut n: usize = 0;
        let mut i: usize = 0;
        assert(self.outcomes@.take(0) =~= Seq::<Outcome>::empty());
        while i < self.outcomes.len()
            invariant
                i <= self.outcomes@.len(),
                n <= i,
                n == setup_failure_count(self.outcomes@.take(i as int)),
            decreases self.outcomes@.len() - i,
        {
            assert(self.outcomes@.take(i + 1).drop_last() =~= self.outcomes@.take(i as int));
            match self.outcomes[i] {
                Outcome::SetupFailed => {
                    n = n + 1;
                },
                _ => {},
            }
            i = i + 1;
        }
        assert(self.outcomes@.take(i as int) =~= self.outcomes@);
        n
    }

    /// The records collected so far, in the order in which the targets ran.
    pub fn results(&self) -> (r: &Vec<BenchmarkResult>)
        ensures
            r@ == self@.results,
    {
        &self.results
    }

    /// Hands out the records, in the order in which the targets ran.
    pub fn into_results(self) -> (r: Vec<BenchmarkResult>)
        ensures
            r@ == self@.results,
    {
        self.results
    }
}

/// The line that reports a failed setup.
pub fn setup_failure_message(id: &str, error: &str) -> (line: String)
    ensures
        line@ == "Setup failed for "@ + id@ + ": "@ + error@,
{
    let mut line = String::new();
    line.append("Setup failed for ");
    line.append(id);
    line.append(": ");
    line.append(error);
    assert(line@ =~= "Setup failed for "@ + id@ + ": "@ + error@);
    line
}

/// The line that reports a failed teardown.
pub fn teardown_failure_message(id: &str, error: &str) -> (line: String)
    ensures
        line@ == "Teardown failed for "@ + id@ + ": "@ + error@,
{
    let mut line = String::new();
    line.append("Teardown failed for ");
    line.append(id);
    line.append(": ");
    line.append(error);
    assert(line@ =~= "Teardown failed for "@ + id@ + ": "@ + error@);
    line
}

/// The message that goes with a validation error for the identifier or prefix `asked`.
pub open spec fn validation_text(error: ValidationError, asked: Seq<char>) -> Seq<char> {
    match error {
        ValidationError::UnknownTarget => "Benchmark target '"@ + asked + "' not found"@,
        ValidationError::NoMatch => "No benchmarks found with prefix '"@ + asked + "'"@,
    }
}

/// Writes the message that goes with a validation error.
pub fn validation_message(error: ValidationError, asked: &str) -> (line: String)
    ensures
        line@ == validation_text(error, asked@),
{
    let mut line = String::new();
    match error {
        ValidationError::UnknownTarget => {
            line.append("Benchmark target '");
            line.append(asked);
            line.append("' not found");
        },
        ValidationError::NoMatch => {
            line.append("No benchmarks found with prefix '");
            line.append(asked);
            line.append("'");
        },
    }
    assert(line@ =~= validation_text(error, asked@));
    line
}

} // verus!
