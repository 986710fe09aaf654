//! Generating the witness of one block, without proving anything: a trial of what comes before the
//! proof.

use vstd::prelude::*;

use crate::prover::{GeneratedBlockProof, ProveError, ProverInput};
use crate::words::Word;

verus! {

/// What a trial is waiting for.
#[derive(Debug, Clone, Copy, PartialEq, Eq, Structural)]
pub enum WitnessPhase {
    /// The block's transactions in the form in which they are proved.
    Preparing,
    /// The witness of each transaction.
    Generating,
    /// A dummy proof, to stand at this height.
    MakingDummy { b_height: u64 },
    /// Nothing: the trial is over.
    Finished,
}

/// What can happen to a trial.
#[derive(Debug, PartialEq, Eq)]
pub enum WitnessEvent<P> {
    Prepared,
    /// Every transaction has its witness.
    Generated,
    DummyMade(P),
    /// The step that is waited for failed, with this message.
    Failed(String),
}

/// What a trial wants done next.
#[derive(Debug, PartialEq, Eq)]
pub enum WitnessAction<P> {
    /// Bring the block's transactions into the form in which they are proved.
    Prepare,
    /// Generate the witness of each transaction.
    Generate { save_inputs_on_error: bool },
    /// Make a dummy proof.
    MakeDummy,
    /// The trial is over, with the dummy proof at the block's height or an error.
    Finish(Result<GeneratedBlockProof<P>, ProveError>),
    /// Nothing: the event was not one that is waited for.
    Ignore,
}

/// A trial of one block.
#[derive(Debug, Clone, Copy, PartialEq, Eq)]
pub struct WitnessRun {
    pub block_number: Word,
    pub save_inputs_on_error: bool,
    pub phase: WitnessPhase,
}

impl WitnessRun {
    /// What an event makes of the trial, and what is to be done next.
    pub open spec fn next<P>(self, event: WitnessEvent<P>) -> (WitnessRun, WitnessAction<P>) {
        match (self.phase, event) {
            (WitnessPhase::Preparing, WitnessEvent::Prepared) => (
                WitnessRun { phase: WitnessPhase::Generating, ..self },
                WitnessAction::Generate { save_inputs_on_error: self.save_inputs_on_error },
            ),
            (WitnessPhase::Generating, WitnessEvent::Generated) => (
                WitnessRun {
                    phase: WitnessPhase::MakingDummy { b_height: self.block_number@ as u64 },
                    ..self
                },
                WitnessAction::MakeDummy,
            ),
            (WitnessPhase::MakingDummy { b_height }, WitnessEvent::DummyMade(intern)) => (
                WitnessRun { phase: WitnessPhase::Finished, ..self },
                WitnessAction::Finish(Ok(GeneratedBlockProof { b_height, intern })),
            ),
            (WitnessPhase::Finished, _) => (self, WitnessAction::Ignore),
            (_, WitnessEvent::Failed(message)) => (
                WitnessRun { phase: WitnessPhase::Finished, ..self },
                WitnessAction::Finish(Err(ProveError::Failed(message))),
            ),
            _ => (self, WitnessAction::Ignore),
        }
    }

    /// Whether the height of the block is a number that fits, where it is needed.
    pub open spec fn accepts<P>(self, event: WitnessEvent<P>) -> bool {
        self.phase is Generating && event is Generated ==> self.block_number@ <= u64::MAX
    }

    /// Whether the height of the block is a number that fits, where it is needed.
    pub fn is_acceptable<P>(&self, event: &WitnessEvent<P>) -> (result: bool)
        ensures
            result == self.accepts(*event),
    {
        match (self.phase, event) {
            (WitnessPhase::Generating, WitnessEvent::Generated) => {
                self.block_number.to_u64().is_some()
            },
            _ => true,
        }
    }

    /// Takes in an event, and says what is to be done next.
    pub fn step<P>(self, event: WitnessEvent<P>) -> (result: (WitnessRun, WitnessAction<P>))
        requires
            self.accepts(event),
        ensures
            result == self.next(event),
    {
        match (self.phase, event) {
            (WitnessPhase::Preparing, WitnessEvent::Prepared) => (
                WitnessRun { phase: WitnessPhase::Generating, ..self },
                WitnessAction::Generate { save_inputs_on_error: self.save_inputs_on_error },
            ),
            (WitnessPhase::Generating, WitnessEvent::Generated) => {
                let b_height: u64 = self.block_number.as_u64();
                (
                    WitnessRun { phase: WitnessPhase::MakingDummy { b_height }, ..self },
                    WitnessAction::MakeDummy,
                )
            },
            (WitnessPhase::MakingDummy { b_height }, WitnessEvent::DummyMade(intern)) => (
                WitnessRun { phase: WitnessPhase::Finished, ..self },
                WitnessAction::Finish(Ok(GeneratedBlockProof { b_height, intern })),
            ),
            (WitnessPhase::Finished, _) => (self, WitnessAction::Ignore),
            (_, WitnessEvent::Failed(message)) => (
                WitnessRun { phase: WitnessPhase::Finished, ..self },
                WitnessAction::Finish(Err(ProveError::Failed(message))),
            ),
            _ => (self, WitnessAction::Ignore),
        }
    }
}

impl<T, W> ProverInput<T, W> {
    /// Begins a trial of the block.
    pub fn try_witness<P>(&self, save_inputs_on_error: bool) -> (result: (
        WitnessRun,
        WitnessAction<P>,
    ))
        ensures
            result.0 == (WitnessRun {
                block_number: self.other_data.b_data.b_meta.block_number,
                save_inputs_on_error,
                phase: WitnessPhase::Preparing,
            }),
            result.1 == WitnessAction::<P>::Prepare,
    {
        (
            WitnessRun {
                block_number: self.get_block_number(),
                save_inputs_on_error,
                phase: WitnessPhase::Preparing,
            },
            WitnessAction::Prepare,
        )
    }
}

/// A trial in which every step works out comes to the dummy proof, at the height of the block.
pub proof fn law_trial_comes_to_dummy_proof<P>(run: WitnessRun, dummy: P)
    requires
        run.phase is Preparing,
        run.block_number@ <= u64::MAX,
    ensures
        ({
            let (run1, action1) = run.next(WitnessEvent::<P>::Prepared);
            let (run2, action2) = run1.next(WitnessEvent::<P>::Generated);
            let (run3, action3) = run2.next(WitnessEvent::DummyMade(dummy));
            &&& action1 is Generate
            &&& action2 is MakeDummy
            &&& (action3 matches WitnessAction::Finish(Ok(proof)) && proof.b_height
                == run.block_number@ && proof.intern == dummy)
            &&& run3.phase is Finished
        }),
{
}

/// A step that fails ends the trial at once, with that failure.
pub proof fn law_failure_ends_trial<P>(run: WitnessRun, message: String)
    requires
        !(run.phase is Finished),
    ensures
        run.next(WitnessEvent::<P>::Failed(message)) == (
            WitnessRun { phase: WitnessPhase::Finished, ..run },
            WitnessAction::<P>::Finish(Err(ProveError::Failed(message))),
        ),
{
}

/// The course of a trial: the transactions are prepared, then their witnesses are generated with the
/// flag that was handed in, then a dummy proof is made; nothing but the answer that is waited for
/// matters, and nothing matters once the trial is over.
pub proof fn law_course_of_a_trial<P>(
    run: WitnessRun,
    dummy: P,
    message: String,
    other: WitnessEvent<P>,
)
    requires
        run.phase is Preparing,
        run.block_number@ <= u64::MAX,
    ensures
        ({
            let failed = WitnessEvent::<P>::Failed(message);
            let failure = WitnessAction::<P>::Finish(Err(ProveError::Failed(message)));
            let (prepared, action) = run.next(WitnessEvent::<P>::Prepared);
            let (generated, make) = prepared.next(WitnessEvent::<P>::Generated);
            let (over, end) = generated.next(WitnessEvent::DummyMade(dummy));
            &&& action == WitnessAction::<P>::Generate {
                save_inputs_on_error: run.save_inputs_on_error,
            }
            &&& make == WitnessAction::<P>::MakeDummy
            &&& (end matches WitnessAction::Finish(Ok(proof)) && proof.b_height
                == run.block_number@ && proof.intern == dummy)
            &&& over.next(other) == (over, WitnessAction::<P>::Ignore)
            &&& run.next(failed).1 == failure
            &&& prepared.next(failed).1 == failure
            &&& generated.next(failed).1 == failure
            &&& !(other is Prepared) && !(other is Failed) ==> run.next(other) == (
                run,
                WitnessAction::<P>::Ignore,
            )
            &&& !(other is Generated) && !(other is Failed) ==> prepared.next(other) == (
                prepared,
                WitnessAction::<P>::Ignore,
            )
            &&& !(other is DummyMade) && !(other is Failed) ==> generated.next(other) == (
                generated,
                WitnessAction::<P>::Ignore,
            )
        }),
{
}

/// Nothing is refused but witnesses of a block that has no height that fits.
pub proof fn law_which_trial_is_refused<P>(run: WitnessRun, event: WitnessEvent<P>)
    ensures
        !run.accepts(event) <==> run.phase is Generating && event is Generated
            && run.block_number@ > u64::MAX,
{
}

} // verus!
