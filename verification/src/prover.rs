//! Proving one block.

use vstd::prelude::*;

use crate::rpc::{BlockTrace, OtherBlockData};
use crate::words::Word;

verus! {

/// What is needed to prove a block.
#[derive(Debug, PartialEq, Eq)]
pub struct ProverInput<T, W> {
    pub block_trace: BlockTrace<T, W>,
    pub other_data: OtherBlockData,
}

impl<T, W> ProverInput<T, W> {
    /// The number of the block.
    pub fn get_block_number(&self) -> (result: Word)
        ensures
            result == self.other_data.b_data.b_meta.block_number,
    {
        self.other_data.b_data.b_meta.block_number
    }
}

/// A proof on the way to the block's proof: of one transaction, or of several aggregated.
#[derive(Debug, PartialEq, Eq)]
pub enum AggregatableProof<T, A> {
    Txn(T),
    Agg(A),
}

/// The proof of a block.
#[derive(Debug, PartialEq, Eq)]
pub struct GeneratedBlockProof<P> {
    pub b_height: u64,
    pub intern: P,
}

/// The proof of a block, and how long its parts took.
#[derive(Debug, PartialEq, Eq)]
pub struct BenchmarkedGeneratedBlockProof<P> {
    pub proof: GeneratedBlockProof<P>,
    pub prep_dur: Option<std::time::Duration>,
    pub proof_dur: Option<std::time::Duration>,
    pub agg_dur: Option<std::time::Duration>,
}

impl<P> GeneratedBlockProof<P> {
    /// The proof without the durations.
    pub fn from(value: BenchmarkedGeneratedBlockProof<P>) -> (result: Self)
        ensures
            result == value.proof,
    {
        value.proof
    }
}

/// Why a block was not proved.
#[derive(Debug, PartialEq, Eq)]
pub enum ProveError {
    /// A step failed, with this message.
    Failed(String),
    /// The transactions' proofs came to something else than an aggregated proof.
    NotAggregated,
}

impl ProveError {
    /// The error in words.
    pub fn message(self) -> (result: String)
        ensures
            match self {
                ProveError::Failed(message) => result == message,
                ProveError::NotAggregated => result@ == "AggProof is is not GeneratedAggProof"@,
            },
    {
        match self {
            ProveError::Failed(message) => message,
            ProveError::NotAggregated => "AggProof is is not GeneratedAggProof".to_string(),
        }
    }
}

/// What the proof of a block is waiting for.
#[derive(Debug, PartialEq, Eq)]
pub enum ProvePhase {
    /// The block's transactions in the form in which they are proved.
    Preparing,
    /// The transactions' proofs, aggregated.
    ProvingTransactions { prep_dur: std::time::Duration },
    /// The proof of the block.
    ProvingBlock { prep_dur: std::time::Duration, proof_dur: std::time::Duration },
    /// Nothing: the block is proved or not.
    Finished,
}

/// What can happen while a block is proved.
#[derive(Debug, PartialEq, Eq)]
pub enum ProveEvent<T, A, P> {
    /// The transactions are prepared, which took this long.
    Prepared(std::time::Duration),
    /// The transactions are proved and their proofs aggregated, which took this long.
    TransactionsProved { proof: AggregatableProof<T, A>, duration: std::time::Duration },
    /// The block is proved, which took this long.
    BlockProved { proof: GeneratedBlockProof<P>, duration: std::time::Duration },
    /// The step that is waited for failed, with this message.
    Failed(String),
}

/// What is to be done next to prove a block.
#[derive(Debug, PartialEq, Eq)]
pub enum ProveAction<A, P> {
    /// Bring the block's transactions into the form in which they are proved.
    Prepare,
    /// Prove the transactions, and aggregate the proofs.
    ProveTransactions { save_inputs_on_error: bool },
    /// Prove the block, from the aggregated proof and the proof of the block before.
    ProveBlock { proof: A, prev: Option<GeneratedBlockProof<P>>, save_inputs_on_error: bool },
    /// The block is proved or not.
    Finish(Result<BenchmarkedGeneratedBlockProof<P>, ProveError>),
    /// Nothing: the event was not one that is waited for.
    Ignore,
}

/// The proof of a block in the making.
#[derive(Debug, PartialEq, Eq)]
pub struct ProveRun<P> {
    pub block_number: Word,
    /// The proof of the block before, if this proof builds on it.
    pub previous: Option<P>,
    pub save_inputs_on_error: bool,
    pub phase: ProvePhase,
}

impl<P> ProveRun<P> {
    /// The proof of the block before, with its height.
    pub open spec fn previous_proof(self) -> Option<GeneratedBlockProof<P>> {
        match self.previous {
            Some(intern) => Some(
                GeneratedBlockProof { b_height: (self.block_number@ - 1) as u64, intern },
            ),
            None => None,
        }
    }

    /// What an event makes of the proof, and what is to be done next.
    pub open spec fn next<T, A>(self, event: ProveEvent<T, A, P>) -> (
        ProveRun<P>,
        ProveAction<A, P>,
    ) {
        match (self.phase, event) {
            (ProvePhase::Preparing, ProveEvent::Prepared(prep_dur)) => (
                ProveRun { phase: ProvePhase::ProvingTransactions { prep_dur }, ..self },
                ProveAction::ProveTransactions { save_inputs_on_error: self.save_inputs_on_error },
            ),
            (
                ProvePhase::ProvingTransactions { prep_dur },
                ProveEvent::TransactionsProved { proof: aggregatable, duration },
            ) => match aggregatable {
                AggregatableProof::Agg(agg) => (
                    ProveRun {
                        previous: None,
                        phase: ProvePhase::ProvingBlock { prep_dur, proof_dur: duration },
                        ..self
                    },
                    ProveAction::ProveBlock {
                        proof: agg,
                        prev: self.previous_proof(),
                        save_inputs_on_error: self.save_inputs_on_error,
                    },
                ),
                AggregatableProof::Txn(_) => (
                    ProveRun { phase: ProvePhase::Finished, ..self },
                    ProveAction::Finish(Err(ProveError::NotAggregated)),
                ),
            },
            (
                ProvePhase::ProvingBlock { prep_dur, proof_dur },
                ProveEvent::BlockProved { proof, duration },
            ) => (
                ProveRun { phase: ProvePhase::Finished, ..self },
                ProveAction::Finish(
                    Ok(
                        BenchmarkedGeneratedBlockProof {
                            proof,
                            prep_dur: Some(prep_dur),
                            proof_dur: Some(proof_dur),
                            agg_dur: Some(duration),
                        },
                    ),
                ),
            ),
            (ProvePhase::Finished, _) => (self, ProveAction::Ignore),
            (_, ProveEvent::Failed(message)) => (
                ProveRun { phase: ProvePhase::Finished, ..self },
                ProveAction::Finish(Err(ProveError::Failed(message))),
            ),
            _ => (self, ProveAction::Ignore),
        }
    }

    /// Whether the height of the block before is a number that fits, where it is needed.
    pub open spec fn accepts<T, A>(self, event: ProveEvent<T, A, P>) -> bool {
        self.phase is ProvingTransactions && event is TransactionsProved
            && event->TransactionsProved_proof is Agg && self.previous is Some ==> 1
            <= self.block_number@ <= u64::MAX
    }

    /// Whether the height of the block before is a number that fits, where it is needed.
    pub fn is_acceptable<T, A>(&self, event: &ProveEvent<T, A, P>) -> (result: bool)
        ensures
            result == self.accepts(*event),
    {
        match (&self.phase, event, &self.previous) {
            (
                ProvePhase::ProvingTransactions { .. },
                ProveEvent::TransactionsProved { proof: AggregatableProof::Agg(_), .. },
                Some(_),
            ) => match self.block_number.to_u64() {
                Some(number) => number >= 1,
                None => false,
            },
            _ => true,
        }
    }

    /// Takes in an event, and says what is to be done next.
    pub fn step<T, A>(self, event: ProveEvent<T, A, P>) -> (result: (
        ProveRun<P>,
        ProveAction<A, P>,
    ))
        requires
            self.accepts(event),
        ensures
            result == self.next(event),
    {
        let ProveRun { block_number, previous, save_inputs_on_error, phase } = self;
        match (phase, event) {
            (ProvePhase::Preparing, ProveEvent::Prepared(prep_dur)) => (
                ProveRun {
                    block_number,
                    previous,
                    save_inputs_on_error,
                    phase: ProvePhase::ProvingTransactions { prep_dur },
                },
                ProveAction::ProveTransactions { save_inputs_on_error },
            ),
            (
                ProvePhase::ProvingTransactions { prep_dur },
                ProveEvent::TransactionsProved { proof: aggregatable, duration },
            ) => match aggregatable {
                AggregatableProof::Agg(agg) => {
                    let prev = match previous {
                        Some(intern) => Some(
                            GeneratedBlockProof { b_height: block_number.as_u64() - 1, intern },
                        ),
                        None => None,
                    };
                    (
                        ProveRun {
                            block_number,
                            previous: None,
                            save_inputs_on_error,
                            phase: ProvePhase::ProvingBlock { prep_dur, proof_dur: duration },
                        },
                        ProveAction::ProveBlock { proof: agg, prev, save_inputs_on_error },
                    )
                },
                AggregatableProof::Txn(_) => (
                    ProveRun {
                        block_number,
                        previous,
                        save_inputs_on_error,
                        phase: ProvePhase::Finished,
                    },
                    ProveAction::Finish(Err(ProveError::NotAggregated)),
                ),
            },
            (
                ProvePhase::ProvingBlock { prep_dur, proof_dur },
                ProveEvent::BlockProved { proof, duration },
            ) => (
                ProveRun {
                    block_number,
                    previous,
                    save_inputs_on_error,
                    phase: ProvePhase::Finished,
                },
                ProveAction::Finish(
                    Ok(
                        BenchmarkedGeneratedBlockProof {
                            proof,
                            prep_dur: Some(prep_dur),
                            proof_dur: Some(proof_dur),
                            agg_dur: Some(duration),
                        },
                    ),
                ),
            ),
            (ProvePhase::Finished, _) => (
                ProveRun {
                    block_number,
                    previous,
                    save_inputs_on_error,
                    phase: ProvePhase::Finished,
                },
                ProveAction::Ignore,
            ),
            (_, ProveEvent::Failed(message)) => (
                ProveRun {
                    block_number,
                    previous,
                    save_inputs_on_error,
                    phase: ProvePhase::Finished,
                },
                ProveAction::Finish(Err(ProveError::Failed(message))),
            ),
            (phase, _) => (
                ProveRun { block_number, previous, save_inputs_on_error, phase },
                ProveAction::Ignore,
            ),
        }
    }
}

impl<T, W> ProverInput<T, W> {
    /// Begins to prove the block, on top of the proof of the block before if there is one.
    pub fn prove_and_benchmark<A, P>(
        &self,
        previous: Option<P>,
        save_inputs_on_error: bool,
    ) -> (result: (ProveRun<P>, ProveAction<A, P>))
        ensures
            result.0 == (ProveRun {
                block_number: self.other_data.b_data.b_meta.block_number,
                previous,
                save_inputs_on_error,
                phase: ProvePhase::Preparing,
            }),
            result.1 == ProveAction::<A, P>::Prepare,
    {
        (
            ProveRun {
                block_number: self.get_block_number(),
                previous,
                save_inputs_on_error,
                phase: ProvePhase::Preparing,
            },
            ProveAction::Prepare,
        )
    }

    /// Begins to prove the block without a benchmark: the steps are those of a benchmark, and
    /// [prove_outcome] makes of what they come to what this comes to.
    pub fn prove<A, P>(&self, previous: Option<P>, save_inputs_on_error: bool) -> (result: (
        ProveRun<P>,
        ProveAction<A, P>,
    ))
        ensures
            result.0 == (ProveRun {
                block_number: self.other_data.b_data.b_meta.block_number,
                previous,
                save_inputs_on_error,
                phase: ProvePhase::Preparing,
            }),
            result.1 == ProveAction::<A, P>::Prepare,
    {
        self.prove_and_benchmark(previous, save_inputs_on_error)
    }
}

/// What proving a block without a benchmark comes to: the same proof or error, without the durations.
pub fn prove_outcome<P>(outcome: Result<BenchmarkedGeneratedBlockProof<P>, ProveError>) -> (result:
    Result<GeneratedBlockProof<P>, ProveError>)
    ensures
        result == match outcome {
            Ok(benchmarked) => Ok(benchmarked.proof),
            Err(error) => Err(error),
        },
{
    match outcome {
        Ok(benchmarked) => Ok(GeneratedBlockProof::from(benchmarked)),
        Err(error) => Err(error),
    }
}

/// If every step works out, a block takes three: its transactions are prepared, then proved and
/// aggregated, then the block is proved, on top of the proof that was handed in, whose height is
/// one less; the outcome is the last step's proof with the duration of each step.
pub proof fn law_three_steps_make_a_proof<T, A, P>(
    run: ProveRun<P>,
    agg: A,
    proof: GeneratedBlockProof<P>,
    prep_dur: std::time::Duration,
    proof_dur: std::time::Duration,
    agg_dur: std::time::Duration,
)
    requires
        run.phase is Preparing,
    ensures
        ({
            let (run1, action1) = run.next(ProveEvent::<T, A, P>::Prepared(prep_dur));
            let (run2, action2) = run1.next(
                ProveEvent::<T, A, P>::TransactionsProved {
                    proof: AggregatableProof::Agg(agg),
                    duration: proof_dur,
                },
            );
            let (run3, action3) = run2.next(
                ProveEvent::<T, A, P>::BlockProved { proof, duration: agg_dur },
            );
            &&& action1 is ProveTransactions
            &&& (action2 matches ProveAction::ProveBlock { proof: handed, prev, .. } && handed
                == agg && prev == run.previous_proof())
            &&& action3 == ProveAction::<A, P>::Finish(
                Ok(
                    BenchmarkedGeneratedBlockProof {
                        proof,
                        prep_dur: Some(prep_dur),
                        proof_dur: Some(proof_dur),
                        agg_dur: Some(agg_dur),
                    },
                ),
            )
            &&& run3.phase is Finished
        }),
{
}

/// A step that fails ends the proof at once, with that failure.
pub proof fn law_failure_ends_proof<T, A, P>(run: ProveRun<P>, message: String)
    requires
        !(run.phase is Finished),
    ensures
        run.next(ProveEvent::<T, A, P>::Failed(message)) == (
            ProveRun { phase: ProvePhase::Finished, ..run },
            ProveAction::<A, P>::Finish(Err(ProveError::Failed(message))),
        ),
{
}

/// The proof of a block is built on a proof whose height is the block's number less one, and which is
/// the very proof that was handed in; without one it is built on none.
pub proof fn law_previous_proof_is_one_block_lower<T, A, P>(
    run: ProveRun<P>,
    agg: A,
    duration: std::time::Duration,
)
    requires
        run.phase is ProvingTransactions,
        run.previous is Some ==> 1 <= run.block_number@ <= u64::MAX,
    ensures
        ({
            let (_, action) = run.next(
                ProveEvent::<T, A, P>::TransactionsProved {
                    proof: AggregatableProof::Agg(agg),
                    duration,
                },
            );
            action matches ProveAction::ProveBlock { proof, prev, save_inputs_on_error } && {
                &&& proof == agg
                &&& save_inputs_on_error == run.save_inputs_on_error
                &&& match (run.previous, prev) {
                    (Some(previous), Some(below)) => below.b_height + 1 == run.block_number@
                        && below.intern == previous,
                    (None, None) => true,
                    _ => false,
                }
            }
        }),
{
}

/// Whether the proof of a block is over: nothing matters any more.
pub open spec fn is_settled<T, A, P>(run: ProveRun<P>, other: ProveEvent<T, A, P>) -> bool {
    run.next(other) == (run, ProveAction::<A, P>::Ignore)
}

/// The course of a block's proof: the transactions are prepared, then proved with the flag that was
/// handed in; a proof of a single transaction in place of an aggregated one ends it with an error; the
/// proof of the block ends it with that proof and the duration of each step, as each was told; a
/// failure at any step ends it with that failure.
pub proof fn law_course_of_a_proof<T, A, P>(
    run: ProveRun<P>,
    txn: T,
    agg: A,
    proof: GeneratedBlockProof<P>,
    first: std::time::Duration,
    second: std::time::Duration,
    third: std::time::Duration,
    message: String,
    other: ProveEvent<T, A, P>,
)
    requires
        run.phase is Preparing,
    ensures
        ({
            let aggregated = ProveEvent::<T, A, P>::TransactionsProved {
                proof: AggregatableProof::Agg(agg),
                duration: second,
            };
            let single = ProveEvent::<T, A, P>::TransactionsProved {
                proof: AggregatableProof::Txn(txn),
                duration: second,
            };
            let failed = ProveEvent::<T, A, P>::Failed(message);
            let failure = ProveAction::<A, P>::Finish(Err(ProveError::Failed(message)));
            let (prepared, action) = run.next(ProveEvent::<T, A, P>::Prepared(first));
            let (proved, ask) = prepared.next(aggregated);
            let (over, end) = proved.next(
                ProveEvent::<T, A, P>::BlockProved { proof, duration: third },
            );
            &&& action == ProveAction::<A, P>::ProveTransactions {
                save_inputs_on_error: run.save_inputs_on_error,
            }
            &&& ask is ProveBlock
            &&& (end matches ProveAction::Finish(Ok(outcome)) && {
                &&& outcome.proof == proof
                &&& outcome.prep_dur == Some(first)
                &&& outcome.proof_dur == Some(second)
                &&& outcome.agg_dur == Some(third)
            })
            &&& is_settled(over, other)
            &&& prepared.next(single).1 == ProveAction::<A, P>::Finish(Err(ProveError::NotAggregated))
            &&& is_settled(prepared.next(single).0, other)
            &&& run.next(failed).1 == failure && is_settled(run.next(failed).0, other)
            &&& prepared.next(failed).1 == failure && is_settled(prepared.next(failed).0, other)
            &&& proved.next(failed).1 == failure && is_settled(proved.next(failed).0, other)
            &&& other is BlockProved ==> is_settled(run, other) && is_settled(prepared, other)
            &&& other is TransactionsProved ==> is_settled(run, other) && is_settled(proved, other)
            &&& other is Prepared ==> is_settled(prepared, other) && is_settled(proved, other)
            &&& prepared.block_number == run.block_number
            &&& prepared.previous == run.previous
            &&& prepared.save_inputs_on_error == run.save_inputs_on_error
            &&& prepared.phase is ProvingTransactions
        }),
{
}

/// Nothing is refused but an aggregated proof that is to be put on top of the proof of the block
/// before, where that block has no height that fits.
pub proof fn law_which_proof_is_refused<T, A, P>(run: ProveRun<P>, event: ProveEvent<T, A, P>)
    ensures
        !run.accepts(event) <==> {
            &&& run.phase is ProvingTransactions
            &&& run.previous is Some
            &&& run.block_number@ < 1 || run.block_number@ > u64::MAX
            &&& (event matches ProveEvent::TransactionsProved { proof, .. } && proof is Agg)
        },
{
}

} // verus!
