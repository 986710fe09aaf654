//! Proving many blocks, one after the other or several at a time.

use vstd::prelude::*;

use crate::benchmarking::{
    BenchmarkingOutput, BenchmarkingOutputBuildError, BenchmarkingOutputError, BenchmarkingStats,
};
use crate::crew::{Crew, Happening};
use crate::fetch::FetchError;
use crate::input::{BlockConcurrencyMode, ProveBlocksInput, TerminateOn};
use crate::parallel::{ParallelAction, ParallelPhase, ParallelRun};
use crate::proofout::{ProofOutput, ProofOutputBuildError, ProofOutputError};
use crate::sequential::{SequentialAction, SequentialEvent, SequentialPhase, SequentialRun};
use crate::task::TaskOrders;
use crate::time::Timestamp;

verus! {

/// Why proving many blocks failed.
#[derive(Debug, PartialEq, Eq)]
pub enum ManyProverError {
    Fetch(FetchError),
    Proof(String),
    BenchmarkingOutput(BenchmarkingOutputError),
    ProofOutError(ProofOutputError),
    UnsupportedTerminationCondition(TerminateOn),
    ParallelJoinError(String),
    FailedToSendTask(u64),
}

/// Why proving many blocks could not even begin.
#[derive(Debug, PartialEq, Eq)]
pub enum ManyProverBuildError {
    /// An error while preparing the means of outputting benchmark statistics.
    BenchmarkingOutput(BenchmarkingOutputBuildError),
    /// An error while preparing the means of outputting the proof output.
    ProofOutError(ProofOutputBuildError),
    /// A description of why the configuration was invalid.
    InvalidConfiguration(String),
}

/// Proves many blocks and gathers benchmark statistics of them.
#[derive(Debug, PartialEq, Eq)]
pub struct ManyProver {
    /// What was asked for.
    pub input_request: ProveBlocksInput,
    /// If present, the handler for outputting proofs.
    pub proof_out: Option<ProofOutput>,
    /// If present, the handler for outputting benchmark statistics.
    pub benchmark_out: Option<BenchmarkingOutput>,
}

/// A [ManyProver] in the making, and what it wants done next.
#[derive(Debug, PartialEq, Eq)]
pub enum Build {
    /// The means of outputting proofs, as the input describes it, is to be made ready.
    OpenProofOutput { input: ProveBlocksInput },
    /// The means of outputting statistics, as the input describes it, is to be made ready for this
    /// many proofs.
    OpenBenchmarkOutput {
        input: ProveBlocksInput,
        proof_out: Option<ProofOutput>,
        expected: Option<u64>,
    },
    /// Nothing is left to do.
    Built(ManyProver),
    /// The error that stopped it.
    Failed(ManyProverBuildError),
}

/// What can happen to a [ManyProver] in the making.
#[derive(Debug, PartialEq, Eq)]
pub enum BuildEvent {
    /// What was to be made ready is ready.
    Opened,
    /// What was to be made ready could not be, with this message.
    Failed(String),
}

/// Whether an input asks for what is not supported: to forward proofs in parallel.
pub open spec fn is_unsupported(input: ProveBlocksInput) -> bool {
    input.forward_prev == Some(true) && (input.block_concurrency matches Some(
        BlockConcurrencyMode::Parallel { .. },
    ))
}

impl Build {
    /// Whether the number of proofs is or need not be counted once proofs can be put out.
    pub open spec fn is_countable(input: ProveBlocksInput) -> bool {
        input.benchmark_output is Some ==> input.countable()
    }

    /// Whether this is what comes once proofs can be put out, or need not be.
    pub open spec fn follows_proof_output(
        self,
        input: ProveBlocksInput,
        proof_out: Option<ProofOutput>,
    ) -> bool {
        if input.benchmark_output is Some {
            self == (Build::OpenBenchmarkOutput {
                input,
                proof_out,
                expected: input.expected_number_proofs(),
            })
        } else {
            self == Build::Built(
                ManyProver { input_request: input, proof_out, benchmark_out: None },
            )
        }
    }

    fn after_proof_output(input: ProveBlocksInput, proof_out: Option<ProofOutput>) -> (result: Build)
        requires
            Self::is_countable(input),
        ensures
            result.follows_proof_output(input, proof_out),
    {
        if input.benchmark_output.is_some() {
            let expected = input.estimate_expected_number_proofs();
            Build::OpenBenchmarkOutput { input, proof_out, expected }
        } else {
            Build::Built(ManyProver { input_request: input, proof_out, benchmark_out: None })
        }
    }

    /// Whether an event can be taken in: where the number of proofs is to be counted next, it can be
    /// counted.
    pub open spec fn accepts(self, event: BuildEvent) -> bool {
        self matches Build::OpenProofOutput { input } ==> event is Opened ==> Self::is_countable(
            input,
        )
    }

    /// Whether an event can be taken in.
    pub fn is_acceptable(&self, event: &BuildEvent) -> (result: bool)
        ensures
            result == self.accepts(*event),
    {
        match (self, event) {
            (Build::OpenProofOutput { input }, BuildEvent::Opened) => {
                input.benchmark_output.is_none() || input.is_countable()
            },
            _ => true,
        }
    }

    /// Whether the states that are passed through are those that come of an input.
    pub open spec fn well_formed(self) -> bool {
        match self {
            Build::OpenProofOutput { input } => input.proof_output is Some && !is_unsupported(
                input,
            ),
            Build::OpenBenchmarkOutput { input, proof_out, expected } => {
                &&& input.benchmark_output is Some
                &&& !is_unsupported(input)
                &&& is_output_of(input, proof_out)
                &&& expected == input.expected_number_proofs()
            },
            Build::Built(prover) => prover.well_formed(),
            Build::Failed(_) => true,
        }
    }

    /// Takes in an event, and says what is to be done next.
    pub fn step(self, event: BuildEvent) -> (result: Build)
        requires
            self.well_formed(),
            self.accepts(event),
        ensures
            result.well_formed(),
            match (self, event) {
                (Build::OpenProofOutput { input }, BuildEvent::Opened) =>
                    result.follows_proof_output(
                    input,
                    Some(ProofOutput { method: input.proof_output->0 }),
                ),
                (Build::OpenProofOutput { .. }, BuildEvent::Failed(message)) => result
                    == Build::Failed(
                    ManyProverBuildError::ProofOutError(ProofOutputBuildError { message }),
                ),
                (
                    Build::OpenBenchmarkOutput { input, proof_out, expected },
                    BuildEvent::Opened,
                ) => {
                    &&& result is Built
                    &&& result->Built_0.input_request == input
                    &&& result->Built_0.proof_out == proof_out
                    &&& result->Built_0.benchmark_out matches Some(out)
                    &&& out.config == input.benchmark_output->0
                    &&& out.expected == expected
                    &&& out.stats@.len() == 0
                },
                (Build::OpenBenchmarkOutput { .. }, BuildEvent::Failed(message)) => result
                    == Build::Failed(
                    ManyProverBuildError::BenchmarkingOutput(
                        BenchmarkingOutputBuildError { message },
                    ),
                ),
                (Build::Built(_) | Build::Failed(_), _) => result == self,
            },
    {
        match (self, event) {
            (Build::OpenProofOutput { input }, BuildEvent::Opened) => {
                let proof_out = match &input.proof_output {
                    Some(method) => Some(ProofOutput { method: method.clone() }),
                    None => None,
                };
                Self::after_proof_output(input, proof_out)
            },
            (Build::OpenProofOutput { .. }, BuildEvent::Failed(message)) => Build::Failed(
                ManyProverBuildError::ProofOutError(ProofOutputBuildError { message }),
            ),
            (Build::OpenBenchmarkOutput { input, proof_out, expected }, BuildEvent::Opened) => {
                let benchmark_out = match &input.benchmark_output {
                    Some(config) => Some(BenchmarkingOutput::new(config.clone(), expected)),
                    None => None,
                };
                Build::Built(ManyProver { input_request: input, proof_out, benchmark_out })
            },
            (Build::OpenBenchmarkOutput { .. }, BuildEvent::Failed(message)) => Build::Failed(
                ManyProverBuildError::BenchmarkingOutput(BenchmarkingOutputBuildError { message }),
            ),
            (build, _) => build,
        }
    }
}

/// Whether this is the handler for outputting proofs that an input asks for.
pub open spec fn is_output_of(input: ProveBlocksInput, proof_out: Option<ProofOutput>) -> bool {
    match (input.proof_output, proof_out) {
        (Some(method), Some(out)) => out.method == method,
        (None, None) => true,
        _ => false,
    }
}

/// How the proving of many blocks begins.
#[derive(Debug, PartialEq, Eq)]
pub enum ProveBlocks {
    Sequential(SequentialRun, SequentialAction),
    Parallel(ParallelRun, ParallelAction),
}

impl ManyProver {
    /// Whether there are handlers for exactly the outputs that were asked for, and nothing is asked
    /// for that is not supported.
    pub open spec fn well_formed(self) -> bool {
        &&& !is_unsupported(self.input_request)
        &&& is_output_of(self.input_request, self.proof_out)
        &&& match (self.input_request.benchmark_output, self.benchmark_out) {
            (Some(config), Some(out)) => out.config == config,
            (None, None) => true,
            _ => false,
        }
    }

    /// Whether a prover can be begun for an input: where the number of proofs is to be counted right
    /// away, it can be counted.
    pub open spec fn accepts(input: ProveBlocksInput) -> bool {
        !is_unsupported(input) && input.proof_output is None ==> Build::is_countable(input)
    }

    /// Whether a prover can be begun for an input.
    pub fn is_acceptable(input: &ProveBlocksInput) -> (result: bool)
        ensures
            result == Self::accepts(*input),
    {
        match (input.forward_prev, input.block_concurrency) {
            (Some(true), Some(BlockConcurrencyMode::Parallel { .. })) => true,
            _ => input.proof_output.is_some() || input.benchmark_output.is_none()
                || input.is_countable(),
        }
    }

    /// Begins to make a prover: what is not supported is refused, then the means of output are made
    /// ready, first that of proofs, then that of statistics.
    pub fn new(input: ProveBlocksInput) -> (result: Build)
        requires
            Self::accepts(input),
        ensures
            result.well_formed(),
            if is_unsupported(input) {
                &&& result matches Build::Failed(ManyProverBuildError::InvalidConfiguration(reason))
                &&& reason@ == "Forwarding proofs with parallel not supported"@
            } else if input.proof_output is Some {
                result == (Build::OpenProofOutput { input })
            } else {
                result.follows_proof_output(input, None)
            },
    {
        match (input.forward_prev, input.block_concurrency) {
            (Some(true), Some(BlockConcurrencyMode::Parallel { .. })) => {
                return Build::Failed(
                    ManyProverBuildError::InvalidConfiguration(
                        "Forwarding proofs with parallel not supported".to_string(),
                    ),
                );
            },
            _ => {},
        }
        if input.proof_output.is_some() {
            Build::OpenProofOutput { input }
        } else {
            Build::after_proof_output(input, None)
        }
    }

    /// The termination conditions if present.
    pub fn terminate_on(&self) -> (result: &Option<TerminateOn>)
        ensures
            *result == self.input_request.terminate_on,
    {
        &self.input_request.terminate_on
    }

    /// Whether proofs are stored.
    pub fn storing_proof(&self) -> (result: bool)
        ensures
            result == (self.proof_out is Some),
    {
        self.proof_out.is_some()
    }

    /// Whether benchmarks are stored.
    pub fn storing_benchmark(&self) -> (result: bool)
        ensures
            result == (self.benchmark_out is Some),
    {
        self.benchmark_out.is_some()
    }

    /// The block to begin with.
    pub fn starting_block(&self) -> (result: u64)
        ensures
            result == self.input_request.start_block_number,
    {
        self.input_request.start_block_number
    }

    /// How blocks are processed: sequentially, if nothing is said.
    pub open spec fn mode(self) -> BlockConcurrencyMode {
        match self.input_request.block_concurrency {
            Some(mode) => mode,
            None => BlockConcurrencyMode::Sequential,
        }
    }

    /// How blocks are processed.
    pub fn block_conccurency(&self) -> (result: BlockConcurrencyMode)
        ensures
            result == self.mode(),
    {
        match self.input_request.block_concurrency {
            Some(mode) => mode,
            None => BlockConcurrencyMode::default(),
        }
    }

    /// Stores the statistics of a block, if statistics are stored.
    pub fn record(&mut self, stats: BenchmarkingStats)
        ensures
            final(self).input_request == old(self).input_request,
            final(self).proof_out == old(self).proof_out,
            match (old(self).benchmark_out, final(self).benchmark_out) {
                (Some(before), Some(after)) => {
                    &&& after.config == before.config
                    &&& after.expected == before.expected
                    &&& after.stats@ == before.stats@.push(stats)
                },
                (None, None) => true,
                _ => false,
            },
    {
        match &mut self.benchmark_out {
            Some(out) => {
                out.push(stats);
            },
            None => {},
        }
    }

    /// The sequential run of these blocks, before anything is decided.
    pub open spec fn sequential_run(self, started: Timestamp) -> SequentialRun {
        SequentialRun {
            first_block: self.input_request.start_block_number,
            terminate_on: self.input_request.terminate_on,
            forward_prev: self.input_request.forward_prev == Some(true),
            storing_proof: self.proof_out is Some,
            storing_benchmark: self.benchmark_out is Some,
            checkpoint_block_number: self.input_request.checkpoint() as u64,
            started,
            block_number: self.input_request.start_block_number,
            cumulative_block_gas: 0,
            cumulative_n_txs: 0,
            previous: None,
            phase: SequentialPhase::Finished,
        }
    }

    /// The blocks that a parallel run hands out.
    pub open spec fn tasks(self) -> Option<(u64, u64)> {
        if self.input_request.start_block_number <= self.input_request.last_task() {
            Some(
                (self.input_request.start_block_number, self.input_request.last_task() as u64),
            )
        } else {
            None
        }
    }

    /// The parallel run of these blocks.
    pub open spec fn parallel_run(self) -> ParallelRun {
        ParallelRun {
            terminate_on: self.input_request.terminate_on,
            tasks: self.tasks(),
            storing_proof: self.proof_out is Some,
            storing_benchmark: self.benchmark_out is Some,
            cumulative_block_gas: 0,
            cumulative_n_txs: 0,
            phase: ParallelPhase::Spawning,
        }
    }

    /// What the taskees of a parallel run are told: the checkpoint, and the limit of time if there
    /// is one.
    pub open spec fn orders(self) -> TaskOrders {
        TaskOrders {
            checkpoint_block_number: self.input_request.checkpoint() as u64,
            num_seconds: match self.input_request.terminate_on {
                Some(TerminateOn::ElapsedSeconds { num_seconds }) => Some(num_seconds),
                _ => None,
            },
        }
    }

    /// How many taskees a parallel run has.
    pub open spec fn crew_size(self) -> u8 {
        match self.mode() {
            BlockConcurrencyMode::Parallel { max_concurrent, .. } => max_concurrent,
            BlockConcurrencyMode::Sequential => 0,
        }
    }

    /// The parallel run of these blocks, with its taskees and channels.
    pub open spec fn crew(self) -> Crew {
        Crew::start(self.parallel_run(), self.crew_size(), self.orders())
    }

    /// The statistics that a parallel run has stored after all this happened to its crew.
    pub open spec fn recorded(self, history: Seq<Happening>) -> Seq<BenchmarkingStats> {
        crate::parallel_laws::recorded(
            crate::parallel_laws::actions(self.parallel_run(), crate::crew::run_events(history)),
        )
    }

    /// The blocks whose proof a parallel run has put out after all this happened to its crew.
    pub open spec fn written(self, history: Seq<Happening>) -> Seq<u64> {
        crate::parallel_laws::written(
            crate::parallel_laws::actions(self.parallel_run(), crate::crew::run_events(history)),
        )
    }

    /// Whether proving can begin: in parallel, every block that is handed out has a number that
    /// fits.
    pub open spec fn can_begin(self) -> bool {
        self.mode() is Parallel ==> self.input_request.last_task() <= u64::MAX
    }

    /// Begins to prove the blocks, sequentially or in parallel.
    pub fn prove_blocks(&self, now: Timestamp) -> (result: ProveBlocks)
        requires
            !is_unsupported(self.input_request),
            self.can_begin(),
        ensures
            match self.mode() {
                BlockConcurrencyMode::Sequential => {
                    let (run, action) = self.sequential_run(now).deciding();
                    result == ProveBlocks::Sequential(run, action)
                },
                BlockConcurrencyMode::Parallel { max_concurrent, .. } => result
                    == ProveBlocks::Parallel(
                    self.parallel_run(),
                    ParallelAction::SpawnTaskees { count: max_concurrent, orders: self.orders() },
                ),
            },
    {
        match self.block_conccurency() {
            BlockConcurrencyMode::Sequential => {
                let (run, action) = self.prove_blocks_sequentially(now);
                ProveBlocks::Sequential(run, action)
            },
            BlockConcurrencyMode::Parallel { .. } => {
                let (run, action) = self.prove_blocks_parallel();
                ProveBlocks::Parallel(run, action)
            },
        }
    }

    /// Begins to prove the blocks in parallel: as many taskees are spawned as blocks may be in work
    /// at a time, and each is told the checkpoint and the limit of time.
    pub fn prove_blocks_parallel(&self) -> (result: (ParallelRun, ParallelAction))
        requires
            self.input_request.forward_prev != Some(true),
            self.mode() is Parallel,
            self.can_begin(),
        ensures
            result.0 == self.parallel_run(),
            self.mode() matches BlockConcurrencyMode::Parallel { max_concurrent, .. } && result.1
                == (ParallelAction::SpawnTaskees { count: max_concurrent, orders: self.orders() }),
    {
        let parallel_cnt: u8 = match self.block_conccurency() {
            BlockConcurrencyMode::Parallel { max_concurrent, .. } => max_concurrent,
            BlockConcurrencyMode::Sequential => 0,
        };
        let run = ParallelRun {
            terminate_on: self.input_request.terminate_on,
            tasks: self.input_request.task_range(),
            storing_proof: self.storing_proof(),
            storing_benchmark: self.storing_benchmark(),
            cumulative_block_gas: 0,
            cumulative_n_txs: 0,
            phase: ParallelPhase::Spawning,
        };
        let orders = TaskOrders {
            checkpoint_block_number: self.input_request.get_checkpoint_block_number(),
            num_seconds: match self.input_request.terminate_on {
                Some(TerminateOn::ElapsedSeconds { num_seconds }) => Some(num_seconds),
                _ => None,
            },
        };
        (run, ParallelAction::SpawnTaskees { count: parallel_cnt, orders })
    }

    /// Begins to prove the blocks sequentially.
    pub fn prove_blocks_sequentially(&self, started: Timestamp) -> (result: (
        SequentialRun,
        SequentialAction,
    ))
        ensures
            result == self.sequential_run(started).deciding(),
    {
        let first_block: u64 = self.starting_block();
        let run = SequentialRun {
            first_block,
            terminate_on: self.input_request.terminate_on,
            forward_prev: match self.input_request.forward_prev {
                Some(forward) => forward,
                None => false,
            },
            storing_proof: self.storing_proof(),
            storing_benchmark: self.storing_benchmark(),
            checkpoint_block_number: self.input_request.get_checkpoint_block_number(),
            started,
            block_number: first_block,
            cumulative_block_gas: 0,
            cumulative_n_txs: 0,
            previous: None,
            phase: SequentialPhase::Finished,
        };
        run.decide()
    }
}

/// What the laws of sequential and parallel runs are about: the runs that a prover begins are
/// untouched, and one that proves in parallel never forwards proofs.
pub proof fn law_runs_begin_untouched(prover: ManyProver, started: Timestamp)
    requires
        !is_unsupported(prover.input_request),
        prover.can_begin(),
    ensures
        crate::sequential_laws::untouched(prover.sequential_run(started)),
        prover.mode() is Parallel ==> {
            &&& crate::parallel_laws::untouched(prover.parallel_run())
            &&& prover.input_request.forward_prev != Some(true)
        },
{
}

/// In parallel, no more blocks are handed out than the maximum that was given, and none past the
/// end block; without a maximum, every block up to the end block is; without either, 1001 blocks are,
/// from the start block to the block 1000 past it.
pub proof fn law_parallel_runs_keep_to_their_limits(prover: ManyProver)
    requires
        prover.can_begin(),
        prover.mode() is Parallel,
    ensures
        prover.mode() matches BlockConcurrencyMode::Parallel { max_blocks: Some(n), .. }
            ==> crate::parallel_laws::task_count(prover.parallel_run()) <= n,
        prover.tasks() matches Some((first, last)) ==> {
            &&& first == prover.input_request.start_block_number
            &&& (prover.input_request.terminate_on matches Some(
                TerminateOn::EndBlock { block_number },
            ) ==> last <= block_number)
        },
        prover.mode() matches BlockConcurrencyMode::Parallel { max_blocks: None, .. } ==> (
        prover.input_request.terminate_on matches Some(TerminateOn::EndBlock { block_number })
            ==> if prover.input_request.start_block_number <= block_number {
            prover.tasks() == Some((prover.input_request.start_block_number, block_number))
        } else {
            prover.tasks() is None
        }),
        prover.mode() matches BlockConcurrencyMode::Parallel { max_blocks: None, .. } ==> !(
        prover.input_request.terminate_on matches Some(TerminateOn::EndBlock { .. }))
            ==> prover.tasks() == Some(
            (
                prover.input_request.start_block_number,
                (prover.input_request.start_block_number + 1000) as u64,
            ),
        ) && crate::parallel_laws::task_count(prover.parallel_run()) == 1001,
{
}

/// In parallel, the statistics that are stored are of blocks from the start block to the last one that
/// is handed out, and no block has two of them, whatever happens to the run, its taskees and the
/// channels between them; without a maximum number of blocks the last one is the end block, or else
/// the block 1000 past the start block.
pub proof fn law_recorded_blocks_are_asked_for(prover: ManyProver, history: Seq<Happening>)
    requires
        prover.can_begin(),
        prover.mode() is Parallel,
        prover.crew().possible(history),
    ensures
        ({
            let input = prover.input_request;
            let records = prover.recorded(history);
            &&& forall|i: int|
                0 <= i < records.len() ==> input.start_block_number <= (
                #[trigger] records[i]).block_number <= input.last_task()
            &&& forall|i: int, j: int|
                0 <= i < j < records.len() ==> (#[trigger] records[i]).block_number != (
                #[trigger] records[j]).block_number
            &&& (prover.mode() matches BlockConcurrencyMode::Parallel { max_blocks: None, .. }
                ==> input.last_task() == match input.terminate_on {
                Some(TerminateOn::EndBlock { block_number }) => block_number as int,
                _ => input.start_block_number + 1000,
            })
        }),
{
    let run = prover.parallel_run();
    crate::crew_laws::law_results_are_of_tasks(run, prover.crew_size(), prover.orders(), history);
    crate::parallel_laws::law_recorded_blocks_are_distinct_tasks(
        run,
        crate::crew::run_events(history),
    );
}

/// In parallel, with an end block or with neither a limit of time nor one of gas, a run that ends well,
/// that has a taskee and none that died, has stored the statistics and put out the proof of every block
/// that was handed out, but for those that could not be proved; where all could be, each block from
/// the start block to the last one has its statistics, and its proof is put out.
pub proof fn law_every_block_is_recorded_in_parallel(prover: ManyProver, history: Seq<Happening>)
    requires
        prover.can_begin(),
        prover.mode() matches BlockConcurrencyMode::Parallel { max_concurrent, .. }
            && max_concurrent > 0,
        prover.input_request.terminate_on is None || (prover.input_request.terminate_on matches Some(
            TerminateOn::EndBlock { .. },
        )),
        prover.crew().possible(history),
        !prover.crew().after(history).bereft,
        crate::parallel_laws::actions(
            prover.parallel_run(),
            crate::crew::run_events(history),
        ).contains(ParallelAction::Finish(Ok(()))),
    ensures
        ({
            let events = crate::crew::run_events(history);
            let failed = crate::crew_laws::failed_count(prover.parallel_run(), events);
            let tasks = crate::parallel_laws::task_count(prover.parallel_run());
            &&& prover.benchmark_out is Some ==> {
                &&& prover.recorded(history).len() + failed == tasks
                &&& failed == 0 ==> forall|b: u64|
                    prover.input_request.start_block_number <= b <= prover.input_request.last_task()
                        ==> #[trigger] crate::crew_laws::is_kept(prover.recorded(history), b)
            }
            &&& prover.proof_out is Some ==> {
                &&& prover.written(history).len() + failed == tasks
                &&& failed == 0 ==> forall|b: u64|
                    prover.input_request.start_block_number <= b <= prover.input_request.last_task()
                        ==> #[trigger] prover.written(history).contains(b)
            }
        }),
{
    let run = prover.parallel_run();
    let events = crate::crew::run_events(history);
    let records = prover.recorded(history);
    let outs = prover.written(history);
    let results = crate::parallel_laws::kept(run, events);
    crate::crew_laws::law_results_are_of_tasks(run, prover.crew_size(), prover.orders(), history);
    crate::parallel_laws::law_ends_for_a_reason(run, events);
    crate::crew_laws::law_results_end_when_all_blocks_are_done(
        run,
        prover.crew_size(),
        prover.orders(),
        history,
    );
    crate::parallel_laws::law_statistics_add_up(run, events);
    if run.storing_proof {
        crate::parallel_laws::law_every_proof_is_put_out(run, events);
    }
    if crate::crew_laws::failed_count(run, events) == 0 {
        assert forall|b: u64|
            prover.input_request.start_block_number <= b
                <= prover.input_request.last_task() implies {
            &&& prover.benchmark_out is Some ==> crate::crew_laws::is_kept(records, b)
            &&& prover.proof_out is Some ==> outs.contains(b)
        } by {
            assert(crate::crew_laws::is_task(run, b));
            let k = choose|k: int|
                0 <= k < results.len() && (#[trigger] results[k]).block_number == b;
            if prover.benchmark_out is Some {
                assert(crate::parallel_laws::stats_fit(
                    run,
                    crate::parallel_laws::released(run, events)->0,
                    results,
                    records[k],
                    k,
                ));
                assert(records[k].block_number == b);
            }
            if prover.proof_out is Some {
                assert(outs[k] == results[k].block_number);
            }
        }
    }
}

/// Every block is fetched with the checkpoint that was asked for, or else with the block before the
/// start block, in both modes.
pub proof fn law_checkpoint_is_the_one_asked_for(
    prover: ManyProver,
    started: Timestamp,
    events: Seq<SequentialEvent>,
    k: int,
)
    requires
        crate::sequential_laws::accepted(prover.sequential_run(started), events),
        0 <= k < crate::sequential_laws::actions(prover.sequential_run(started), events).len(),
    ensures
        crate::sequential_laws::actions(
            prover.sequential_run(started),
            events,
        )[k] matches SequentialAction::Fetch { checkpoint_block_number: Some(checkpoint), .. }
            ==> checkpoint == prover.input_request.checkpoint(),
        !(crate::sequential_laws::actions(
            prover.sequential_run(started),
            events,
        )[k] matches SequentialAction::Fetch { checkpoint_block_number: None, .. }),
        prover.orders().checkpoint_block_number == prover.input_request.checkpoint(),
        prover.input_request.checkpoint_block_number matches Some(c)
            ==> prover.input_request.checkpoint() == c,
{
    crate::sequential_laws::law_blocks_are_fetched_with_checkpoint(
        prover.sequential_run(started),
        events,
        k,
    );
}

/// What is asked for and not supported is to forward proofs in parallel, and nothing else.
pub proof fn law_what_is_unsupported(input: ProveBlocksInput)
    ensures
        is_unsupported(input) <==> {
            &&& input.forward_prev == Some(true)
            &&& (input.block_concurrency matches Some(mode) && mode is Parallel)
        },
{
}

/// No prover is refused beforehand but one whose number of proofs is to be counted for its statistics
/// and cannot be: its end block comes before its start block, or the count does not fit.
pub proof fn law_what_cannot_be_counted(input: ProveBlocksInput, event: BuildEvent)
    ensures
        ({
            let uncountable = input.benchmark_output is Some && (
            input.terminate_on matches Some(TerminateOn::EndBlock { block_number }) && (block_number
                < input.start_block_number || block_number - input.start_block_number
                == u64::MAX));
            &&& !ManyProver::accepts(input) <==> uncountable && input.proof_output is None && !(
            input.forward_prev == Some(true) && (input.block_concurrency matches Some(mode) && mode
                is Parallel))
            &&& !(Build::OpenProofOutput { input }).accepts(event) <==> uncountable && event
                == BuildEvent::Opened
        }),
        forall|proof_out: Option<ProofOutput>, expected: Option<u64>| #[trigger]
            (Build::OpenBenchmarkOutput { input, proof_out, expected }).accepts(event),
{
}

/// Once proofs can be put out or need not be, the means of putting out statistics is made ready if
/// statistics are asked for, for as many proofs as lead from the start block to the end block; else
/// the prover is built, and has what was made ready and nothing more.
pub proof fn law_what_follows_proof_output(
    build: Build,
    input: ProveBlocksInput,
    proof_out: Option<ProofOutput>,
)
    requires
        build.follows_proof_output(input, proof_out),
    ensures
        match build {
            Build::OpenBenchmarkOutput { input: kept, proof_out: out, expected } => {
                &&& input.benchmark_output is Some
                &&& kept == input
                &&& out == proof_out
                &&& match input.terminate_on {
                    Some(TerminateOn::EndBlock { block_number }) => expected is Some && (
                    input.start_block_number <= block_number && block_number
                        - input.start_block_number < u64::MAX ==> input.start_block_number
                        + expected->0 - 1 == block_number),
                    _ => expected is None,
                }
            },
            Build::Built(prover) => {
                &&& input.benchmark_output is None
                &&& prover.input_request == input
                &&& prover.proof_out == proof_out
                &&& prover.benchmark_out is None
            },
            _ => false,
        },
{
}

/// A prover has the means of output that were asked for, each whatever the other is, and no others.
pub proof fn law_prover_has_the_outputs_asked_for(prover: ManyProver)
    ensures
        prover.well_formed() <==> {
            &&& !(prover.input_request.forward_prev == Some(true) && (
            prover.input_request.block_concurrency matches Some(mode) && mode is Parallel))
            &&& prover.proof_out is Some <==> prover.input_request.proof_output is Some
            &&& prover.proof_out is Some ==> prover.proof_out->0.method
                == prover.input_request.proof_output->0
            &&& prover.benchmark_out is Some <==> prover.input_request.benchmark_output is Some
            &&& prover.benchmark_out is Some ==> prover.benchmark_out->0.config
                == prover.input_request.benchmark_output->0
        },
{
}

/// A prover works in the mode that was asked for, and sequentially if none was; in parallel it has as
/// many taskees as blocks may be in work, and it can begin exactly if the last block has a number.
pub proof fn law_mode_is_the_one_asked_for(prover: ManyProver)
    ensures
        prover.input_request.block_concurrency matches Some(mode) ==> prover.mode() == mode,
        prover.input_request.block_concurrency is None ==> prover.mode() is Sequential,
        prover.mode() matches BlockConcurrencyMode::Parallel { max_concurrent, .. }
            ==> prover.crew_size() == max_concurrent,
        prover.mode() is Sequential ==> prover.can_begin(),
        prover.mode() is Parallel ==> (prover.can_begin() <==> prover.input_request.last_task()
            <= u64::MAX),
{
}

/// A sequential run is the one that the request asks for: it begins with the start block, ends as
/// asked, forwards proofs exactly if asked to, and stores proofs exactly if there is a means of putting
/// them out and statistics exactly if there is one for those, each whatever the other is.
pub proof fn law_sequential_run_is_the_one_asked_for(prover: ManyProver, started: Timestamp)
    ensures
        ({
            let run = prover.sequential_run(started);
            let input = prover.input_request;
            &&& crate::sequential_laws::untouched(run)
            &&& run.first_block == input.start_block_number
            &&& run.terminate_on == input.terminate_on
            &&& run.forward_prev <==> input.forward_prev == Some(true)
            &&& run.storing_proof <==> prover.proof_out is Some
            &&& run.storing_benchmark <==> prover.benchmark_out is Some
            &&& prover.well_formed() ==> {
                &&& run.storing_proof <==> input.proof_output is Some
                &&& run.storing_benchmark <==> input.benchmark_output is Some
            }
            &&& run.started == started
            &&& match input.checkpoint_block_number {
                Some(checkpoint) => run.checkpoint_block_number == checkpoint,
                None => if input.start_block_number == 0 {
                    run.checkpoint_block_number == 0
                } else {
                    run.checkpoint_block_number + 1 == input.start_block_number
                },
            }
        }),
{
}

/// A parallel run is the one that the request asks for: it hands out the blocks from the start block to
/// the last one allowed, ends as asked, and stores proofs exactly if there is a means of putting them
/// out and statistics exactly if there is one for those, each whatever the other is; its taskees are
/// told the limit of time and the checkpoint.
pub proof fn law_parallel_run_is_the_one_asked_for(prover: ManyProver)
    requires
        prover.mode() is Parallel,
        prover.can_begin(),
    ensures
        ({
            let run = prover.parallel_run();
            let input = prover.input_request;
            let orders = prover.orders();
            &&& crate::parallel_laws::untouched(run)
            &&& run.terminate_on == input.terminate_on
            &&& match run.tasks {
                Some((first, last)) => first == input.start_block_number && last
                    == input.last_task() && first <= last,
                None => input.start_block_number > input.last_task(),
            }
            &&& run.storing_proof <==> prover.proof_out is Some
            &&& run.storing_benchmark <==> prover.benchmark_out is Some
            &&& prover.well_formed() ==> {
                &&& run.storing_proof <==> input.proof_output is Some
                &&& run.storing_benchmark <==> input.benchmark_output is Some
            }
            &&& match input.terminate_on {
                Some(TerminateOn::ElapsedSeconds { num_seconds }) => orders.num_seconds == Some(
                    num_seconds,
                ),
                _ => orders.num_seconds is None,
            }
            &&& match input.checkpoint_block_number {
                Some(checkpoint) => orders.checkpoint_block_number == checkpoint,
                None => if input.start_block_number == 0 {
                    orders.checkpoint_block_number == 0
                } else {
                    orders.checkpoint_block_number + 1 == input.start_block_number
                },
            }
        }),
{
}

/// With an end block, a sequential run that ends well has put out the proof of every block from the
/// start block to the end block if the request has a proof output, and has stored the statistics of
/// every one of them if it has a benchmark output, each whatever the other is.
pub proof fn law_every_block_is_kept_sequentially(
    prover: ManyProver,
    started: Timestamp,
    end_block: u64,
    events: Seq<SequentialEvent>,
)
    requires
        prover.well_formed(),
        prover.input_request.terminate_on == Some(TerminateOn::EndBlock { block_number: end_block }),
        prover.input_request.start_block_number <= end_block,
        crate::sequential_laws::accepted(prover.sequential_run(started), events),
        crate::sequential_laws::actions(prover.sequential_run(started), events).contains(
            SequentialAction::Finish(Ok(())),
        ),
    ensures
        ({
            let start = prover.input_request.start_block_number;
            let actions = crate::sequential_laws::actions(prover.sequential_run(started), events);
            let outs = crate::sequential_laws::written(actions);
            let records = crate::sequential_laws::recorded(actions);
            &&& prover.input_request.proof_output is Some ==> {
                &&& start + outs.len() == end_block + 1
                &&& forall|i: int| 0 <= i < outs.len() ==> #[trigger] outs[i] == start + i
            }
            &&& prover.input_request.benchmark_output is Some ==> {
                &&& start + records.len() == end_block + 1
                &&& forall|i: int|
                    0 <= i < records.len() ==> (#[trigger] records[i]).block_number == start + i
            }
        }),
{
    let run = prover.sequential_run(started);
    let actions = crate::sequential_laws::actions(run, events);
    law_sequential_run_is_the_one_asked_for(prover, started);
    crate::sequential_laws::law_blocks_are_proved_in_order(run, events);
    crate::sequential_laws::law_end_block_is_inclusive(run, end_block, events);
    crate::sequential_laws::law_statistics_add_up(run, events);
    if run.storing_proof {
        crate::sequential_laws::law_every_proof_is_put_out(run, events);
    }
    let records = crate::sequential_laws::recorded(actions);
    assert forall|i: int| 0 <= i < records.len() implies (#[trigger] records[i]).block_number
        == run.first_block + i by {
        assert(crate::sequential_laws::stats_fit(
            run,
            crate::sequential_laws::begun(run, events),
            records[i],
            i,
        ));
    }
}

} // verus!
