//! Proving blocks one after the other.

use vstd::prelude::*;

use crate::benchmarking::{
    BenchmarkingOutputError, BenchmarkingStats, BlockFigures, ProofTimes,
};
use crate::fetch::FetchError;
use crate::input::TerminateOn;
use crate::manyprover::ManyProverError;
use crate::proofout::ProofOutputError;
use crate::time::Timestamp;

verus! {

/// What a sequential run is waiting for.
#[derive(Debug, PartialEq, Eq)]
pub enum SequentialPhase {
    /// The time that has elapsed, to decide whether another block is begun.
    Timing,
    /// The current block.
    Fetching,
    /// The time that has elapsed, to decide whether the current block's proof is begun.
    Ready { figures: BlockFigures },
    /// The proof of the current block.
    Proving { figures: BlockFigures },
    /// The time that has elapsed, to decide whether the current block's proof came in time.
    Judging { stats: BenchmarkingStats },
    /// The current block's proof to be put out.
    Writing { stats: BenchmarkingStats },
    /// The current block's statistics to be stored.
    Recording,
    /// The statistics of all blocks to be published.
    Publishing,
    /// Nothing: the run is over.
    Finished,
}

/// What can happen to a sequential run.
#[derive(Debug, PartialEq, Eq)]
pub enum SequentialEvent {
    /// This many whole seconds have passed since the run began.
    Elapsed(u64),
    Fetched(BlockFigures),
    FetchFailed(FetchError),
    Proved(ProofTimes),
    ProofFailed(String),
    /// The proof was put out, which took this long.
    ProofWritten(std::time::Duration),
    ProofWriteFailed(ProofOutputError),
    Recorded,
    Published,
    PublishFailed(BenchmarkingOutputError),
}

/// What a sequential run wants done next.
#[derive(Debug, PartialEq, Eq)]
pub enum SequentialAction {
    /// Tell how many whole seconds have passed since the run began.
    ReadTimer,
    /// Fetch a block, with this checkpoint.
    Fetch { block_number: u64, checkpoint_block_number: Option<u64> },
    /// Prove the block that was fetched, on top of the proof of the block `previous` if there is
    /// one, and say whether the inputs of what fails are kept.
    Prove { block_number: u64, previous: Option<u64>, save_inputs_on_error: bool },
    /// Put out the proof of this block.
    WriteProof { block_number: u64 },
    /// Store the statistics of a block.
    Record(BenchmarkingStats),
    /// Publish the statistics that were stored.
    Publish,
    /// The run is over, with this outcome.
    Finish(Result<(), ManyProverError>),
    /// Nothing: the event was not one that the run waits for.
    Ignore,
}

/// A run that proves blocks one after the other.
#[derive(Debug, PartialEq, Eq)]
pub struct SequentialRun {
    /// The block that the run began with.
    pub first_block: u64,
    pub terminate_on: Option<TerminateOn>,
    /// Whether each proof builds on the one before.
    pub forward_prev: bool,
    /// Whether proofs are put out.
    pub storing_proof: bool,
    /// Whether statistics are stored and published.
    pub storing_benchmark: bool,
    /// The checkpoint that blocks are fetched with.
    pub checkpoint_block_number: u64,
    /// When the run began.
    pub started: Timestamp,
    /// The current block.
    pub block_number: u64,
    /// The gas of all blocks whose proof was begun.
    pub cumulative_block_gas: u64,
    /// The number of transactions of all blocks whose proof was begun.
    pub cumulative_n_txs: u64,
    /// The block whose proof the next proof builds on.
    pub previous: Option<u64>,
    pub phase: SequentialPhase,
}

impl SequentialRun {
    /// Whether the run has a limit of time.
    pub open spec fn is_timed(self) -> bool {
        self.terminate_on matches Some(TerminateOn::ElapsedSeconds { .. })
    }

    /// Whether the time is up after this many seconds.
    pub open spec fn time_up(self, seconds: u64) -> bool {
        self.terminate_on matches Some(TerminateOn::ElapsedSeconds { num_seconds }) && seconds
            >= num_seconds
    }

    /// The run is over: statistics are published if any were asked for.
    pub open spec fn winding_up(self) -> (SequentialRun, SequentialAction) {
        if self.storing_benchmark {
            (SequentialRun { phase: SequentialPhase::Publishing, ..self }, SequentialAction::Publish)
        } else {
            (
                SequentialRun { phase: SequentialPhase::Finished, ..self },
                SequentialAction::Finish(Ok(())),
            )
        }
    }

    /// The run is over because of an error.
    pub open spec fn failing(self, error: ManyProverError) -> (SequentialRun, SequentialAction) {
        (
            SequentialRun { phase: SequentialPhase::Finished, ..self },
            SequentialAction::Finish(Err(error)),
        )
    }

    /// The current block is begun.
    pub open spec fn beginning_block(self) -> (SequentialRun, SequentialAction) {
        (
            SequentialRun { phase: SequentialPhase::Fetching, ..self },
            SequentialAction::Fetch {
                block_number: self.block_number,
                checkpoint_block_number: Some(self.checkpoint_block_number),
            },
        )
    }

    /// The proof of the current block is begun, and the block counts.
    pub open spec fn beginning_proof(self, figures: BlockFigures) -> (
        SequentialRun,
        SequentialAction,
    ) {
        (
            SequentialRun {
                cumulative_block_gas: (self.cumulative_block_gas + figures.gas_used) as u64,
                cumulative_n_txs: (self.cumulative_n_txs + figures.n_txs()) as u64,
                phase: SequentialPhase::Proving { figures },
                ..self
            },
            SequentialAction::Prove {
                block_number: self.block_number,
                previous: self.previous,
                save_inputs_on_error: true,
            },
        )
    }

    /// The current block is proved, and its proof is kept.
    pub open spec fn keeping(self, stats: BenchmarkingStats) -> (SequentialRun, SequentialAction) {
        if self.storing_proof {
            (
                SequentialRun { phase: SequentialPhase::Writing { stats }, ..self },
                SequentialAction::WriteProof { block_number: self.block_number },
            )
        } else {
            self.settling(stats, None)
        }
    }

    /// Whether the current block is begun is decided.
    pub open spec fn deciding(self) -> (SequentialRun, SequentialAction) {
        match self.terminate_on {
            Some(TerminateOn::ElapsedSeconds { .. }) => (
                SequentialRun { phase: SequentialPhase::Timing, ..self },
                SequentialAction::ReadTimer,
            ),
            Some(TerminateOn::EndBlock { block_number }) if self.block_number > block_number =>
                self.winding_up(),
            _ => self.beginning_block(),
        }
    }

    /// Whether the gas of the blocks that were proved sums up to what was asked for.
    pub open spec fn gas_reached(self) -> bool {
        self.terminate_on matches Some(TerminateOn::BlockGasUsed { until_gas_sum })
            && self.cumulative_block_gas >= until_gas_sum
    }

    /// The current block is done, and the next one becomes the current one.
    pub open spec fn advancing(self) -> (SequentialRun, SequentialAction) {
        let next = SequentialRun { block_number: (self.block_number + 1) as u64, ..self };
        if self.gas_reached() {
            next.winding_up()
        } else {
            next.deciding()
        }
    }

    /// The current block is proved, and its proof put out if that was asked for.
    pub open spec fn settling(
        self,
        stats: BenchmarkingStats,
        proof_out_duration: Option<std::time::Duration>,
    ) -> (SequentialRun, SequentialAction) {
        let settled = SequentialRun {
            previous: if self.forward_prev {
                Some(self.block_number)
            } else {
                None
            },
            ..self
        };
        if self.storing_benchmark {
            (
                SequentialRun { phase: SequentialPhase::Recording, ..settled },
                SequentialAction::Record(
                    crate::benchmarking::stats_in_run(
                        stats,
                        self.cumulative_n_txs,
                        self.cumulative_block_gas,
                        crate::time::elapsed_seconds(self.started, stats.end_time) as u64,
                        proof_out_duration,
                    ),
                ),
            )
        } else {
            settled.advancing()
        }
    }

    /// What an event makes of the run, and what is to be done next.
    pub open spec fn next(self, event: SequentialEvent) -> (SequentialRun, SequentialAction) {
        match (self.phase, event) {
            (SequentialPhase::Timing, SequentialEvent::Elapsed(seconds)) => if self.time_up(
                seconds,
            ) {
                self.winding_up()
            } else {
                self.beginning_block()
            },
            (SequentialPhase::Fetching, SequentialEvent::Fetched(figures)) => if self.is_timed() {
                (
                    SequentialRun { phase: SequentialPhase::Ready { figures }, ..self },
                    SequentialAction::ReadTimer,
                )
            } else {
                self.beginning_proof(figures)
            },
            (SequentialPhase::Ready { figures }, SequentialEvent::Elapsed(seconds)) =>
                if self.time_up(seconds) {
                self.winding_up()
            } else {
                self.beginning_proof(figures)
            },
            (SequentialPhase::Fetching, SequentialEvent::FetchFailed(error)) => self.failing(
                ManyProverError::Fetch(error),
            ),
            (SequentialPhase::Proving { figures }, SequentialEvent::Proved(times)) => {
                let stats = crate::benchmarking::block_stats(self.block_number, figures, times);
                if self.is_timed() {
                    (
                        SequentialRun { phase: SequentialPhase::Judging { stats }, ..self },
                        SequentialAction::ReadTimer,
                    )
                } else {
                    self.keeping(stats)
                }
            },
            (SequentialPhase::Judging { stats }, SequentialEvent::Elapsed(seconds)) =>
                if self.time_up(seconds) {
                self.winding_up()
            } else {
                self.keeping(stats)
            },
            (SequentialPhase::Proving { .. }, SequentialEvent::ProofFailed(message)) =>
                self.failing(ManyProverError::Proof(message)),
            (SequentialPhase::Writing { stats }, SequentialEvent::ProofWritten(duration)) =>
                self.settling(stats, Some(duration)),
            (SequentialPhase::Writing { .. }, SequentialEvent::ProofWriteFailed(error)) =>
                self.failing(ManyProverError::ProofOutError(error)),
            (SequentialPhase::Recording, SequentialEvent::Recorded) => self.advancing(),
            (SequentialPhase::Publishing, SequentialEvent::Published) => (
                SequentialRun { phase: SequentialPhase::Finished, ..self },
                SequentialAction::Finish(Ok(())),
            ),
            (SequentialPhase::Publishing, SequentialEvent::PublishFailed(error)) => self.failing(
                ManyProverError::BenchmarkingOutput(error),
            ),
            _ => (self, SequentialAction::Ignore),
        }
    }

    /// The block whose proof an event begins, if it begins one.
    pub open spec fn begins(self, event: SequentialEvent) -> Option<BlockFigures> {
        match (self.phase, event) {
            (SequentialPhase::Fetching, SequentialEvent::Fetched(figures)) => if self.is_timed() {
                None
            } else {
                Some(figures)
            },
            (SequentialPhase::Ready { figures }, SequentialEvent::Elapsed(seconds)) =>
                if self.time_up(seconds) {
                None
            } else {
                Some(figures)
            },
            _ => None,
        }
    }

    /// Whether an event ends the work on the current block, so that the next one comes.
    pub open spec fn completes_block(self, event: SequentialEvent) -> bool {
        match (self.phase, event) {
            (SequentialPhase::Proving { .. }, SequentialEvent::Proved(_)) => !self.is_timed()
                && !self.storing_proof && !self.storing_benchmark,
            (SequentialPhase::Judging { .. }, SequentialEvent::Elapsed(seconds)) => !self.time_up(
                seconds,
            ) && !self.storing_proof && !self.storing_benchmark,
            (SequentialPhase::Writing { .. }, SequentialEvent::ProofWritten(_)) =>
                !self.storing_benchmark,
            (SequentialPhase::Recording, SequentialEvent::Recorded) => true,
            _ => false,
        }
    }

    /// Whether the sums over all blocks, and the number of the next block, fit after an event.
    pub open spec fn accepts(self, event: SequentialEvent) -> bool {
        &&& (self.begins(event) matches Some(figures) ==> {
            &&& self.cumulative_block_gas + figures.gas_used <= u64::MAX
            &&& self.cumulative_n_txs + figures.n_txs() <= u64::MAX
        })
        &&& (self.completes_block(event) ==> self.block_number < u64::MAX)
    }

    /// Whether the sums over all blocks, and the number of the next block, fit after an event.
    pub fn is_acceptable(&self, event: &SequentialEvent) -> (result: bool)
        ensures
            result == self.accepts(*event),
    {
        match (&self.phase, event) {
            (SequentialPhase::Fetching, SequentialEvent::Fetched(figures)) => self.has_time_limit()
                || self.sums_fit(figures),
            (SequentialPhase::Ready { figures }, SequentialEvent::Elapsed(seconds)) =>
                self.is_time_up(*seconds) || self.sums_fit(figures),
            (SequentialPhase::Proving { .. }, SequentialEvent::Proved(_)) => self.has_time_limit()
                || self.storing_proof || self.storing_benchmark || self.block_number < u64::MAX,
            (SequentialPhase::Judging { .. }, SequentialEvent::Elapsed(seconds)) =>
                self.is_time_up(*seconds) || self.storing_proof || self.storing_benchmark
                || self.block_number < u64::MAX,
            (SequentialPhase::Writing { .. }, SequentialEvent::ProofWritten(_)) =>
                self.storing_benchmark || self.block_number < u64::MAX,
            (SequentialPhase::Recording, SequentialEvent::Recorded) => self.block_number
                < u64::MAX,
            _ => true,
        }
    }

    fn sums_fit(&self, figures: &BlockFigures) -> (result: bool)
        ensures
            result == (self.cumulative_block_gas + figures.gas_used <= u64::MAX
                && self.cumulative_n_txs + figures.n_txs() <= u64::MAX),
    {
        let n_txs: u64 = figures.gas_used_per_tx.len() as u64;
        figures.gas_used <= u64::MAX - self.cumulative_block_gas && n_txs <= u64::MAX
            - self.cumulative_n_txs
    }

    fn has_time_limit(&self) -> (result: bool)
        ensures
            result == self.is_timed(),
    {
        match self.terminate_on {
            Some(TerminateOn::ElapsedSeconds { .. }) => true,
            _ => false,
        }
    }

    fn is_time_up(&self, seconds: u64) -> (result: bool)
        ensures
            result == self.time_up(seconds),
    {
        match self.terminate_on {
            Some(TerminateOn::ElapsedSeconds { num_seconds }) => seconds >= num_seconds,
            _ => false,
        }
    }

    fn wind_up(self) -> (result: (SequentialRun, SequentialAction))
        ensures
            result == self.winding_up(),
    {
        if self.storing_benchmark {
            (SequentialRun { phase: SequentialPhase::Publishing, ..self }, SequentialAction::Publish)
        } else {
            (
                SequentialRun { phase: SequentialPhase::Finished, ..self },
                SequentialAction::Finish(Ok(())),
            )
        }
    }

    fn fail(self, error: ManyProverError) -> (result: (SequentialRun, SequentialAction))
        ensures
            result == self.failing(error),
    {
        (
            SequentialRun { phase: SequentialPhase::Finished, ..self },
            SequentialAction::Finish(Err(error)),
        )
    }

    fn begin_block(self) -> (result: (SequentialRun, SequentialAction))
        ensures
            result == self.beginning_block(),
    {
        let block_number: u64 = self.block_number;
        let checkpoint_block_number: Option<u64> = Some(self.checkpoint_block_number);
        (
            SequentialRun { phase: SequentialPhase::Fetching, ..self },
            SequentialAction::Fetch { block_number, checkpoint_block_number },
        )
    }

    fn begin_proof(self, figures: BlockFigures) -> (result: (SequentialRun, SequentialAction))
        requires
            self.cumulative_block_gas + figures.gas_used <= u64::MAX,
            self.cumulative_n_txs + figures.n_txs() <= u64::MAX,
        ensures
            result == self.beginning_proof(figures),
    {
        let block_number: u64 = self.block_number;
        let previous: Option<u64> = self.previous;
        let n_txs: u64 = figures.gas_used_per_tx.len() as u64;
        (
            SequentialRun {
                cumulative_block_gas: self.cumulative_block_gas + figures.gas_used,
                cumulative_n_txs: self.cumulative_n_txs + n_txs,
                phase: SequentialPhase::Proving { figures },
                ..self
            },
            SequentialAction::Prove { block_number, previous, save_inputs_on_error: true },
        )
    }

    fn keep(self, stats: BenchmarkingStats) -> (result: (SequentialRun, SequentialAction))
        requires
            self.storing_proof || self.storing_benchmark || self.block_number < u64::MAX,
        ensures
            result == self.keeping(stats),
    {
        if self.storing_proof {
            let block_number: u64 = self.block_number;
            (
                SequentialRun { phase: SequentialPhase::Writing { stats }, ..self },
                SequentialAction::WriteProof { block_number },
            )
        } else {
            self.settle(stats, None)
        }
    }

    pub(crate) fn decide(self) -> (result: (SequentialRun, SequentialAction))
        ensures
            result == self.deciding(),
    {
        match self.terminate_on {
            Some(TerminateOn::ElapsedSeconds { .. }) => (
                SequentialRun { phase: SequentialPhase::Timing, ..self },
                SequentialAction::ReadTimer,
            ),
            Some(TerminateOn::EndBlock { block_number }) => {
                if self.block_number > block_number {
                    self.wind_up()
                } else {
                    self.begin_block()
                }
            },
            _ => self.begin_block(),
        }
    }

    fn advance(self) -> (result: (SequentialRun, SequentialAction))
        requires
            self.block_number < u64::MAX,
        ensures
            result == self.advancing(),
    {
        let reached = match self.terminate_on {
            Some(TerminateOn::BlockGasUsed { until_gas_sum }) => self.cumulative_block_gas
                >= until_gas_sum,
            _ => false,
        };
        let next = SequentialRun { block_number: self.block_number + 1, ..self };
        if reached {
            next.wind_up()
        } else {
            next.decide()
        }
    }

    fn settle(
        self,
        stats: BenchmarkingStats,
        proof_out_duration: Option<std::time::Duration>,
    ) -> (result: (SequentialRun, SequentialAction))
        requires
            self.storing_benchmark || self.block_number < u64::MAX,
        ensures
            result == self.settling(stats, proof_out_duration),
    {
        let previous: Option<u64> = if self.forward_prev {
            Some(self.block_number)
        } else {
            None
        };
        let settled = SequentialRun { previous, ..self };
        if settled.storing_benchmark {
            let overall: u64 = stats.end_time.elapsed_seconds_since(&settled.started);
            let record = stats.in_run(
                settled.cumulative_n_txs,
                settled.cumulative_block_gas,
                overall,
                proof_out_duration,
            );
            (
                SequentialRun { phase: SequentialPhase::Recording, ..settled },
                SequentialAction::Record(record),
            )
        } else {
            settled.advance()
        }
    }

    /// Takes in an event, and says what is to be done next.
    pub fn step(self, event: SequentialEvent) -> (result: (SequentialRun, SequentialAction))
        requires
            self.accepts(event),
        ensures
            result == self.next(event),
    {
        let SequentialRun {
            first_block,
            terminate_on,
            forward_prev,
            storing_proof,
            storing_benchmark,
            checkpoint_block_number,
            started,
            block_number,
            cumulative_block_gas,
            cumulative_n_txs,
            previous,
            phase,
        } = self;
        let idle = SequentialRun {
            first_block,
            terminate_on,
            forward_prev,
            storing_proof,
            storing_benchmark,
            checkpoint_block_number,
            started,
            block_number,
            cumulative_block_gas,
            cumulative_n_txs,
            previous,
            phase: SequentialPhase::Finished,
        };
        match (phase, event) {
            (SequentialPhase::Timing, SequentialEvent::Elapsed(seconds)) => {
                if idle.is_time_up(seconds) {
                    idle.wind_up()
                } else {
                    idle.begin_block()
                }
            },
            (SequentialPhase::Fetching, SequentialEvent::Fetched(figures)) => {
                if idle.has_time_limit() {
                    (
                        SequentialRun { phase: SequentialPhase::Ready { figures }, ..idle },
                        SequentialAction::ReadTimer,
                    )
                } else {
                    idle.begin_proof(figures)
                }
            },
            (SequentialPhase::Ready { figures }, SequentialEvent::Elapsed(seconds)) => {
                if idle.is_time_up(seconds) {
                    idle.wind_up()
                } else {
                    idle.begin_proof(figures)
                }
            },
            (SequentialPhase::Fetching, SequentialEvent::FetchFailed(error)) => idle.fail(
                ManyProverError::Fetch(error),
            ),
            (SequentialPhase::Proving { figures }, SequentialEvent::Proved(times)) => {
                let stats = BenchmarkingStats::of_block(block_number, figures, times);
                if idle.has_time_limit() {
                    (
                        SequentialRun { phase: SequentialPhase::Judging { stats }, ..idle },
                        SequentialAction::ReadTimer,
                    )
                } else {
                    idle.keep(stats)
                }
            },
            (SequentialPhase::Judging { stats }, SequentialEvent::Elapsed(seconds)) => {
                if idle.is_time_up(seconds) {
                    idle.wind_up()
                } else {
                    idle.keep(stats)
                }
            },
            (SequentialPhase::Proving { .. }, SequentialEvent::ProofFailed(message)) => idle.fail(
                ManyProverError::Proof(message),
            ),
            (SequentialPhase::Writing { stats }, SequentialEvent::ProofWritten(duration)) =>
                idle.settle(stats, Some(duration)),
            (SequentialPhase::Writing { .. }, SequentialEvent::ProofWriteFailed(error)) =>
                idle.fail(ManyProverError::ProofOutError(error)),
            (SequentialPhase::Recording, SequentialEvent::Recorded) => idle.advance(),
            (SequentialPhase::Publishing, SequentialEvent::Published) => (
                idle,
                SequentialAction::Finish(Ok(())),
            ),
            (SequentialPhase::Publishing, SequentialEvent::PublishFailed(error)) => idle.fail(
                ManyProverError::BenchmarkingOutput(error),
            ),
            (phase, _) => (SequentialRun { phase, ..idle }, SequentialAction::Ignore),
        }
    }
}

} // verus!
