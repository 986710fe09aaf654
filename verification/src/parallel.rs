//! Proving several blocks at a time.

use vstd::prelude::*;

use crate::benchmarking::BenchmarkingStats;
use crate::input::TerminateOn;
use crate::manyprover::ManyProverError;
use crate::proofout::ProofOutputError;
use crate::task::TaskOrders;
use crate::time::Timestamp;

verus! {

/// What a parallel run is waiting for.
#[derive(Debug, PartialEq, Eq)]
pub enum ParallelPhase {
    /// The taskees to be spawned.
    Spawning,
    /// Block `next` to be queued; `last` is the last one to queue.
    Queueing { next: u64, last: u64 },
    /// The queue of tasks to be closed.
    Closing,
    /// The time to be taken, and the taskees to be released.
    Starting,
    /// A taskee's result.
    Receiving { started: Timestamp },
    /// The time that has elapsed, to decide whether the result that came was in time.
    Judging { started: Timestamp, stats: BenchmarkingStats },
    /// The proof of a block to be put out.
    Writing { started: Timestamp, stats: BenchmarkingStats },
    /// The statistics of a block to be stored.
    Recording { started: Timestamp },
    /// The time that has elapsed, to decide whether another result is awaited.
    Timing { started: Timestamp },
    /// The taskees to be told to stop, and the queue of tasks to be closed.
    Stopping,
    /// The statistics of all blocks to be published.
    Publishing,
    /// The taskees to end.
    Joining,
    /// Nothing: the run is over.
    Finished,
}

/// What can happen to a parallel run.
#[derive(Debug, PartialEq, Eq)]
pub enum ParallelEvent {
    TaskeesSpawned,
    TaskSent,
    TaskSendFailed,
    TasksClosed,
    /// The taskees were released at this time.
    Started(Timestamp),
    /// A block was proved.
    ResultReceived(BenchmarkingStats),
    /// A block could not be proved.
    ResultFailed(ManyProverError),
    /// There will be no more results.
    ResultsClosed,
    /// The proof was put out, which took this long.
    ProofWritten(std::time::Duration),
    ProofWriteFailed(ProofOutputError),
    Recorded,
    /// This many whole seconds have passed since the taskees were released.
    Elapsed(u64),
    TaskeesStopped,
    Published,
    PublishFailed,
    TaskeesJoined,
}

/// What a parallel run wants done next.
#[derive(Debug, PartialEq, Eq)]
pub enum ParallelAction {
    /// Spawn this many taskees with these orders, each of which proves one block at a time.
    SpawnTaskees { count: u8, orders: TaskOrders },
    /// Queue a block for the taskees.
    SendTask { block_number: u64 },
    /// Close the queue of tasks.
    CloseTasks,
    /// Take the time, and release the taskees.
    Start,
    /// Wait for a taskee's result.
    ReceiveResult,
    /// Put out the proof of the block whose result came last.
    WriteProof { block_number: u64 },
    /// Store the statistics of a block.
    Record(BenchmarkingStats),
    /// Tell how many whole seconds have passed since the taskees were released.
    ReadTimer,
    /// Tell the taskees to stop, and close the queue of tasks.
    StopTaskees,
    /// Publish the statistics that were stored.
    Publish,
    /// Wait for the taskees to end.
    JoinTaskees,
    /// The run is over, with this outcome.
    Finish(Result<(), ManyProverError>),
    /// Nothing: the event was not one that the run waits for.
    Ignore,
}

/// A run that proves several blocks at a time.
#[derive(Debug, PartialEq, Eq)]
pub struct ParallelRun {
    pub terminate_on: Option<TerminateOn>,
    /// The first and the last block to queue, if there is any.
    pub tasks: Option<(u64, u64)>,
    /// Whether proofs are put out.
    pub storing_proof: bool,
    /// Whether statistics are stored and published.
    pub storing_benchmark: bool,
    /// The gas of all blocks whose proof was received in time.
    pub cumulative_block_gas: u64,
    /// The number of transactions of all blocks whose proof was received in time.
    pub cumulative_n_txs: u64,
    pub phase: ParallelPhase,
}

impl ParallelRun {
    /// Whether the run has a limit of time.
    pub open spec fn is_timed(self) -> bool {
        self.terminate_on matches Some(TerminateOn::ElapsedSeconds { .. })
    }

    /// Whether the time is up after this many seconds.
    pub open spec fn time_up(self, seconds: u64) -> bool {
        self.terminate_on matches Some(TerminateOn::ElapsedSeconds { num_seconds }) && seconds
            >= num_seconds
    }

    /// The same run, waiting for something else.
    pub open spec fn in_phase(self, phase: ParallelPhase) -> ParallelRun {
        ParallelRun { phase, ..self }
    }

    /// The run is over because of an error.
    pub open spec fn failing(self, error: ManyProverError) -> (ParallelRun, ParallelAction) {
        (self.in_phase(ParallelPhase::Finished), ParallelAction::Finish(Err(error)))
    }

    /// Another result is awaited.
    pub open spec fn receiving(self, started: Timestamp) -> (ParallelRun, ParallelAction) {
        (self.in_phase(ParallelPhase::Receiving { started }), ParallelAction::ReceiveResult)
    }

    /// No more results are awaited.
    pub open spec fn stopping(self) -> (ParallelRun, ParallelAction) {
        (self.in_phase(ParallelPhase::Stopping), ParallelAction::StopTaskees)
    }

    /// Whether another result is awaited is decided.
    pub open spec fn deciding(self, started: Timestamp) -> (ParallelRun, ParallelAction) {
        match self.terminate_on {
            Some(TerminateOn::ElapsedSeconds { .. }) => (
                self.in_phase(ParallelPhase::Timing { started }),
                ParallelAction::ReadTimer,
            ),
            Some(TerminateOn::BlockGasUsed { until_gas_sum }) if self.cumulative_block_gas
                >= until_gas_sum => self.stopping(),
            _ => self.receiving(started),
        }
    }

    /// A block is proved, and its proof put out if that was asked for.
    pub open spec fn settling(
        self,
        started: Timestamp,
        stats: BenchmarkingStats,
        proof_out_duration: Option<std::time::Duration>,
    ) -> (ParallelRun, ParallelAction) {
        if self.storing_benchmark {
            (
                self.in_phase(ParallelPhase::Recording { started }),
                ParallelAction::Record(
                    crate::benchmarking::stats_in_run(
                        stats,
                        self.cumulative_n_txs,
                        self.cumulative_block_gas,
                        crate::time::elapsed_seconds(started, stats.end_time) as u64,
                        proof_out_duration,
                    ),
                ),
            )
        } else {
            self.deciding(started)
        }
    }

    /// A result is kept: the block counts, and its proof is put out if that was asked for.
    pub open spec fn keeping(self, started: Timestamp, stats: BenchmarkingStats) -> (
        ParallelRun,
        ParallelAction,
    ) {
        let counted = ParallelRun {
            cumulative_block_gas: (self.cumulative_block_gas + stats.gas_used) as u64,
            cumulative_n_txs: (self.cumulative_n_txs + stats.n_txs) as u64,
            ..self
        };
        if self.storing_proof {
            (
                counted.in_phase(ParallelPhase::Writing { started, stats }),
                ParallelAction::WriteProof { block_number: stats.block_number },
            )
        } else {
            counted.settling(started, stats, None)
        }
    }

    /// What an event makes of the run, and what is to be done next.
    pub open spec fn next(self, event: ParallelEvent) -> (ParallelRun, ParallelAction) {
        match (self.phase, event) {
            (ParallelPhase::Spawning, ParallelEvent::TaskeesSpawned) => match self.tasks {
                Some((first, last)) => (
                    self.in_phase(ParallelPhase::Queueing { next: first, last }),
                    ParallelAction::SendTask { block_number: first },
                ),
                None => (self.in_phase(ParallelPhase::Closing), ParallelAction::CloseTasks),
            },
            (ParallelPhase::Queueing { next, last }, ParallelEvent::TaskSent) => if next < last {
                (
                    self.in_phase(ParallelPhase::Queueing { next: (next + 1) as u64, last }),
                    ParallelAction::SendTask { block_number: (next + 1) as u64 },
                )
            } else {
                (self.in_phase(ParallelPhase::Closing), ParallelAction::CloseTasks)
            },
            (ParallelPhase::Queueing { next, .. }, ParallelEvent::TaskSendFailed) => self.failing(
                ManyProverError::FailedToSendTask(next),
            ),
            (ParallelPhase::Closing, ParallelEvent::TasksClosed) => (
                self.in_phase(ParallelPhase::Starting),
                ParallelAction::Start,
            ),
            (ParallelPhase::Starting, ParallelEvent::Started(started)) => self.receiving(started),
            (ParallelPhase::Receiving { started }, ParallelEvent::ResultReceived(stats)) =>
                if self.is_timed() {
                (
                    self.in_phase(ParallelPhase::Judging { started, stats }),
                    ParallelAction::ReadTimer,
                )
            } else {
                self.keeping(started, stats)
            },
            (ParallelPhase::Judging { started, stats }, ParallelEvent::Elapsed(seconds)) =>
                if self.time_up(seconds) {
                self.stopping()
            } else {
                self.keeping(started, stats)
            },
            (ParallelPhase::Receiving { started }, ParallelEvent::ResultFailed(_)) =>
                if self.is_timed() {
                (self.in_phase(ParallelPhase::Timing { started }), ParallelAction::ReadTimer)
            } else {
                self.receiving(started)
            },
            (ParallelPhase::Receiving { .. }, ParallelEvent::ResultsClosed) => self.stopping(),
            (ParallelPhase::Writing { started, stats }, ParallelEvent::ProofWritten(duration)) =>
                self.settling(started, stats, Some(duration)),
            (ParallelPhase::Writing { .. }, ParallelEvent::ProofWriteFailed(error)) =>
                self.failing(ManyProverError::ProofOutError(error)),
            (ParallelPhase::Recording { started }, ParallelEvent::Recorded) => self.deciding(
                started,
            ),
            (ParallelPhase::Timing { started }, ParallelEvent::Elapsed(seconds)) => if self.time_up(
                seconds,
            ) {
                self.stopping()
            } else {
                self.receiving(started)
            },
            (ParallelPhase::Stopping, ParallelEvent::TaskeesStopped) => if self.storing_benchmark {
                (self.in_phase(ParallelPhase::Publishing), ParallelAction::Publish)
            } else {
                (self.in_phase(ParallelPhase::Joining), ParallelAction::JoinTaskees)
            },
            (ParallelPhase::Publishing, ParallelEvent::Published | ParallelEvent::PublishFailed) =>
            (self.in_phase(ParallelPhase::Joining), ParallelAction::JoinTaskees),
            (ParallelPhase::Joining, ParallelEvent::TaskeesJoined) => (
                self.in_phase(ParallelPhase::Finished),
                ParallelAction::Finish(Ok(())),
            ),
            _ => (self, ParallelAction::Ignore),
        }
    }

    /// The result that an event makes count, if it makes one count.
    pub open spec fn keeps(self, event: ParallelEvent) -> Option<BenchmarkingStats> {
        match (self.phase, event) {
            (ParallelPhase::Receiving { .. }, ParallelEvent::ResultReceived(stats)) =>
                if self.is_timed() {
                None
            } else {
                Some(stats)
            },
            (ParallelPhase::Judging { stats, .. }, ParallelEvent::Elapsed(seconds)) =>
                if self.time_up(seconds) {
                None
            } else {
                Some(stats)
            },
            _ => None,
        }
    }

    /// Whether the sums over all blocks fit after an event.
    pub open spec fn accepts(self, event: ParallelEvent) -> bool {
        self.keeps(event) matches Some(stats) ==> {
            &&& self.cumulative_block_gas + stats.gas_used <= u64::MAX
            &&& self.cumulative_n_txs + stats.n_txs <= u64::MAX
        }
    }

    /// Whether the sums over all blocks fit after an event.
    pub fn is_acceptable(&self, event: &ParallelEvent) -> (result: bool)
        ensures
            result == self.accepts(*event),
    {
        match (&self.phase, event) {
            (ParallelPhase::Receiving { .. }, ParallelEvent::ResultReceived(stats)) =>
                self.has_time_limit() || self.sums_fit(stats),
            (ParallelPhase::Judging { stats, .. }, ParallelEvent::Elapsed(seconds)) =>
                self.is_time_up(*seconds) || self.sums_fit(stats),
            _ => true,
        }
    }

    fn sums_fit(&self, stats: &BenchmarkingStats) -> (result: bool)
        ensures
            result == (self.cumulative_block_gas + stats.gas_used <= u64::MAX
                && self.cumulative_n_txs + stats.n_txs <= u64::MAX),
    {
        stats.gas_used <= u64::MAX - self.cumulative_block_gas && stats.n_txs <= u64::MAX
            - self.cumulative_n_txs
    }

    fn has_time_limit(&self) -> (result: bool)
        ensures
            result == self.is_timed(),
    {
        match self.terminate_on {
            Some(TerminateOn::ElapsedSeconds { .. }) => true,
            _ => false,
        }
    }

    fn is_time_up(&self, seconds: u64) -> (result: bool)
        ensures
            result == self.time_up(seconds),
    {
        match self.terminate_on {
            Some(TerminateOn::ElapsedSeconds { num_seconds }) => seconds >= num_seconds,
            _ => false,
        }
    }

    fn wait_in(self, phase: ParallelPhase) -> (result: ParallelRun)
        ensures
            result == self.in_phase(phase),
    {
        ParallelRun { phase, ..self }
    }

    fn fail(self, error: ManyProverError) -> (result: (ParallelRun, ParallelAction))
        ensures
            result == self.failing(error),
    {
        (self.wait_in(ParallelPhase::Finished), ParallelAction::Finish(Err(error)))
    }

    fn receive(self, started: Timestamp) -> (result: (ParallelRun, ParallelAction))
        ensures
            result == self.receiving(started),
    {
        (self.wait_in(ParallelPhase::Receiving { started }), ParallelAction::ReceiveResult)
    }

    fn stop(self) -> (result: (ParallelRun, ParallelAction))
        ensures
            result == self.stopping(),
    {
        (self.wait_in(ParallelPhase::Stopping), ParallelAction::StopTaskees)
    }

    fn decide(self, started: Timestamp) -> (result: (ParallelRun, ParallelAction))
        ensures
            result == self.deciding(started),
    {
        match self.terminate_on {
            Some(TerminateOn::ElapsedSeconds { .. }) => (
                self.wait_in(ParallelPhase::Timing { started }),
                ParallelAction::ReadTimer,
            ),
            Some(TerminateOn::BlockGasUsed { until_gas_sum }) => {
                if self.cumulative_block_gas >= until_gas_sum {
                    self.stop()
                } else {
                    self.receive(started)
                }
            },
            _ => self.receive(started),
        }
    }

    fn settle(
        self,
        started: Timestamp,
        stats: BenchmarkingStats,
        proof_out_duration: Option<std::time::Duration>,
    ) -> (result: (ParallelRun, ParallelAction))
        ensures
            result == self.settling(started, stats, proof_out_duration),
    {
        if self.storing_benchmark {
            let overall: u64 = stats.end_time.elapsed_seconds_since(&started);
            let record = stats.in_run(
                self.cumulative_n_txs,
                self.cumulative_block_gas,
                overall,
                proof_out_duration,
            );
            (
                self.wait_in(ParallelPhase::Recording { started }),
                ParallelAction::Record(record),
            )
        } else {
            self.decide(started)
        }
    }

    fn keep(self, started: Timestamp, stats: BenchmarkingStats) -> (result: (
        ParallelRun,
        ParallelAction,
    ))
        requires
            self.cumulative_block_gas + stats.gas_used <= u64::MAX,
            self.cumulative_n_txs + stats.n_txs <= u64::MAX,
        ensures
            result == self.keeping(started, stats),
    {
        let counted = ParallelRun {
            cumulative_block_gas: self.cumulative_block_gas + stats.gas_used,
            cumulative_n_txs: self.cumulative_n_txs + stats.n_txs,
            ..self
        };
        if counted.storing_proof {
            let block_number: u64 = stats.block_number;
            (
                counted.wait_in(ParallelPhase::Writing { started, stats }),
                ParallelAction::WriteProof { block_number },
            )
        } else {
            counted.settle(started, stats, None)
        }
    }

    /// Takes in an event, and says what is to be done next.
    pub fn step(self, event: ParallelEvent) -> (result: (ParallelRun, ParallelAction))
        requires
            self.accepts(event),
        ensures
            result == self.next(event),
    {
        let ParallelRun {
            terminate_on,
            tasks,
            storing_proof,
            storing_benchmark,
            cumulative_block_gas,
            cumulative_n_txs,
            phase,
        } = self;
        let idle = ParallelRun {
            terminate_on,
            tasks,
            storing_proof,
            storing_benchmark,
            cumulative_block_gas,
            cumulative_n_txs,
            phase: ParallelPhase::Finished,
        };
        match (phase, event) {
            (ParallelPhase::Spawning, ParallelEvent::TaskeesSpawned) => match tasks {
                Some((first, last)) => (
                    idle.wait_in(ParallelPhase::Queueing { next: first, last }),
                    ParallelAction::SendTask { block_number: first },
                ),
                None => (idle.wait_in(ParallelPhase::Closing), ParallelAction::CloseTasks),
            },
            (ParallelPhase::Queueing { next, last }, ParallelEvent::TaskSent) => {
                if next < last {
                    (
                        idle.wait_in(ParallelPhase::Queueing { next: next + 1, last }),
                        ParallelAction::SendTask { block_number: next + 1 },
                    )
                } else {
                    (idle.wait_in(ParallelPhase::Closing), ParallelAction::CloseTasks)
                }
            },
            (ParallelPhase::Queueing { next, .. }, ParallelEvent::TaskSendFailed) => idle.fail(
                ManyProverError::FailedToSendTask(next),
            ),
            (ParallelPhase::Closing, ParallelEvent::TasksClosed) => (
                idle.wait_in(ParallelPhase::Starting),
                ParallelAction::Start,
            ),
            (ParallelPhase::Starting, ParallelEvent::Started(started)) => idle.receive(started),
            (ParallelPhase::Receiving { started }, ParallelEvent::ResultReceived(stats)) => {
                if idle.has_time_limit() {
                    (
                        idle.wait_in(ParallelPhase::Judging { started, stats }),
                        ParallelAction::ReadTimer,
                    )
                } else {
                    idle.keep(started, stats)
                }
            },
            (ParallelPhase::Judging { started, stats }, ParallelEvent::Elapsed(seconds)) => {
                if idle.is_time_up(seconds) {
                    idle.stop()
                } else {
                    idle.keep(started, stats)
                }
            },
            (ParallelPhase::Receiving { started }, ParallelEvent::ResultFailed(_)) => {
                if idle.has_time_limit() {
                    (
                        idle.wait_in(ParallelPhase::Timing { started }),
                        ParallelAction::ReadTimer,
                    )
                } else {
                    idle.receive(started)
                }
            },
            (ParallelPhase::Receiving { .. }, ParallelEvent::ResultsClosed) => idle.stop(),
            (ParallelPhase::Writing { started, stats }, ParallelEvent::ProofWritten(duration)) =>
                idle.settle(started, stats, Some(duration)),
            (ParallelPhase::Writing { .. }, ParallelEvent::ProofWriteFailed(error)) => idle.fail(
                ManyProverError::ProofOutError(error),
            ),
            (ParallelPhase::Recording { started }, ParallelEvent::Recorded) => idle.decide(started),
            (ParallelPhase::Timing { started }, ParallelEvent::Elapsed(seconds)) => {
                if idle.is_time_up(seconds) {
                    idle.stop()
                } else {
                    idle.receive(started)
                }
            },
            (ParallelPhase::Stopping, ParallelEvent::TaskeesStopped) => {
                if storing_benchmark {
                    (idle.wait_in(ParallelPhase::Publishing), ParallelAction::Publish)
                } else {
                    (idle.wait_in(ParallelPhase::Joining), ParallelAction::JoinTaskees)
                }
            },
            (ParallelPhase::Publishing, ParallelEvent::Published) => (
                idle.wait_in(ParallelPhase::Joining),
                ParallelAction::JoinTaskees,
            ),
            (ParallelPhase::Publishing, ParallelEvent::PublishFailed) => (
                idle.wait_in(ParallelPhase::Joining),
                ParallelAction::JoinTaskees,
            ),
            (ParallelPhase::Joining, ParallelEvent::TaskeesJoined) => (
                idle,
                ParallelAction::Finish(Ok(())),
            ),
            (phase, _) => (idle.wait_in(phase), ParallelAction::Ignore),
        }
    }
}

} // verus!
