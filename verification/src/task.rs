//! The blocks of a parallel run: the taskees that pull them, and the proof of each.

use vstd::prelude::*;

use crate::benchmarking::{BenchmarkingStats, BlockFigures, ProofTimes};
use crate::fetch::FetchError;
use crate::manyprover::ManyProverError;

verus! {

/// What every taskee and every block of a run is told.
#[derive(Debug, Clone, Copy, PartialEq, Eq, Structural)]
pub struct TaskOrders {
    /// The checkpoint that blocks are fetched with.
    pub checkpoint_block_number: u64,
    /// The seconds after the release from which on no proof is begun, if there is such a limit.
    pub num_seconds: Option<u64>,
}

impl TaskOrders {
    /// Whether the time is up after this many seconds.
    pub open spec fn time_up(self, seconds: u64) -> bool {
        self.num_seconds matches Some(num_seconds) && seconds >= num_seconds
    }

    fn is_time_up(&self, seconds: u64) -> (result: bool)
        ensures
            result == self.time_up(seconds),
    {
        match self.num_seconds {
            Some(num_seconds) => seconds >= num_seconds,
            None => false,
        }
    }
}

/// What the proof of a block is waiting for.
#[derive(Debug, PartialEq, Eq)]
pub enum BlockTaskPhase {
    /// The block.
    Fetching,
    /// The time that has elapsed, to decide whether the proof is begun.
    Ready { figures: BlockFigures },
    /// Its proof.
    Proving { figures: BlockFigures },
    /// Nothing: the block is proved or not.
    Finished,
}

/// What can happen to a block that is to be proved.
#[derive(Debug, PartialEq, Eq)]
pub enum BlockTaskEvent {
    Fetched(BlockFigures),
    FetchFailed(FetchError),
    /// This many whole seconds have passed since the taskees were released.
    Elapsed(u64),
    Proved(ProofTimes),
    ProofFailed(String),
}

/// What a block wants done next.
#[derive(Debug, PartialEq, Eq)]
pub enum BlockTaskAction {
    /// Fetch the block, with this checkpoint.
    Fetch { block_number: u64, checkpoint_block_number: Option<u64> },
    /// Tell how many whole seconds have passed since the taskees were released.
    ReadTimer,
    /// Prove the block that was fetched, on its own, and say whether the inputs of what fails are
    /// kept.
    Prove { block_number: u64, save_inputs_on_error: bool },
    /// The block is proved, with these statistics, or not.
    Finish(Result<BenchmarkingStats, ManyProverError>),
    /// The time is up: the block is given up, and there is no result of it.
    GiveUp,
    /// Nothing: the event was not one that is waited for.
    Ignore,
}

/// A block that is to be proved on its own.
#[derive(Debug, PartialEq, Eq)]
pub struct BlockTask {
    pub block_number: u64,
    pub orders: TaskOrders,
    pub phase: BlockTaskPhase,
}

impl BlockTask {
    /// A block that is begun, and what it wants done first.
    pub open spec fn beginning(block_number: u64, orders: TaskOrders) -> (
        BlockTask,
        BlockTaskAction,
    ) {
        (
            BlockTask { block_number, orders, phase: BlockTaskPhase::Fetching },
            BlockTaskAction::Fetch {
                block_number,
                checkpoint_block_number: Some(orders.checkpoint_block_number),
            },
        )
    }

    /// Begins a block: it is fetched first, with the checkpoint of the orders.
    pub fn prove_block(block_number: u64, orders: TaskOrders) -> (result: (
        BlockTask,
        BlockTaskAction,
    ))
        ensures
            result == Self::beginning(block_number, orders),
    {
        let checkpoint_block_number: Option<u64> = Some(orders.checkpoint_block_number);
        (
            BlockTask { block_number, orders, phase: BlockTaskPhase::Fetching },
            BlockTaskAction::Fetch { block_number, checkpoint_block_number },
        )
    }

    /// The proof of the block is begun.
    pub open spec fn beginning_proof(self, figures: BlockFigures) -> (BlockTask, BlockTaskAction) {
        (
            BlockTask { phase: BlockTaskPhase::Proving { figures }, ..self },
            BlockTaskAction::Prove {
                block_number: self.block_number,
                save_inputs_on_error: true,
            },
        )
    }

    /// The block is done with.
    pub open spec fn finishing(self, outcome: Result<BenchmarkingStats, ManyProverError>) -> (
        BlockTask,
        BlockTaskAction,
    ) {
        (
            BlockTask { phase: BlockTaskPhase::Finished, ..self },
            BlockTaskAction::Finish(outcome),
        )
    }

    /// What an event makes of the block, and what is to be done next.
    pub open spec fn next(self, event: BlockTaskEvent) -> (BlockTask, BlockTaskAction) {
        match (self.phase, event) {
            (BlockTaskPhase::Fetching, BlockTaskEvent::Fetched(figures)) =>
                if self.orders.num_seconds is Some {
                (
                    BlockTask { phase: BlockTaskPhase::Ready { figures }, ..self },
                    BlockTaskAction::ReadTimer,
                )
            } else {
                self.beginning_proof(figures)
            },
            (BlockTaskPhase::Ready { figures }, BlockTaskEvent::Elapsed(seconds)) =>
                if self.orders.time_up(seconds) {
                (
                    BlockTask { phase: BlockTaskPhase::Finished, ..self },
                    BlockTaskAction::GiveUp,
                )
            } else {
                self.beginning_proof(figures)
            },
            (BlockTaskPhase::Fetching, BlockTaskEvent::FetchFailed(error)) => self.finishing(
                Err(ManyProverError::Fetch(error)),
            ),
            (BlockTaskPhase::Proving { figures }, BlockTaskEvent::Proved(times)) => self.finishing(
                Ok(crate::benchmarking::block_stats(self.block_number, figures, times)),
            ),
            (BlockTaskPhase::Proving { .. }, BlockTaskEvent::ProofFailed(message)) =>
                self.finishing(Err(ManyProverError::Proof(message))),
            _ => (self, BlockTaskAction::Ignore),
        }
    }

    fn begin_proof(self, figures: BlockFigures) -> (result: (BlockTask, BlockTaskAction))
        ensures
            result == self.beginning_proof(figures),
    {
        let block_number: u64 = self.block_number;
        (
            BlockTask { phase: BlockTaskPhase::Proving { figures }, ..self },
            BlockTaskAction::Prove { block_number, save_inputs_on_error: true },
        )
    }

    fn finish(self, outcome: Result<BenchmarkingStats, ManyProverError>) -> (result: (
        BlockTask,
        BlockTaskAction,
    ))
        ensures
            result == self.finishing(outcome),
    {
        (
            BlockTask { phase: BlockTaskPhase::Finished, ..self },
            BlockTaskAction::Finish(outcome),
        )
    }

    /// Takes in an event, and says what is to be done next.
    pub fn step(self, event: BlockTaskEvent) -> (result: (BlockTask, BlockTaskAction))
        ensures
            result == self.next(event),
    {
        let BlockTask { block_number, orders, phase } = self;
        let idle = BlockTask { block_number, orders, phase: BlockTaskPhase::Finished };
        match (phase, event) {
            (BlockTaskPhase::Fetching, BlockTaskEvent::Fetched(figures)) => {
                if orders.num_seconds.is_some() {
                    (
                        BlockTask { phase: BlockTaskPhase::Ready { figures }, ..idle },
                        BlockTaskAction::ReadTimer,
                    )
                } else {
                    idle.begin_proof(figures)
                }
            },
            (BlockTaskPhase::Ready { figures }, BlockTaskEvent::Elapsed(seconds)) => {
                if orders.is_time_up(seconds) {
                    (idle, BlockTaskAction::GiveUp)
                } else {
                    idle.begin_proof(figures)
                }
            },
            (BlockTaskPhase::Fetching, BlockTaskEvent::FetchFailed(error)) => idle.finish(
                Err(ManyProverError::Fetch(error)),
            ),
            (BlockTaskPhase::Proving { figures }, BlockTaskEvent::Proved(times)) => idle.finish(
                Ok(BenchmarkingStats::of_block(block_number, figures, times)),
            ),
            (BlockTaskPhase::Proving { .. }, BlockTaskEvent::ProofFailed(message)) => idle.finish(
                Err(ManyProverError::Proof(message)),
            ),
            (phase, _) => (BlockTask { phase, ..idle }, BlockTaskAction::Ignore),
        }
    }
}

/// What a taskee is waiting for.
#[derive(Debug, Clone, Copy, PartialEq, Eq, Structural)]
pub enum TaskeePhase {
    /// To be released.
    Waiting,
    /// To learn whether it is to go on.
    Checking,
    /// The time that has elapsed, to decide whether another block is pulled.
    Timing,
    /// A block.
    Receiving,
    /// The block to be proved or not.
    Proving,
    /// The result to be sent.
    Sending,
    /// Nothing: it is done.
    Stopped,
}

/// What can happen to a taskee.
#[derive(Debug, Clone, Copy, PartialEq, Eq, Structural)]
pub enum TaskeeEvent {
    /// Whether the taskees are to work.
    Flag(bool),
    /// This many whole seconds have passed since the taskees were released.
    Elapsed(u64),
    /// A block was pulled.
    Task(u64),
    /// There are no more blocks, and there never will be.
    TasksClosed,
    /// The block was proved or not.
    Done,
    /// The block was given up because the time is up.
    GivenUp,
    /// The result was sent.
    Sent,
}

/// What a taskee wants done next.
#[derive(Debug, Clone, Copy, PartialEq, Eq, Structural)]
pub enum TaskeeAction {
    /// Tell whether the taskees are to work.
    ReadFlag,
    /// Tell how many whole seconds have passed since the taskees were released.
    ReadTimer,
    /// Pull a block.
    Receive,
    /// Prove this block.
    Prove { block_number: u64 },
    /// Send the result.
    Send,
    /// End.
    Stop,
    /// Nothing: the event was not one that is waited for.
    Ignore,
}

/// A worker that pulls blocks and proves them, one at a time.
#[derive(Debug, Clone, Copy, PartialEq, Eq, Structural)]
pub struct Taskee {
    pub orders: TaskOrders,
    pub phase: TaskeePhase,
}

impl Taskee {
    /// A taskee that was not released yet, and what it wants done first.
    pub open spec fn beginning(orders: TaskOrders) -> (Taskee, TaskeeAction) {
        (Taskee { orders, phase: TaskeePhase::Waiting }, TaskeeAction::ReadFlag)
    }

    /// A taskee that was not released yet.
    pub fn new(orders: TaskOrders) -> (result: (Taskee, TaskeeAction))
        ensures
            result == Self::beginning(orders),
    {
        (Taskee { orders, phase: TaskeePhase::Waiting }, TaskeeAction::ReadFlag)
    }

    /// What an event makes of the taskee, and what is to be done next.
    pub open spec fn next(self, event: TaskeeEvent) -> (Taskee, TaskeeAction) {
        let (phase, action) = match (self.phase, event) {
            (TaskeePhase::Waiting, TaskeeEvent::Flag(working)) => if working {
                (TaskeePhase::Checking, TaskeeAction::ReadFlag)
            } else {
                (TaskeePhase::Waiting, TaskeeAction::ReadFlag)
            },
            (TaskeePhase::Checking, TaskeeEvent::Flag(working)) => if !working {
                (TaskeePhase::Stopped, TaskeeAction::Stop)
            } else if self.orders.num_seconds is Some {
                (TaskeePhase::Timing, TaskeeAction::ReadTimer)
            } else {
                (TaskeePhase::Receiving, TaskeeAction::Receive)
            },
            (TaskeePhase::Timing, TaskeeEvent::Elapsed(seconds)) => if self.orders.time_up(
                seconds,
            ) {
                (TaskeePhase::Stopped, TaskeeAction::Stop)
            } else {
                (TaskeePhase::Receiving, TaskeeAction::Receive)
            },
            (TaskeePhase::Receiving, TaskeeEvent::Task(block_number)) => (
                TaskeePhase::Proving,
                TaskeeAction::Prove { block_number },
            ),
            (TaskeePhase::Receiving, TaskeeEvent::TasksClosed) => (
                TaskeePhase::Stopped,
                TaskeeAction::Stop,
            ),
            (TaskeePhase::Proving, TaskeeEvent::Done) => (
                TaskeePhase::Sending,
                TaskeeAction::Send,
            ),
            (TaskeePhase::Proving, TaskeeEvent::GivenUp) => (
                TaskeePhase::Stopped,
                TaskeeAction::Stop,
            ),
            (TaskeePhase::Sending, TaskeeEvent::Sent) => (
                TaskeePhase::Checking,
                TaskeeAction::ReadFlag,
            ),
            _ => (self.phase, TaskeeAction::Ignore),
        };
        (Taskee { phase, ..self }, action)
    }

    /// Takes in an event, and says what is to be done next.
    pub fn step(self, event: TaskeeEvent) -> (result: (Taskee, TaskeeAction))
        ensures
            result == self.next(event),
    {
        let (phase, action) = match (self.phase, event) {
            (TaskeePhase::Waiting, TaskeeEvent::Flag(working)) => {
                if working {
                    (TaskeePhase::Checking, TaskeeAction::ReadFlag)
                } else {
                    (TaskeePhase::Waiting, TaskeeAction::ReadFlag)
                }
            },
            (TaskeePhase::Checking, TaskeeEvent::Flag(working)) => {
                if !working {
                    (TaskeePhase::Stopped, TaskeeAction::Stop)
                } else if self.orders.num_seconds.is_some() {
                    (TaskeePhase::Timing, TaskeeAction::ReadTimer)
                } else {
                    (TaskeePhase::Receiving, TaskeeAction::Receive)
                }
            },
            (TaskeePhase::Timing, TaskeeEvent::Elapsed(seconds)) => {
                if self.orders.is_time_up(seconds) {
                    (TaskeePhase::Stopped, TaskeeAction::Stop)
                } else {
                    (TaskeePhase::Receiving, TaskeeAction::Receive)
                }
            },
            (TaskeePhase::Receiving, TaskeeEvent::Task(block_number)) => (
                TaskeePhase::Proving,
                TaskeeAction::Prove { block_number },
            ),
            (TaskeePhase::Receiving, TaskeeEvent::TasksClosed) => (
                TaskeePhase::Stopped,
                TaskeeAction::Stop,
            ),
            (TaskeePhase::Proving, TaskeeEvent::Done) => (
                TaskeePhase::Sending,
                TaskeeAction::Send,
            ),
            (TaskeePhase::Proving, TaskeeEvent::GivenUp) => (
                TaskeePhase::Stopped,
                TaskeeAction::Stop,
            ),
            (TaskeePhase::Sending, TaskeeEvent::Sent) => (
                TaskeePhase::Checking,
                TaskeeAction::ReadFlag,
            ),
            (phase, _) => (phase, TaskeeAction::Ignore),
        };
        (Taskee { phase, ..self }, action)
    }
}

/// A taskee that is not released pulls no block, and once the taskees are told to stop it pulls
/// none either: it pulls one only after it was told to work, and with a limit of time only right
/// after it was found that the time is not up.
pub proof fn law_taskees_work_only_while_told_to(taskee: Taskee, event: TaskeeEvent)
    ensures
        taskee.next(event).0.orders == taskee.orders,
        taskee.next(event).1 is Receive ==> match taskee.orders.num_seconds {
            Some(num_seconds) => taskee.phase is Timing && (event matches TaskeeEvent::Elapsed(s)
                && s < num_seconds),
            None => event == TaskeeEvent::Flag(true) || taskee.phase is Timing,
        },
        taskee.next(event).0.phase is Timing && !(taskee.phase is Timing) ==> event
            == TaskeeEvent::Flag(true) && taskee.orders.num_seconds is Some,
        taskee.phase is Waiting ==> !(taskee.next(event).1 is Receive),
        taskee.phase is Stopped ==> taskee.next(event) == (taskee, TaskeeAction::Ignore),
{
}

/// A taskee has one block at a time: having pulled one, it pulls no other before it has sent the
/// result, and none at all if the block was given up.
pub proof fn law_taskees_prove_one_block_at_a_time(taskee: Taskee, event: TaskeeEvent)
    ensures
        taskee.phase is Proving && event != TaskeeEvent::Done && event != TaskeeEvent::GivenUp
            ==> taskee.next(event) == (taskee, TaskeeAction::Ignore),
        taskee.phase is Proving && event == TaskeeEvent::GivenUp ==> taskee.next(event).0.phase
            is Stopped,
        taskee.phase is Sending && event != TaskeeEvent::Sent ==> taskee.next(event) == (
            taskee,
            TaskeeAction::Ignore,
        ),
        taskee.next(event).1 is Prove ==> taskee.phase is Receiving,
{
}

/// With a limit of time, the proof of a block is begun only right after it was found that the time
/// is not up, and a block is given up only if it is.
pub proof fn law_no_proof_is_begun_late(task: BlockTask, num_seconds: u64, event: BlockTaskEvent)
    requires
        task.orders.num_seconds == Some(num_seconds),
    ensures
        task.next(event).1 is Prove ==> (event matches BlockTaskEvent::Elapsed(s) && s
            < num_seconds),
        task.next(event).1 is GiveUp ==> (event matches BlockTaskEvent::Elapsed(s) && s
            >= num_seconds),
{
}

/// The result of a block is of that very block.
pub proof fn law_results_are_of_their_block(task: BlockTask, event: BlockTaskEvent)
    ensures
        task.next(event).0.block_number == task.block_number,
        task.next(event).0.orders == task.orders,
        task.next(event).1 matches BlockTaskAction::Finish(Ok(stats)) ==> stats.block_number
            == task.block_number,
{
}

/// A task asks for the very block that it is of, whatever its orders are, and with the checkpoint of
/// its orders.
pub proof fn law_task_asks_for_its_own_block(block_number: u64, orders: TaskOrders)
    ensures
        ({
            let (task, action) = BlockTask::beginning(block_number, orders);
            &&& task.block_number == block_number
            &&& task.orders == orders
            &&& (action matches BlockTaskAction::Fetch {
                block_number: asked,
                checkpoint_block_number,
            } && asked == block_number && checkpoint_block_number == Some(
                orders.checkpoint_block_number,
            ))
        }),
{
}

/// Whether an outcome is that a block was proved: its statistics tell its number, what was fetched of
/// it and the times of its proof, and nothing of the run as a whole.
pub open spec fn is_proved(
    outcome: BlockTaskAction,
    block_number: u64,
    figures: BlockFigures,
    times: ProofTimes,
) -> bool {
    outcome matches BlockTaskAction::Finish(Ok(stats)) && {
        &&& stats.block_number == block_number
        &&& stats.n_txs == figures.gas_used_per_tx@.len()
        &&& stats.gas_used == figures.gas_used
        &&& stats.gas_used_per_tx == figures.gas_used_per_tx
        &&& stats.difficulty == figures.difficulty
        &&& stats.fetch_duration == figures.fetch_duration
        &&& stats.total_proof_duration == times.total_proof_duration
        &&& stats.prep_duration == times.prep_duration
        &&& stats.txproof_duration == times.txproof_duration
        &&& stats.agg_duration == times.agg_duration
        &&& stats.start_time == times.start_time
        &&& stats.end_time == times.end_time
        &&& stats.cumulative_n_txs is None
        &&& stats.cumulative_gas_used is None
        &&& stats.overall_elapsed_seconds is None
        &&& stats.proof_out_duration is None
    }
}

/// Whether a task that has just begun its proof waits for it: the proof makes it end with the
/// statistics of the block, a failure makes it end with the failure, and nothing else matters.
pub open spec fn awaits_proof(
    task: BlockTask,
    block_number: u64,
    figures: BlockFigures,
    times: ProofTimes,
    message: String,
    other: BlockTaskEvent,
) -> bool {
    &&& is_proved(
        task.next(BlockTaskEvent::Proved(times)).1,
        block_number,
        figures,
        times,
    )
    &&& is_done(task.next(BlockTaskEvent::Proved(times)).0, other)
    &&& task.next(BlockTaskEvent::ProofFailed(message)).1 == BlockTaskAction::Finish(
        Err(ManyProverError::Proof(message)),
    )
    &&& is_done(task.next(BlockTaskEvent::ProofFailed(message)).0, other)
    &&& !(other is Proved) && !(other is ProofFailed) ==> task.next(other) == (
        task,
        BlockTaskAction::Ignore,
    )
}

/// Whether nothing matters to a task any more.
pub open spec fn is_done(task: BlockTask, other: BlockTaskEvent) -> bool {
    task.next(other) == (task, BlockTaskAction::Ignore)
}

/// The course of a task: its block is fetched; with a limit of time the timer is read, and at the
/// limit or above the block is given up; else its proof is begun, and what comes of that ends it.
pub proof fn law_course_of_a_task(
    block_number: u64,
    orders: TaskOrders,
    figures: BlockFigures,
    times: ProofTimes,
    seconds: u64,
    error: FetchError,
    message: String,
    other: BlockTaskEvent,
)
    requires
        figures.gas_used_per_tx@.len() <= u64::MAX,
    ensures
        ({
            let task = BlockTask::beginning(block_number, orders).0;
            let (fetched, action) = task.next(BlockTaskEvent::Fetched(figures));
            let (timed, then) = fetched.next(BlockTaskEvent::Elapsed(seconds));
            let prove = BlockTaskAction::Prove { block_number, save_inputs_on_error: true };
            &&& task.next(BlockTaskEvent::FetchFailed(error)).1 == BlockTaskAction::Finish(
                Err(ManyProverError::Fetch(error)),
            )
            &&& is_done(task.next(BlockTaskEvent::FetchFailed(error)).0, other)
            &&& !(other is Fetched) && !(other is FetchFailed) ==> task.next(other) == (
                task,
                BlockTaskAction::Ignore,
            )
            &&& match orders.num_seconds {
                None => action == prove && awaits_proof(
                    fetched,
                    block_number,
                    figures,
                    times,
                    message,
                    other,
                ),
                Some(num_seconds) => {
                    &&& action == BlockTaskAction::ReadTimer
                    &&& !(other is Elapsed) ==> fetched.next(other) == (
                        fetched,
                        BlockTaskAction::Ignore,
                    )
                    &&& if seconds >= num_seconds {
                        then == BlockTaskAction::GiveUp && is_done(timed, other)
                    } else {
                        then == prove && awaits_proof(
                            timed,
                            block_number,
                            figures,
                            times,
                            message,
                            other,
                        )
                    }
                },
            }
        }),
{
}

/// The course of a taskee: it asks whether to work until it is told to, and asks once more; told to
/// stop then, it ends; with a limit of time it reads the timer, and at the limit or above it ends;
/// else it pulls a block, proves that very block, sends the result, and is where it was when it was
/// first told to work.  It ends when there are no blocks left or its block was given up, and then
/// nothing matters to it.
pub proof fn law_course_of_a_taskee(
    orders: TaskOrders,
    block_number: u64,
    seconds: u64,
    other: TaskeeEvent,
)
    ensures
        ({
            let (waiting, first) = Taskee::beginning(orders);
            let (told, again) = waiting.next(TaskeeEvent::Flag(true));
            let (working, action) = told.next(TaskeeEvent::Flag(true));
            let (receiving, pull) = match orders.num_seconds {
                None => (working, action),
                Some(_) => working.next(TaskeeEvent::Elapsed(seconds)),
            };
            let (proving, prove) = receiving.next(TaskeeEvent::Task(block_number));
            let (sending, send) = proving.next(TaskeeEvent::Done);
            let (stopped, stop) = told.next(TaskeeEvent::Flag(false));
            let time_left = orders.num_seconds matches Some(num_seconds) ==> seconds < num_seconds;
            &&& first == TaskeeAction::ReadFlag
            &&& waiting.orders == orders
            &&& waiting.next(TaskeeEvent::Flag(false)) == (waiting, TaskeeAction::ReadFlag)
            &&& again == TaskeeAction::ReadFlag
            &&& stop == TaskeeAction::Stop
            &&& stopped.next(other) == (stopped, TaskeeAction::Ignore)
            &&& orders.num_seconds is Some ==> action == TaskeeAction::ReadTimer
            &&& !time_left ==> (receiving, pull) == (stopped, TaskeeAction::Stop)
            &&& time_left ==> {
                &&& pull == TaskeeAction::Receive
                &&& receiving.next(TaskeeEvent::TasksClosed) == (stopped, TaskeeAction::Stop)
                &&& prove == (TaskeeAction::Prove { block_number })
                &&& send == TaskeeAction::Send
                &&& proving.next(TaskeeEvent::GivenUp) == (stopped, TaskeeAction::Stop)
                &&& sending.next(TaskeeEvent::Sent) == (told, TaskeeAction::ReadFlag)
                &&& !(other is Task) && !(other is TasksClosed) ==> receiving.next(other) == (
                    receiving,
                    TaskeeAction::Ignore,
                )
                &&& !(other is Done) && !(other is GivenUp) ==> proving.next(other) == (
                    proving,
                    TaskeeAction::Ignore,
                )
                &&& !(other is Sent) ==> sending.next(other) == (sending, TaskeeAction::Ignore)
            }
            &&& !(other is Flag) ==> {
                &&& waiting.next(other) == (waiting, TaskeeAction::Ignore)
                &&& told.next(other) == (told, TaskeeAction::Ignore)
            }
            &&& orders.num_seconds is Some && !(other is Elapsed) ==> working.next(other) == (
                working,
                TaskeeAction::Ignore,
            )
        }),
{
}

} // verus!
