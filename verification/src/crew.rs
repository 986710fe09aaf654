//! A parallel run as a whole: the run, its taskees with the blocks they have in work, and the two
//! channels between them.
//!
//! Of a channel nothing is taken for granted but that it delivers each message once, in whatever
//! order, and that a receiver learns that no message is left only if that is so.

use vstd::prelude::*;

use crate::benchmarking::BenchmarkingStats;
use crate::manyprover::ManyProverError;
use crate::parallel::{ParallelAction, ParallelEvent, ParallelRun};
use crate::task::{
    BlockTask, BlockTaskAction, BlockTaskEvent, TaskOrders, Taskee, TaskeeAction, TaskeeEvent,
    TaskeePhase,
};

verus! {

/// What a taskee has in work.
pub enum Work {
    Nothing,
    /// A block that is being proved, and what it wants done next.
    Block(BlockTask, BlockTaskAction),
    /// The result of a block, which is to be sent.
    Result(u64, Result<BenchmarkingStats, ManyProverError>),
}

/// A taskee, what it wants done next, and what it has in work.
pub struct Member {
    pub taskee: Taskee,
    pub action: TaskeeAction,
    pub work: Work,
}

/// A parallel run and all that belongs to it.
pub struct Crew {
    pub run: ParallelRun,
    /// What the run wants done next.
    pub action: ParallelAction,
    /// The blocks that are queued and that no taskee has pulled yet.
    pub queue: Seq<u64>,
    /// Whether the queue is closed.
    pub closed: bool,
    /// Whether the taskees are to work.
    pub working: bool,
    pub members: Seq<Member>,
    /// The results that were sent and that the run has not received yet, each with its block.
    pub sent: Seq<(u64, Result<BenchmarkingStats, ManyProverError>)>,
    /// Whether a taskee died at its work.
    pub bereft: bool,
}

/// What can happen to a crew.
pub enum Happening {
    /// The run is told of an event; if it is a result, it is the one `at` this place among those
    /// that were sent.
    Run { event: ParallelEvent, at: int },
    /// A taskee is told of an event; if it is a block, it is the one `at` this place in the queue.
    Taskee { who: int, event: TaskeeEvent, at: int },
    /// The block that a taskee has in work is told of an event.
    Block { who: int, event: BlockTaskEvent },
    /// A taskee dies, and what it has in work is lost.
    Death { who: int },
}

impl Member {
    /// A taskee that was just spawned.
    pub open spec fn fresh(orders: TaskOrders) -> Member {
        let (taskee, action) = Taskee::beginning(orders);
        Member { taskee, action, work: Work::Nothing }
    }

    /// The block that a taskee has in work.
    pub open spec fn block(self) -> Option<u64> {
        match self.work {
            Work::Nothing => None,
            Work::Block(task, _) => Some(task.block_number),
            Work::Result(block_number, _) => Some(block_number),
        }
    }

    /// The taskee after an event; a block that it is to prove is begun at once.
    pub open spec fn told(self, event: TaskeeEvent) -> Member {
        let (taskee, action) = self.taskee.next(event);
        Member {
            taskee,
            action,
            work: match action {
                TaskeeAction::Prove { block_number } => {
                    let (task, wanted) = BlockTask::beginning(block_number, taskee.orders);
                    Work::Block(task, wanted)
                },
                TaskeeAction::Send => self.work,
                _ => Work::Nothing,
            },
        }
    }

    /// The taskee after an event of the block that it has in work; it learns at once that the block
    /// is done or given up.
    pub open spec fn block_told(self, event: BlockTaskEvent) -> Member {
        match self.work {
            Work::Block(task, _) => {
                let (task, action) = task.next(event);
                match action {
                    BlockTaskAction::Finish(outcome) => Member {
                        work: Work::Result(task.block_number, outcome),
                        ..self
                    }.told(TaskeeEvent::Done),
                    BlockTaskAction::GiveUp => self.told(TaskeeEvent::GivenUp),
                    _ => Member { work: Work::Block(task, action), ..self },
                }
            },
            _ => self,
        }
    }

    /// The taskee once it has died.
    pub open spec fn dead(self) -> Member {
        Member {
            taskee: Taskee { phase: TaskeePhase::Stopped, ..self.taskee },
            action: TaskeeAction::Stop,
            work: Work::Nothing,
        }
    }
}

impl Crew {
    /// A crew at the beginning of a run: so many taskees are to be spawned, with these orders.
    pub open spec fn start(run: ParallelRun, count: u8, orders: TaskOrders) -> Crew {
        Crew {
            run,
            action: ParallelAction::SpawnTaskees { count, orders },
            queue: Seq::empty(),
            closed: false,
            working: false,
            members: Seq::empty(),
            sent: Seq::empty(),
            bereft: false,
        }
    }

    /// Whether every taskee has ended, so that there is no one left to send a result.
    pub open spec fn all_stopped(self) -> bool {
        forall|i: int|
            0 <= i < self.members.len() ==> (#[trigger] self.members[i]).taskee.phase is Stopped
    }

    /// Whether the run can be told of this event now: it is what comes of doing what the run wants.
    pub open spec fn may_tell_run(self, event: ParallelEvent, at: int) -> bool {
        &&& self.run.accepts(event)
        &&& match (self.action, event) {
            (ParallelAction::SpawnTaskees { .. }, ParallelEvent::TaskeesSpawned) => true,
            (ParallelAction::SendTask { .. }, ParallelEvent::TaskSent) => true,
            (ParallelAction::SendTask { .. }, ParallelEvent::TaskSendFailed) => true,
            (ParallelAction::CloseTasks, ParallelEvent::TasksClosed) => true,
            (ParallelAction::Start, ParallelEvent::Started(_)) => true,
            (ParallelAction::ReceiveResult, ParallelEvent::ResultReceived(stats)) => 0 <= at
                < self.sent.len() && self.sent[at].1 == Ok::<BenchmarkingStats, ManyProverError>(
                stats,
            ),
            (ParallelAction::ReceiveResult, ParallelEvent::ResultFailed(error)) => 0 <= at
                < self.sent.len() && self.sent[at].1 == Err::<BenchmarkingStats, ManyProverError>(
                error,
            ),
            (ParallelAction::ReceiveResult, ParallelEvent::ResultsClosed) => self.sent.len() == 0
                && self.all_stopped(),
            (ParallelAction::WriteProof { .. }, ParallelEvent::ProofWritten(_)) => true,
            (ParallelAction::WriteProof { .. }, ParallelEvent::ProofWriteFailed(_)) => true,
            (ParallelAction::Record(_), ParallelEvent::Recorded) => true,
            (ParallelAction::ReadTimer, ParallelEvent::Elapsed(_)) => true,
            (ParallelAction::StopTaskees, ParallelEvent::TaskeesStopped) => true,
            (ParallelAction::Publish, ParallelEvent::Published) => true,
            (ParallelAction::Publish, ParallelEvent::PublishFailed) => true,
            (ParallelAction::JoinTaskees, ParallelEvent::TaskeesJoined) => self.all_stopped(),
            _ => false,
        }
    }

    /// Whether a taskee can be told of this event now.
    pub open spec fn may_tell_taskee(self, who: int, event: TaskeeEvent, at: int) -> bool {
        &&& 0 <= who < self.members.len()
        &&& match (self.members[who].action, event) {
            (TaskeeAction::ReadFlag, TaskeeEvent::Flag(working)) => working == self.working,
            (TaskeeAction::ReadTimer, TaskeeEvent::Elapsed(_)) => true,
            (TaskeeAction::Receive, TaskeeEvent::Task(block_number)) => 0 <= at < self.queue.len()
                && self.queue[at] == block_number,
            (TaskeeAction::Receive, TaskeeEvent::TasksClosed) => self.queue.len() == 0
                && self.closed,
            (TaskeeAction::Send, TaskeeEvent::Sent) => true,
            _ => false,
        }
    }

    /// Whether the block that a taskee has in work can be told of this event now.
    pub open spec fn may_tell_block(self, who: int, event: BlockTaskEvent) -> bool {
        &&& 0 <= who < self.members.len()
        &&& match self.members[who].work {
            Work::Block(_, action) => match (action, event) {
                (BlockTaskAction::Fetch { .. }, BlockTaskEvent::Fetched(_)) => true,
                (BlockTaskAction::Fetch { .. }, BlockTaskEvent::FetchFailed(_)) => true,
                (BlockTaskAction::ReadTimer, BlockTaskEvent::Elapsed(_)) => true,
                (BlockTaskAction::Prove { .. }, BlockTaskEvent::Proved(_)) => true,
                (BlockTaskAction::Prove { .. }, BlockTaskEvent::ProofFailed(_)) => true,
                _ => false,
            },
            _ => false,
        }
    }

    /// Whether something can happen now.
    pub open spec fn may(self, happening: Happening) -> bool {
        match happening {
            Happening::Run { event, at } => self.may_tell_run(event, at),
            Happening::Taskee { who, event, at } => self.may_tell_taskee(who, event, at),
            Happening::Block { who, event } => self.may_tell_block(who, event),
            Happening::Death { who } => 0 <= who < self.members.len(),
        }
    }

    /// The crew after the run was told of an event.
    pub open spec fn run_told(self, event: ParallelEvent, at: int) -> Crew {
        let (run, action) = self.run.next(event);
        Crew {
            run,
            action,
            queue: match (self.action, event) {
                (ParallelAction::SendTask { block_number }, ParallelEvent::TaskSent) =>
                    self.queue.push(block_number),
                _ => self.queue,
            },
            closed: self.closed || event is TasksClosed || event is TaskeesStopped,
            working: match event {
                ParallelEvent::Started(_) => true,
                ParallelEvent::TaskeesStopped => false,
                _ => self.working,
            },
            members: match (self.action, event) {
                (
                    ParallelAction::SpawnTaskees { count, orders },
                    ParallelEvent::TaskeesSpawned,
                ) => Seq::new(count as nat, |i: int| Member::fresh(orders)),
                _ => self.members,
            },
            sent: if event is ResultReceived || event is ResultFailed {
                self.sent.remove(at)
            } else {
                self.sent
            },
            ..self
        }
    }

    /// The crew after a taskee was told of an event.
    pub open spec fn taskee_told(self, who: int, event: TaskeeEvent, at: int) -> Crew {
        let member = self.members[who];
        Crew {
            members: self.members.update(who, member.told(event)),
            queue: if event is Task {
                self.queue.remove(at)
            } else {
                self.queue
            },
            sent: match (event, member.work) {
                (TaskeeEvent::Sent, Work::Result(block_number, outcome)) => self.sent.push(
                    (block_number, outcome),
                ),
                _ => self.sent,
            },
            ..self
        }
    }

    /// The crew after something happened.
    pub open spec fn next(self, happening: Happening) -> Crew {
        match happening {
            Happening::Run { event, at } => self.run_told(event, at),
            Happening::Taskee { who, event, at } => self.taskee_told(who, event, at),
            Happening::Block { who, event } => Crew {
                members: self.members.update(who, self.members[who].block_told(event)),
                ..self
            },
            Happening::Death { who } => Crew {
                members: self.members.update(who, self.members[who].dead()),
                bereft: true,
                ..self
            },
        }
    }

    /// The crew after all this happened.
    pub open spec fn after(self, history: Seq<Happening>) -> Crew
        decreases history.len(),
    {
        if history.len() == 0 {
            self
        } else {
            self.after(history.drop_last()).next(history.last())
        }
    }

    /// Whether all this can happen, one after the other.
    pub open spec fn possible(self, history: Seq<Happening>) -> bool
        decreases history.len(),
    {
        history.len() > 0 ==> {
            &&& self.possible(history.drop_last())
            &&& self.after(history.drop_last()).may(history.last())
        }
    }
}

/// What the run is told of in a history, first to last.
pub open spec fn run_events(history: Seq<Happening>) -> Seq<ParallelEvent>
    decreases history.len(),
{
    if history.len() == 0 {
        Seq::empty()
    } else {
        match history.last() {
            Happening::Run { event, .. } => run_events(history.drop_last()).push(event),
            _ => run_events(history.drop_last()),
        }
    }
}

} // verus!
