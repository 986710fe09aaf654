//! The course of a parallel run, told by nothing but what it was asked to do, what it asks for and what
//! it is answered.

use vstd::prelude::*;

use crate::benchmarking::BenchmarkingStats;
use crate::input::TerminateOn;
use crate::manyprover::ManyProverError;
use crate::parallel::{ParallelAction, ParallelEvent, ParallelPhase, ParallelRun};
use crate::time::Timestamp;

verus! {

/// Whether an event is an answer to what a run asked for.
pub open spec fn answers(asked: ParallelAction, told: ParallelEvent) -> bool {
    match asked {
        ParallelAction::SpawnTaskees { .. } => told is TaskeesSpawned,
        ParallelAction::SendTask { .. } => told is TaskSent || told is TaskSendFailed,
        ParallelAction::CloseTasks => told is TasksClosed,
        ParallelAction::Start => told is Started,
        ParallelAction::ReceiveResult => told is ResultReceived || told is ResultFailed || told
            is ResultsClosed,
        ParallelAction::WriteProof { .. } => told is ProofWritten || told is ProofWriteFailed,
        ParallelAction::Record(_) => told is Recorded,
        ParallelAction::ReadTimer => told is Elapsed,
        ParallelAction::StopTaskees => told is TaskeesStopped,
        ParallelAction::Publish => told is Published || told is PublishFailed,
        ParallelAction::JoinTaskees => told is TaskeesJoined,
        ParallelAction::Finish(_) => false,
        ParallelAction::Ignore => false,
    }
}

/// Whether each event answers what the run asked for right before it; the first one answers that the
/// taskees be spawned.
pub open spec fn is_dialogue(run: ParallelRun, events: Seq<ParallelEvent>) -> bool {
    &&& events.len() > 0 ==> events[0] is TaskeesSpawned
    &&& forall|k: int|
        0 < k < events.len() ==> answers(
            crate::parallel_laws::actions(run, events)[k - 1],
            #[trigger] events[k],
        )
}

/// The gas of the blocks whose results came, summed up.
pub open spec fn gas_received(events: Seq<ParallelEvent>) -> int
    decreases events.len(),
{
    if events.len() == 0 {
        0
    } else {
        gas_received(events.drop_last()) + match events.last() {
            ParallelEvent::ResultReceived(stats) => stats.gas_used as int,
            _ => 0,
        }
    }
}

/// The number of transactions of the blocks whose results came, summed up.
pub open spec fn txs_received(events: Seq<ParallelEvent>) -> int
    decreases events.len(),
{
    if events.len() == 0 {
        0
    } else {
        txs_received(events.drop_last()) + match events.last() {
            ParallelEvent::ResultReceived(stats) => stats.n_txs as int,
            _ => 0,
        }
    }
}

/// The result that came last.
pub open spec fn last_received(events: Seq<ParallelEvent>) -> Option<BenchmarkingStats>
    decreases events.len(),
{
    if events.len() == 0 {
        None
    } else {
        match events.last() {
            ParallelEvent::ResultReceived(stats) => Some(stats),
            _ => last_received(events.drop_last()),
        }
    }
}

/// When the taskees were released.
pub open spec fn release(events: Seq<ParallelEvent>) -> Option<Timestamp>
    decreases events.len(),
{
    if events.len() == 0 {
        None
    } else {
        match events.last() {
            ParallelEvent::Started(started) => Some(started),
            _ => release(events.drop_last()),
        }
    }
}

/// Whether a run has a limit of time.
pub open spec fn has_time_limit(run: ParallelRun) -> bool {
    run.terminate_on matches Some(TerminateOn::ElapsedSeconds { .. })
}

/// Whether an action puts out the proof of the block whose result came last.
pub open spec fn puts_out_proof(events: Seq<ParallelEvent>, action: ParallelAction) -> bool {
    last_received(events) matches Some(result) && action == (ParallelAction::WriteProof {
        block_number: result.block_number,
    })
}

/// Whether statistics say of the block what the result that came last says of it, and of the run what
/// all the events come to.
pub open spec fn tells_all(
    events: Seq<ParallelEvent>,
    proof_out_duration: Option<std::time::Duration>,
    stats: BenchmarkingStats,
) -> bool {
    &&& (last_received(events) matches Some(result) && {
        &&& stats.block_number == result.block_number
        &&& stats.n_txs == result.n_txs
        &&& stats.gas_used == result.gas_used
        &&& stats.gas_used_per_tx == result.gas_used_per_tx
        &&& stats.difficulty == result.difficulty
        &&& stats.fetch_duration == result.fetch_duration
        &&& stats.total_proof_duration == result.total_proof_duration
        &&& stats.prep_duration == result.prep_duration
        &&& stats.txproof_duration == result.txproof_duration
        &&& stats.agg_duration == result.agg_duration
        &&& stats.start_time == result.start_time
        &&& stats.end_time == result.end_time
    })
    &&& (stats.cumulative_n_txs matches Some(n) && n == txs_received(events))
    &&& (stats.cumulative_gas_used matches Some(n) && n == gas_received(events))
    &&& (release(events) matches Some(started) && (
    stats.overall_elapsed_seconds matches Some(n) && (-0x8000_0000_0000_0000 * 1_000_000_000
        < stats.end_time@ - started@ < 0x8000_0000_0000_0000 * 1_000_000_000
        ==> crate::time::are_seconds_between(started, stats.end_time, n as int))))
    &&& stats.proof_out_duration == proof_out_duration
}

/// Whether an action goes on behind a result that is dealt with: the timer is read if there is a limit
/// of time, the taskees are stopped if the gas is reached, and else the next result is awaited.
pub open spec fn goes_on(
    run: ParallelRun,
    events: Seq<ParallelEvent>,
    action: ParallelAction,
) -> bool {
    match run.terminate_on {
        Some(TerminateOn::ElapsedSeconds { .. }) => action == ParallelAction::ReadTimer,
        Some(TerminateOn::BlockGasUsed { until_gas_sum }) => if gas_received(events)
            >= until_gas_sum {
            action == ParallelAction::StopTaskees
        } else {
            action == ParallelAction::ReceiveResult
        },
        _ => action == ParallelAction::ReceiveResult,
    }
}

/// Whether an action stores the statistics of a block whose proof is dealt with, if statistics are
/// stored, and else goes on.
pub open spec fn stores_or_goes_on(
    run: ParallelRun,
    events: Seq<ParallelEvent>,
    proof_out_duration: Option<std::time::Duration>,
    action: ParallelAction,
) -> bool {
    if run.storing_benchmark {
        action matches ParallelAction::Record(stats) && tells_all(events, proof_out_duration, stats)
    } else {
        goes_on(run, events, action)
    }
}

/// Whether an action keeps a result that came in time.
pub open spec fn keeps_result(
    run: ParallelRun,
    events: Seq<ParallelEvent>,
    action: ParallelAction,
) -> bool {
    if run.storing_proof {
        puts_out_proof(events, action)
    } else {
        stores_or_goes_on(run, events, None, action)
    }
}

/// Whether an action is what comes of the last of these events, the one before having been asked for:
///
/// - The blocks of the range are queued one after the other, from the first to the last; then the
///   queue is closed, the taskees are released, and results are awaited.
/// - A timer reading of the limit or more stops the taskees; one below the limit lets a result that
///   just came be kept, and else the next one be awaited.
/// - A result that came is kept, and a block that failed is passed over; with a limit of time the timer
///   is read before either.
/// - A result that is kept has its proof put out if proofs are stored, then its statistics stored if
///   statistics are, then the run goes on.
/// - When no result is left the taskees are stopped; then what was stored is published, the taskees
///   are joined, and the run ends well.
pub open spec fn comes_of(
    run: ParallelRun,
    asked: ParallelAction,
    events: Seq<ParallelEvent>,
    action: ParallelAction,
) -> bool {
    let n = events.len() as int;
    match events[n - 1] {
        ParallelEvent::TaskeesSpawned => match run.tasks {
            Some((first, _)) => action == (ParallelAction::SendTask { block_number: first }),
            None => action == ParallelAction::CloseTasks,
        },
        ParallelEvent::TaskSent => asked matches ParallelAction::SendTask { block_number: sent } && (
        run.tasks matches Some((_, last)) && if sent < last {
            action matches ParallelAction::SendTask { block_number } && block_number == sent + 1
        } else {
            action == ParallelAction::CloseTasks
        }),
        ParallelEvent::TaskSendFailed => asked matches ParallelAction::SendTask {
            block_number,
        } && action == ParallelAction::Finish(Err(ManyProverError::FailedToSendTask(block_number))),
        ParallelEvent::TasksClosed => action == ParallelAction::Start,
        ParallelEvent::Started(_) => action == ParallelAction::ReceiveResult,
        ParallelEvent::ResultReceived(_) => if has_time_limit(run) {
            action == ParallelAction::ReadTimer
        } else {
            keeps_result(run, events, action)
        },
        ParallelEvent::ResultFailed(_) => if has_time_limit(run) {
            action == ParallelAction::ReadTimer
        } else {
            action == ParallelAction::ReceiveResult
        },
        ParallelEvent::ResultsClosed => action == ParallelAction::StopTaskees,
        ParallelEvent::Elapsed(seconds) => match run.terminate_on {
            Some(TerminateOn::ElapsedSeconds { num_seconds }) => {
                if seconds >= num_seconds {
                    action == ParallelAction::StopTaskees
                } else if n > 1 && events[n - 2] is ResultReceived {
                    keeps_result(run, events, action)
                } else {
                    action == ParallelAction::ReceiveResult
                }
            },
            _ => false,
        },
        ParallelEvent::ProofWritten(duration) => run.storing_proof && stores_or_goes_on(
            run,
            events,
            Some(duration),
            action,
        ),
        ParallelEvent::ProofWriteFailed(error) => action == ParallelAction::Finish(
            Err(ManyProverError::ProofOutError(error)),
        ),
        ParallelEvent::Recorded => run.storing_benchmark && goes_on(run, events, action),
        ParallelEvent::TaskeesStopped => if run.storing_benchmark {
            action == ParallelAction::Publish
        } else {
            action == ParallelAction::JoinTaskees
        },
        ParallelEvent::Published => run.storing_benchmark && action == ParallelAction::JoinTaskees,
        ParallelEvent::PublishFailed => run.storing_benchmark && action
            == ParallelAction::JoinTaskees,
        ParallelEvent::TaskeesJoined => action == ParallelAction::Finish(Ok(())),
    }
}

/// What a run asks for next is what comes of what it was answered last, whatever it was answered.
pub proof fn law_what_is_asked_for_next(
    run: ParallelRun,
    spawn: ParallelAction,
    events: Seq<ParallelEvent>,
)
    requires
        crate::parallel_laws::untouched(run),
        crate::parallel_laws::accepted(run, events),
        spawn is SpawnTaskees,
        is_dialogue(run, events),
        events.len() > 0,
    ensures
        ({
            let actions = crate::parallel_laws::actions(run, events);
            let n = events.len() as int;
            let asked = if n == 1 {
                spawn
            } else {
                actions[n - 2]
            };
            comes_of(run, asked, events, actions[n - 1])
        }),
{
    let earlier = events.drop_last();
    lemma_dialogue_prefix(run, spawn, events);
    lemma_on_course(run, spawn, earlier);
    lemma_step(
        run,
        crate::parallel_laws::after(run, earlier),
        asked_last(run, spawn, earlier),
        earlier,
        events.last(),
    );
    assert(earlier.push(events.last()) =~= events);
}

/// What a run asked for last.
spec fn asked_last(
    run: ParallelRun,
    spawn: ParallelAction,
    events: Seq<ParallelEvent>,
) -> ParallelAction {
    if events.len() == 0 {
        spawn
    } else {
        crate::parallel_laws::actions(run, events).last()
    }
}

proof fn lemma_dialogue_prefix(
    run: ParallelRun,
    spawn: ParallelAction,
    events: Seq<ParallelEvent>,
)
    requires
        is_dialogue(run, events),
        spawn is SpawnTaskees,
        events.len() > 0,
    ensures
        is_dialogue(run, events.drop_last()),
        answers(asked_last(run, spawn, events.drop_last()), events.last()),
        crate::parallel_laws::actions(run, events).len() == events.len(),
        crate::parallel_laws::actions(run, events.drop_last()).len() == events.len() - 1,
        events.len() > 1 ==> asked_last(run, spawn, events.drop_last())
            == crate::parallel_laws::actions(run, events)[events.len() - 2],
{
    let earlier = events.drop_last();
    crate::parallel_laws::lemma_actions_len(run, events);
    crate::parallel_laws::lemma_actions_len(run, earlier);
    let actions = crate::parallel_laws::actions(run, events);
    let before = crate::parallel_laws::actions(run, earlier);
    assert forall|k: int| 0 < k < earlier.len() implies answers(
        before[k - 1],
        #[trigger] earlier[k],
    ) by {
        assert(before[k - 1] == actions[k - 1]);
        assert(answers(actions[k - 1], events[k]));
    }
    if events.len() > 1 {
        assert(answers(actions[events.len() - 2], events[events.len() - 1]));
    }
}

/// What the state of a run has to do with its course.
spec fn on_course(
    run: ParallelRun,
    now: ParallelRun,
    asked: ParallelAction,
    events: Seq<ParallelEvent>,
) -> bool {
    let started = match now.phase {
        ParallelPhase::Receiving { started } => Some(started),
        ParallelPhase::Judging { started, .. } => Some(started),
        ParallelPhase::Writing { started, .. } => Some(started),
        ParallelPhase::Recording { started } => Some(started),
        ParallelPhase::Timing { started } => Some(started),
        _ => None,
    };
    &&& now.terminate_on == run.terminate_on
    &&& now.tasks == run.tasks
    &&& now.storing_proof == run.storing_proof
    &&& now.storing_benchmark == run.storing_benchmark
    &&& started is Some ==> release(events) == started
    &&& !crate::parallel_laws::is_over(now.phase) ==> {
        &&& now.cumulative_block_gas == gas_received(events) - match now.phase {
            ParallelPhase::Judging { stats, .. } => stats.gas_used as int,
            _ => 0,
        }
        &&& now.cumulative_n_txs == txs_received(events) - match now.phase {
            ParallelPhase::Judging { stats, .. } => stats.n_txs as int,
            _ => 0,
        }
    }
    &&& match now.phase {
        ParallelPhase::Spawning => asked is SpawnTaskees,
        ParallelPhase::Queueing { next, last } => asked == (ParallelAction::SendTask {
            block_number: next,
        }) && (run.tasks matches Some((_, l)) && l == last && next <= last),
        ParallelPhase::Closing => asked is CloseTasks,
        ParallelPhase::Starting => asked is Start,
        ParallelPhase::Receiving { .. } => asked is ReceiveResult,
        ParallelPhase::Judging { stats, .. } => asked is ReadTimer && has_time_limit(run)
            && events.len() > 0 && events.last() == ParallelEvent::ResultReceived(stats),
        ParallelPhase::Writing { stats, .. } => asked is WriteProof && run.storing_proof
            && last_received(events) == Some(stats),
        ParallelPhase::Recording { .. } => asked is Record && run.storing_benchmark,
        ParallelPhase::Timing { .. } => asked is ReadTimer && has_time_limit(run) && events.len()
            > 0 && !(events.last() is ResultReceived),
        ParallelPhase::Stopping => asked is StopTaskees,
        ParallelPhase::Publishing => asked is Publish && run.storing_benchmark,
        ParallelPhase::Joining => asked is JoinTaskees,
        ParallelPhase::Finished => asked is Finish,
    }
}

proof fn lemma_elapsed(started: Timestamp, end: Timestamp)
    ensures
        0 <= crate::time::elapsed_seconds(started, end) <= u64::MAX,
        -0x8000_0000_0000_0000 * 1_000_000_000 < end@ - started@ < 0x8000_0000_0000_0000
            * 1_000_000_000 ==> crate::time::are_seconds_between(
            started,
            end,
            crate::time::elapsed_seconds(started, end),
        ),
{
    if -0x8000_0000_0000_0000 * 1_000_000_000 < end@ - started@ < 0x8000_0000_0000_0000
        * 1_000_000_000 {
        crate::time::law_elapsed_seconds_fit_between(started, end);
    }
}

/// What an answer makes of a run that waits for a result.
proof fn lemma_step_receiving(
    run: ParallelRun,
    now: ParallelRun,
    asked: ParallelAction,
    earlier: Seq<ParallelEvent>,
    told: ParallelEvent,
)
    requires
        on_course(run, now, asked, earlier),
        now.accepts(told),
        answers(asked, told),
        now.phase is Receiving,
    ensures
        on_course(run, now.next(told).0, now.next(told).1, earlier.push(told)),
        comes_of(run, asked, earlier.push(told), now.next(told).1),
{
    let events = earlier.push(told);
    assert(events.drop_last() =~= earlier);
    assert(events.last() == told);
    assert(events[events.len() - 1] == told);
    if let ParallelEvent::ResultReceived(stats) = told {
        lemma_elapsed(now.phase->Receiving_started, stats.end_time);
    }
}

/// What an answer makes of a run that deals with a result.
proof fn lemma_step_dealing(
    run: ParallelRun,
    now: ParallelRun,
    asked: ParallelAction,
    earlier: Seq<ParallelEvent>,
    told: ParallelEvent,
)
    requires
        on_course(run, now, asked, earlier),
        now.accepts(told),
        answers(asked, told),
        now.phase is Judging || now.phase is Writing,
    ensures
        on_course(run, now.next(told).0, now.next(told).1, earlier.push(told)),
        comes_of(run, asked, earlier.push(told), now.next(told).1),
{
    let events = earlier.push(told);
    assert(events.drop_last() =~= earlier);
    assert(events.last() == told);
    assert(events[events.len() - 1] == told);
    assert(earlier.len() > 0 ==> events[events.len() - 2] == earlier.last());
    match now.phase {
        ParallelPhase::Judging { started, stats } => {
            lemma_elapsed(started, stats.end_time);
        },
        ParallelPhase::Writing { started, stats } => {
            lemma_elapsed(started, stats.end_time);
        },
        _ => {},
    }
}

/// What an answer makes of a run that neither waits for a result nor deals with one.
proof fn lemma_step_rest(
    run: ParallelRun,
    now: ParallelRun,
    asked: ParallelAction,
    earlier: Seq<ParallelEvent>,
    told: ParallelEvent,
)
    requires
        crate::parallel_laws::untouched(run),
        on_course(run, now, asked, earlier),
        now.accepts(told),
        answers(asked, told),
        !(now.phase is Receiving),
        !(now.phase is Judging),
        !(now.phase is Writing),
    ensures
        on_course(run, now.next(told).0, now.next(told).1, earlier.push(told)),
        comes_of(run, asked, earlier.push(told), now.next(told).1),
{
    let events = earlier.push(told);
    assert(events.drop_last() =~= earlier);
    assert(events.last() == told);
    assert(events[events.len() - 1] == told);
    assert(earlier.len() > 0 ==> events[events.len() - 2] == earlier.last());
}

/// What an answer makes of a run that is on its course.
proof fn lemma_step(
    run: ParallelRun,
    now: ParallelRun,
    asked: ParallelAction,
    earlier: Seq<ParallelEvent>,
    told: ParallelEvent,
)
    requires
        crate::parallel_laws::untouched(run),
        on_course(run, now, asked, earlier),
        now.accepts(told),
        answers(asked, told),
    ensures
        on_course(run, now.next(told).0, now.next(told).1, earlier.push(told)),
        comes_of(run, asked, earlier.push(told), now.next(told).1),
{
    match now.phase {
        ParallelPhase::Receiving { .. } => {
            lemma_step_receiving(run, now, asked, earlier, told);
        },
        ParallelPhase::Judging { .. } | ParallelPhase::Writing { .. } => {
            lemma_step_dealing(run, now, asked, earlier, told);
        },
        _ => {
            lemma_step_rest(run, now, asked, earlier, told);
        },
    }
}

proof fn lemma_on_course(run: ParallelRun, spawn: ParallelAction, events: Seq<ParallelEvent>)
    requires
        crate::parallel_laws::untouched(run),
        crate::parallel_laws::accepted(run, events),
        spawn is SpawnTaskees,
        is_dialogue(run, events),
    ensures
        on_course(
            run,
            crate::parallel_laws::after(run, events),
            asked_last(run, spawn, events),
            events,
        ),
    decreases events.len(),
{
    if events.len() > 0 {
        let earlier = events.drop_last();
        lemma_dialogue_prefix(run, spawn, events);
        lemma_on_course(run, spawn, earlier);
        lemma_step(
            run,
            crate::parallel_laws::after(run, earlier),
            asked_last(run, spawn, earlier),
            earlier,
            events.last(),
        );
        assert(earlier.push(events.last()) =~= events);
    }
}

/// Whether a run in this phase waits for this event.
pub open spec fn is_waited_for(phase: ParallelPhase, event: ParallelEvent) -> bool {
    match phase {
        ParallelPhase::Spawning => event is TaskeesSpawned,
        ParallelPhase::Queueing { .. } => event is TaskSent || event is TaskSendFailed,
        ParallelPhase::Closing => event is TasksClosed,
        ParallelPhase::Starting => event is Started,
        ParallelPhase::Receiving { .. } => event is ResultReceived || event is ResultFailed || event
            is ResultsClosed,
        ParallelPhase::Judging { .. } => event is Elapsed,
        ParallelPhase::Timing { .. } => event is Elapsed,
        ParallelPhase::Writing { .. } => event is ProofWritten || event is ProofWriteFailed,
        ParallelPhase::Recording { .. } => event is Recorded,
        ParallelPhase::Stopping => event is TaskeesStopped,
        ParallelPhase::Publishing => event is Published || event is PublishFailed,
        ParallelPhase::Joining => event is TaskeesJoined,
        ParallelPhase::Finished => false,
    }
}

/// An event that is not waited for changes nothing, and is always taken in.
pub proof fn law_other_events_do_not_matter(run: ParallelRun, event: ParallelEvent)
    ensures
        !is_waited_for(run.phase, event) ==> {
            &&& run.next(event) == (run, ParallelAction::Ignore)
            &&& run.accepts(event)
        },
        is_waited_for(run.phase, event) ==> !(run.next(event).1 is Ignore),
{
}

/// Nothing is refused but a sum that does not fit: an event is taken in unless it makes a result count
/// whose gas or number of transactions makes the sums too large.
pub proof fn law_what_is_refused(run: ParallelRun, event: ParallelEvent)
    ensures
        run.accepts(event) <==> match (run.phase, event) {
            (ParallelPhase::Receiving { .. }, ParallelEvent::ResultReceived(stats)) => {
                ||| has_time_limit(run)
                ||| run.cumulative_block_gas + stats.gas_used <= u64::MAX && run.cumulative_n_txs
                    + stats.n_txs <= u64::MAX
            },
            (ParallelPhase::Judging { stats, .. }, ParallelEvent::Elapsed(seconds)) => {
                ||| (run.terminate_on matches Some(TerminateOn::ElapsedSeconds { num_seconds })
                    && seconds >= num_seconds)
                ||| run.cumulative_block_gas + stats.gas_used <= u64::MAX && run.cumulative_n_txs
                    + stats.n_txs <= u64::MAX
            },
            _ => true,
        },
{
}

/// The taskees are stopped only for a reason that the events give: no result is left, a timer reading
/// is at the limit or above, or the gas sum that the run holds has reached what was asked for.
pub proof fn law_taskees_are_stopped_for_a_reason(run: ParallelRun, event: ParallelEvent)
    requires
        run.next(event).1 == ParallelAction::StopTaskees,
    ensures
        ({
            ||| event is ResultsClosed
            ||| (event matches ParallelEvent::Elapsed(seconds) && (run.terminate_on matches Some(
                TerminateOn::ElapsedSeconds { num_seconds },
            ) && seconds >= num_seconds))
            ||| (run.terminate_on matches Some(TerminateOn::BlockGasUsed { until_gas_sum })
                && run.next(event).0.cumulative_block_gas >= until_gas_sum)
        }),
{
}

} // verus!
