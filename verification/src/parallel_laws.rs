//! What holds of every parallel run, whatever happens to it.

use vstd::prelude::*;

use crate::benchmarking::BenchmarkingStats;
use crate::input::TerminateOn;
use crate::manyprover::ManyProverError;
use crate::parallel::{ParallelAction, ParallelEvent, ParallelPhase, ParallelRun};
use crate::time::Timestamp;

verus! {

/// A run that has only just asked for its taskees.
pub open spec fn untouched(run: ParallelRun) -> bool {
    &&& run.cumulative_block_gas == 0
    &&& run.cumulative_n_txs == 0
    &&& run.phase is Spawning
    &&& (run.tasks matches Some((first, last)) ==> first <= last)
}

/// What a run has come to after these events.
pub open spec fn after(run: ParallelRun, events: Seq<ParallelEvent>) -> ParallelRun
    decreases events.len(),
{
    if events.len() == 0 {
        run
    } else {
        after(run, events.drop_last()).next(events.last()).0
    }
}

/// What a run wanted done after each of these events.
pub open spec fn actions(run: ParallelRun, events: Seq<ParallelEvent>) -> Seq<ParallelAction>
    decreases events.len(),
{
    if events.len() == 0 {
        Seq::empty()
    } else {
        actions(run, events.drop_last()).push(
            after(run, events.drop_last()).next(events.last()).1,
        )
    }
}

/// Whether every event could be taken in when it came.
pub open spec fn accepted(run: ParallelRun, events: Seq<ParallelEvent>) -> bool
    decreases events.len(),
{
    events.len() > 0 ==> {
        &&& accepted(run, events.drop_last())
        &&& after(run, events.drop_last()).accepts(events.last())
    }
}

/// Results that were kept, and one more if the event makes it count.
pub open spec fn with_result(
    now: ParallelRun,
    results: Seq<BenchmarkingStats>,
    event: ParallelEvent,
) -> Seq<BenchmarkingStats> {
    match now.keeps(event) {
        Some(stats) => results.push(stats),
        None => results,
    }
}

/// The results that the run kept, first to last: those that came in time.
pub open spec fn kept(run: ParallelRun, events: Seq<ParallelEvent>) -> Seq<BenchmarkingStats>
    decreases events.len(),
{
    if events.len() == 0 {
        Seq::empty()
    } else {
        with_result(
            after(run, events.drop_last()),
            kept(run, events.drop_last()),
            events.last(),
        )
    }
}

/// When the taskees were released, once they were.
pub open spec fn released(run: ParallelRun, events: Seq<ParallelEvent>) -> Option<Timestamp>
    decreases events.len(),
{
    if events.len() == 0 {
        None
    } else {
        match (after(run, events.drop_last()).phase, events.last()) {
            (ParallelPhase::Starting, ParallelEvent::Started(started)) => Some(started),
            _ => released(run, events.drop_last()),
        }
    }
}

/// Whether a run that waited for a result was told that there is none left.
pub open spec fn exhausted(run: ParallelRun, events: Seq<ParallelEvent>) -> bool
    decreases events.len(),
{
    events.len() > 0 && {
        ||| exhausted(run, events.drop_last())
        ||| after(run, events.drop_last()).phase is Receiving && events.last() is ResultsClosed
    }
}

/// Whether the run found its time to be up.
pub open spec fn timed_out(run: ParallelRun, events: Seq<ParallelEvent>) -> bool
    decreases events.len(),
{
    events.len() > 0 && (timed_out(run, events.drop_last()) || finds_time_up(
        after(run, events.drop_last()),
        events.last(),
    ))
}

/// Whether an event tells a run that its time is up.
pub open spec fn finds_time_up(now: ParallelRun, event: ParallelEvent) -> bool {
    &&& now.phase is Judging || now.phase is Timing
    &&& (event matches ParallelEvent::Elapsed(seconds) && now.time_up(seconds))
}

/// The blocks that the actions queue, first to last.
pub open spec fn queued(actions: Seq<ParallelAction>) -> Seq<u64>
    decreases actions.len(),
{
    if actions.len() == 0 {
        Seq::empty()
    } else {
        match actions.last() {
            ParallelAction::SendTask { block_number } => queued(actions.drop_last()).push(
                block_number,
            ),
            _ => queued(actions.drop_last()),
        }
    }
}

/// The statistics among the actions, first to last.
pub open spec fn recorded(actions: Seq<ParallelAction>) -> Seq<BenchmarkingStats>
    decreases actions.len(),
{
    if actions.len() == 0 {
        Seq::empty()
    } else {
        match actions.last() {
            ParallelAction::Record(stats) => recorded(actions.drop_last()).push(stats),
            _ => recorded(actions.drop_last()),
        }
    }
}

/// The blocks whose proof the actions put out, first to last.
pub open spec fn written(actions: Seq<ParallelAction>) -> Seq<u64>
    decreases actions.len(),
{
    if actions.len() == 0 {
        Seq::empty()
    } else {
        match actions.last() {
            ParallelAction::WriteProof { block_number } => written(actions.drop_last()).push(
                block_number,
            ),
            _ => written(actions.drop_last()),
        }
    }
}

/// The gas of blocks, summed up.
pub open spec fn gas_sum(results: Seq<BenchmarkingStats>) -> int
    decreases results.len(),
{
    if results.len() == 0 {
        0
    } else {
        gas_sum(results.drop_last()) + results.last().gas_used
    }
}

/// The number of transactions of blocks, summed up.
pub open spec fn txs_sum(results: Seq<BenchmarkingStats>) -> int
    decreases results.len(),
{
    if results.len() == 0 {
        0
    } else {
        txs_sum(results.drop_last()) + results.last().n_txs
    }
}

/// The first block that the run is to queue, if there is any.
pub open spec fn first_task(run: ParallelRun) -> int {
    match run.tasks {
        Some((first, _)) => first as int,
        None => 0,
    }
}

/// How many blocks the run is to queue.
pub open spec fn task_count(run: ParallelRun) -> int {
    match run.tasks {
        Some((first, last)) => last - first + 1,
        None => 0,
    }
}

/// Whether the sum of gas is reached with the last of the results and not before.
pub open spec fn gas_just_reached(until_gas_sum: u64, results: Seq<BenchmarkingStats>) -> bool {
    &&& results.len() > 0
    &&& gas_sum(results) >= until_gas_sum
    &&& results.len() > 1 ==> gas_sum(results.drop_last()) < until_gas_sum
}

/// Whether a run that is not exhausted has a reason to end.
pub open spec fn may_end(
    run: ParallelRun,
    results: Seq<BenchmarkingStats>,
    timed_out: bool,
) -> bool {
    match run.terminate_on {
        Some(TerminateOn::ElapsedSeconds { .. }) => timed_out,
        Some(TerminateOn::BlockGasUsed { until_gas_sum }) => gas_just_reached(
            until_gas_sum,
            results,
        ),
        _ => false,
    }
}

/// What the `i`-th statistics that are stored say, given the results and the time of release.
pub open spec fn stats_fit(
    run: ParallelRun,
    started: Timestamp,
    results: Seq<BenchmarkingStats>,
    stats: BenchmarkingStats,
    i: int,
) -> bool {
    &&& stats == crate::benchmarking::stats_in_run(
        results[i],
        txs_sum(results.take(i + 1)) as u64,
        gas_sum(results.take(i + 1)) as u64,
        crate::time::elapsed_seconds(started, results[i].end_time) as u64,
        stats.proof_out_duration,
    )
    &&& txs_sum(results.take(i + 1)) <= u64::MAX
    &&& gas_sum(results.take(i + 1)) <= u64::MAX
    &&& stats.proof_out_duration is Some <==> run.storing_proof
}

/// Whether nothing is left to do but to stop the taskees and to publish what was stored.
pub open spec fn is_over(phase: ParallelPhase) -> bool {
    phase is Stopping || phase is Publishing || phase is Joining || phase is Finished
}

/// The time of release that a phase knows.
spec fn start_of(phase: ParallelPhase) -> Option<Timestamp> {
    match phase {
        ParallelPhase::Receiving { started } => Some(started),
        ParallelPhase::Judging { started, .. } => Some(started),
        ParallelPhase::Writing { started, .. } => Some(started),
        ParallelPhase::Recording { started } => Some(started),
        ParallelPhase::Timing { started } => Some(started),
        _ => None,
    }
}

/// What holds of a run at every moment.
spec fn steady(
    run: ParallelRun,
    now: ParallelRun,
    done: Seq<ParallelAction>,
    results: Seq<BenchmarkingStats>,
    started: Option<Timestamp>,
    empty: bool,
    timed_out: bool,
) -> bool {
    let tasks = queued(done);
    let records = recorded(done);
    let outs = written(done);
    let behind: int = if now.phase is Writing {
        1
    } else {
        0
    };
    &&& untouched(run)
    &&& now.terminate_on == run.terminate_on
    &&& now.tasks == run.tasks
    &&& now.storing_proof == run.storing_proof
    &&& now.storing_benchmark == run.storing_benchmark
    &&& now.cumulative_block_gas == gas_sum(results)
    &&& now.cumulative_n_txs == txs_sum(results)
    &&& tasks.len() <= task_count(run)
    &&& forall|i: int| 0 <= i < tasks.len() ==> #[trigger] tasks[i] == first_task(run) + i
    &&& now.phase is Spawning ==> tasks.len() == 0
    &&& (now.phase matches ParallelPhase::Queueing { next, last } ==> {
        &&& run.tasks matches Some((f, l))
        &&& last == l
        &&& f <= next <= l
        &&& tasks.len() == next - f + 1
    })
    &&& !(now.phase is Spawning) && !(now.phase is Queueing) && !(now.phase is Finished)
        ==> tasks.len() == task_count(run)
    &&& done.contains(ParallelAction::CloseTasks) ==> tasks.len() == task_count(run) && !(
    now.phase is Queueing) && !(now.phase is Spawning)
    &&& (start_of(now.phase) is Some ==> started == start_of(now.phase))
    &&& (now.phase is Spawning || now.phase is Queueing || now.phase is Closing || now.phase
        is Starting ==> started is None)
    &&& (started is None ==> results.len() == 0)
    &&& outs.len() == if run.storing_proof {
        results.len()
    } else {
        0
    }
    &&& forall|i: int| 0 <= i < outs.len() ==> #[trigger] outs[i] == results[i].block_number
    &&& records.len() <= results.len()
    &&& !run.storing_benchmark ==> records.len() == 0
    &&& run.storing_benchmark && !(now.phase is Finished) ==> records.len() == results.len()
        - behind
    &&& (records.len() > 0 ==> started is Some)
    &&& forall|i: int|
        0 <= i < records.len() ==> stats_fit(run, started->0, results, #[trigger] records[i], i)
    &&& (now.phase matches ParallelPhase::Writing { stats, .. } ==> {
        &&& run.storing_proof
        &&& results.len() > 0
        &&& stats == results.last()
    })
    &&& now.phase is Recording ==> run.storing_benchmark && results.len() > 0
    &&& now.phase is Publishing ==> run.storing_benchmark
    &&& now.phase is Timing || now.phase is Judging ==> run.is_timed()
    &&& timed_out ==> run.is_timed() && is_over(now.phase)
    &&& (run.terminate_on matches Some(TerminateOn::BlockGasUsed { until_gas_sum }) ==> {
        &&& now.phase is Receiving && results.len() > 0 ==> gas_sum(results) < until_gas_sum
        &&& (now.phase is Writing || now.phase is Recording) && results.len() > 1 ==> gas_sum(
            results.drop_last(),
        ) < until_gas_sum
    })
    &&& now.phase is Stopping || now.phase is Publishing || now.phase is Joining ==> empty
        || may_end(run, results, timed_out)
    &&& empty ==> is_over(now.phase)
    &&& done.contains(ParallelAction::Finish(Ok(()))) ==> {
        &&& now.phase is Finished
        &&& empty || may_end(run, results, timed_out)
        &&& tasks.len() == task_count(run)
        &&& run.storing_benchmark ==> records.len() == results.len()
    }
}

proof fn lemma_contains_push(done: Seq<ParallelAction>, action: ParallelAction, sought: ParallelAction)
    ensures
        done.push(action).contains(sought) <==> done.contains(sought) || action == sought,
{
    if done.contains(sought) {
        let k = choose|k: int| 0 <= k < done.len() && done[k] == sought;
        assert(done.push(action)[k] == sought);
    }
    if action == sought {
        assert(done.push(action)[done.len() as int] == sought);
    }
}

proof fn lemma_steady(run: ParallelRun, events: Seq<ParallelEvent>)
    requires
        untouched(run),
        accepted(run, events),
    ensures
        steady(
            run,
            after(run, events),
            actions(run, events),
            kept(run, events),
            released(run, events),
            exhausted(run, events),
            timed_out(run, events),
        ),
    decreases events.len(),
{
    if events.len() > 0 {
        let earlier = events.drop_last();
        lemma_steady(run, earlier);
        let now = after(run, earlier);
        let done = actions(run, earlier);
        let results = kept(run, earlier);
        let (later, action) = now.next(events.last());
        let later_done = done.push(action);
        let later_results = with_result(now, results, events.last());
        assert(later_done.drop_last() =~= done);
        assert(later_done.last() == action);
        assert(queued(later_done) == match action {
            ParallelAction::SendTask { block_number } => queued(done).push(block_number),
            _ => queued(done),
        });
        assert(written(later_done) == match action {
            ParallelAction::WriteProof { block_number } => written(done).push(block_number),
            _ => written(done),
        });
        assert(recorded(later_done) == match action {
            ParallelAction::Record(stats) => recorded(done).push(stats),
            _ => recorded(done),
        });
        lemma_contains_push(done, action, ParallelAction::Finish(Ok(())));
        lemma_contains_push(done, action, ParallelAction::CloseTasks);
        if now.keeps(events.last()) is Some {
            assert(later_results.drop_last() =~= results);
        }
        assert forall|i: int| 0 <= i < recorded(later_done).len() implies stats_fit(
            run,
            released(run, events)->0,
            later_results,
            #[trigger] recorded(later_done)[i],
            i,
        ) by {
            if i < recorded(done).len() {
                assert(stats_fit(run, released(run, earlier)->0, results, recorded(done)[i], i));
                assert(later_results.take(i + 1) =~= results.take(i + 1));
            } else {
                assert(later_results.take(i + 1) =~= later_results);
            }
        }
    }
}

/// The blocks that are queued are the first, the second and so on, none left out and none past the
/// last; when the queue is closed all of them have been queued.
pub proof fn law_tasks_cover_the_range(run: ParallelRun, events: Seq<ParallelEvent>)
    requires
        untouched(run),
        accepted(run, events),
    ensures
        queued(actions(run, events)).len() <= task_count(run),
        forall|i: int|
            0 <= i < queued(actions(run, events)).len() ==> #[trigger] queued(
                actions(run, events),
            )[i] == first_task(run) + i,
        actions(run, events).contains(ParallelAction::CloseTasks) ==> queued(
            actions(run, events),
        ).len() == task_count(run),
{
    lemma_steady(run, events);
}

/// If proofs are put out, that of every block whose result came in time is, in the order in which
/// the results came.
pub proof fn law_every_proof_is_put_out(run: ParallelRun, events: Seq<ParallelEvent>)
    requires
        untouched(run),
        accepted(run, events),
        run.storing_proof,
    ensures
        written(actions(run, events)).len() == kept(run, events).len(),
        forall|i: int|
            0 <= i < kept(run, events).len() ==> #[trigger] written(actions(run, events))[i]
                == kept(run, events)[i].block_number,
{
    lemma_steady(run, events);
}

/// The statistics that are stored are those of the results that came in time, in the order in which
/// they came, none left out; their cumulative figures are the sums over the results up to and including their own.
pub proof fn law_statistics_add_up(run: ParallelRun, events: Seq<ParallelEvent>)
    requires
        untouched(run),
        accepted(run, events),
    ensures
        recorded(actions(run, events)).len() <= kept(run, events).len(),
        recorded(actions(run, events)).len() > 0 ==> released(run, events) is Some,
        forall|i: int|
            0 <= i < recorded(actions(run, events)).len() ==> stats_fit(
                run,
                released(run, events)->0,
                kept(run, events),
                #[trigger] recorded(actions(run, events))[i],
                i,
            ),
{
    lemma_steady(run, events);
}

/// A run that ends well has queued every block, and has stored the statistics of every result that
/// came in time if statistics were asked for; either there was no result left, or its time was found
/// to be up, or the gas was reached, with its last result and not before.
pub proof fn law_ends_for_a_reason(run: ParallelRun, events: Seq<ParallelEvent>)
    requires
        untouched(run),
        accepted(run, events),
        actions(run, events).contains(ParallelAction::Finish(Ok(()))),
    ensures
        queued(actions(run, events)).len() == task_count(run),
        run.storing_benchmark ==> recorded(actions(run, events)).len() == kept(
            run,
            events,
        ).len(),
        exhausted(run, events) || may_end(
            run,
            kept(run, events),
            timed_out(run, events),
        ),
{
    lemma_steady(run, events);
}

/// With a sum of gas to reach, another result is awaited only while the results so far fall short
/// of the sum.
pub proof fn law_gas_sum_ends_run(
    run: ParallelRun,
    until_gas_sum: u64,
    events: Seq<ParallelEvent>,
)
    requires
        untouched(run),
        accepted(run, events),
        run.terminate_on == Some(TerminateOn::BlockGasUsed { until_gas_sum }),
    ensures
        after(run, events).phase is Receiving && kept(run, events).len() > 0 ==> gas_sum(
            kept(run, events),
        ) < until_gas_sum,
{
    lemma_steady(run, events);
}

proof fn lemma_action_at(run: ParallelRun, events: Seq<ParallelEvent>, k: int)
    requires
        0 <= k < events.len(),
    ensures
        actions(run, events).len() == events.len(),
        actions(run, events)[k] == after(run, events.take(k)).next(events[k]).1,
        after(run, events.take(k + 1)) == after(run, events.take(k)).next(events[k]).0,
    decreases events.len(),
{
    lemma_actions_len(run, events);
    lemma_actions_len(run, events.drop_last());
    assert(events.take(k + 1).drop_last() =~= events.take(k));
    if k < events.len() - 1 {
        lemma_action_at(run, events.drop_last(), k);
        assert(events.drop_last().take(k) =~= events.take(k));
        assert(events.drop_last().take(k + 1) =~= events.take(k + 1));
    } else {
        assert(events.drop_last() =~= events.take(k));
    }
}

pub(crate) proof fn lemma_actions_len(run: ParallelRun, events: Seq<ParallelEvent>)
    ensures
        actions(run, events).len() == events.len(),
    decreases events.len(),
{
    if events.len() > 0 {
        lemma_actions_len(run, events.drop_last());
    }
}

proof fn lemma_accepted_prefix(run: ParallelRun, events: Seq<ParallelEvent>, k: int)
    requires
        0 <= k <= events.len(),
        accepted(run, events),
    ensures
        accepted(run, events.take(k)),
    decreases events.len(),
{
    if k < events.len() {
        assert(events.drop_last().take(k) =~= events.take(k));
        lemma_accepted_prefix(run, events.drop_last(), k);
    } else {
        assert(events.take(k) =~= events);
    }
}

/// With a limit of time, a proof is put out or, where none are put out, recorded only right after it
/// was found that the time is not up, and so it is with awaiting any result after the first; once
/// the time is found to be up the run is over.
pub proof fn law_time_limit(
    run: ParallelRun,
    num_seconds: u64,
    events: Seq<ParallelEvent>,
    k: int,
)
    requires
        untouched(run),
        accepted(run, events),
        run.terminate_on == Some(TerminateOn::ElapsedSeconds { num_seconds }),
        0 <= k < events.len(),
    ensures
        actions(run, events)[k] is WriteProof || (!run.storing_proof && actions(run, events)[k]
            is Record) ==> (events[k] matches ParallelEvent::Elapsed(s) && s < num_seconds),
        actions(run, events)[k] is Record && run.storing_proof ==> events[k] is ProofWritten,
        actions(run, events)[k] is ReceiveResult ==> match events[k] {
            ParallelEvent::Elapsed(s) => s < num_seconds,
            ParallelEvent::Started(_) => after(run, events.take(k)).phase is Starting,
            _ => false,
        },
        finds_time_up(after(run, events.take(k)), events[k]) ==> is_over(
            after(run, events.take(k + 1)).phase,
        ),
{
    lemma_action_at(run, events, k);
    lemma_accepted_prefix(run, events, k);
    lemma_steady(run, events.take(k));
}

/// Whether `clock` tells, for each event, how many whole seconds after the release of the taskees it
/// came, and the timer readings among the events are true.
pub open spec fn keeps_time(events: Seq<ParallelEvent>, clock: Seq<int>) -> bool {
    &&& clock.len() == events.len()
    &&& forall|i: int, j: int| 0 <= i <= j < clock.len() ==> clock[i] <= clock[j]
    &&& forall|k: int|
        0 <= k < events.len() ==> (#[trigger] events[k] matches ParallelEvent::Elapsed(seconds)
            ==> seconds == clock[k])
}

/// Whether an action works on a block, or waits for one.
pub open spec fn works_on_block(action: ParallelAction) -> bool {
    action is SendTask || action is ReceiveResult || action is WriteProof || action is Record
}

/// With a limit of time, a result that comes once the time is up is neither put out nor recorded,
/// nor is any result after it, and none is awaited after it.  A proof that is finished once the time
/// is up is the proof of such a result, as no result comes before its proof is finished.
pub proof fn law_late_proofs_are_not_recorded(
    run: ParallelRun,
    num_seconds: u64,
    events: Seq<ParallelEvent>,
    clock: Seq<int>,
    k: int,
)
    requires
        untouched(run),
        accepted(run, events),
        run.terminate_on == Some(TerminateOn::ElapsedSeconds { num_seconds }),
        keeps_time(events, clock),
        0 <= k < events.len(),
        after(run, events.take(k)).phase is Receiving,
        events[k] is ResultReceived || events[k] is ResultFailed,
        clock[k] >= num_seconds,
    ensures
        forall|j: int|
            k <= j < actions(run, events).len() ==> !works_on_block(
                #[trigger] actions(run, events)[j],
            ),
{
    lemma_actions_len(run, events);
    assert forall|j: int| k <= j < actions(run, events).len() implies !works_on_block(
        #[trigger] actions(run, events)[j],
    ) by {
        lemma_late_result_waits_or_over(run, num_seconds, events, clock, k, j);
    }
}

/// After a late result a run waits for the timer or is over.
proof fn lemma_late_result_waits_or_over(
    run: ParallelRun,
    num_seconds: u64,
    events: Seq<ParallelEvent>,
    clock: Seq<int>,
    k: int,
    j: int,
)
    requires
        untouched(run),
        accepted(run, events),
        run.terminate_on == Some(TerminateOn::ElapsedSeconds { num_seconds }),
        keeps_time(events, clock),
        0 <= k <= j < events.len(),
        after(run, events.take(k)).phase is Receiving,
        events[k] is ResultReceived || events[k] is ResultFailed,
        clock[k] >= num_seconds,
    ensures
        ({
            let phase = after(run, events.take(j + 1)).phase;
            phase is Judging || phase is Timing || is_over(phase)
        }),
        !works_on_block(actions(run, events)[j]),
    decreases j,
{
    lemma_action_at(run, events, j);
    lemma_accepted_prefix(run, events, j);
    lemma_steady(run, events.take(j));
    if k < j {
        lemma_late_result_waits_or_over(run, num_seconds, events, clock, k, j - 1);
        assert(clock[k] <= clock[j]);
    }
}

/// Whether each result that was kept is of a block that was queued, and no two are of the same block.
/// [crate::crew_laws::law_results_are_of_tasks] shows that this is so of every run with its taskees.
pub open spec fn results_are_of_tasks(run: ParallelRun, events: Seq<ParallelEvent>) -> bool {
    let results = kept(run, events);
    &&& forall|i: int|
        0 <= i < results.len() ==> queued(actions(run, events)).contains(
            (#[trigger] results[i]).block_number,
        )
    &&& forall|i: int, j: int|
        0 <= i < j < results.len() ==> (#[trigger] results[i]).block_number != (
        #[trigger] results[j]).block_number
}

/// Each result being of a queued block, and none coming twice, the statistics that are stored are of
/// blocks from the first to the last that the run is to queue, and no block has two of them.
pub proof fn law_recorded_blocks_are_distinct_tasks(run: ParallelRun, events: Seq<ParallelEvent>)
    requires
        untouched(run),
        accepted(run, events),
        results_are_of_tasks(run, events),
    ensures
        forall|i: int|
            #![trigger recorded(actions(run, events))[i]]
            0 <= i < recorded(actions(run, events)).len() ==> (run.tasks matches Some((first, last))
                && first <= recorded(actions(run, events))[i].block_number <= last),
        forall|i: int, j: int|
            0 <= i < j < recorded(actions(run, events)).len() ==> (#[trigger] recorded(
                actions(run, events),
            )[i]).block_number != (#[trigger] recorded(actions(run, events))[j]).block_number,
{
    lemma_steady(run, events);
    let records = recorded(actions(run, events));
    let results = kept(run, events);
    let tasks = queued(actions(run, events));
    assert forall|i: int| 0 <= i < records.len() implies (#[trigger] records[i]).block_number
        == results[i].block_number && (run.tasks matches Some((first, last)) && first
        <= records[i].block_number <= last) by {
        assert(stats_fit(run, released(run, events)->0, results, records[i], i));
        assert(tasks.contains(results[i].block_number));
        let t = choose|t: int| 0 <= t < tasks.len() && tasks[t] == results[i].block_number;
        assert(tasks[t] == first_task(run) + t);
    }
}

/// Once a run is over it stays so: no block is queued, no result awaited, no proof
/// put out and nothing recorded any more.
pub proof fn law_over_is_over(run: ParallelRun, event: ParallelEvent)
    requires
        is_over(run.phase),
    ensures
        is_over(run.next(event).0.phase),
        !(run.next(event).1 is SendTask),
        !(run.next(event).1 is ReceiveResult),
        !(run.next(event).1 is WriteProof),
        !(run.next(event).1 is Record),
{
}

/// A run asks for its taskees when it begins and for no more of them later.
pub proof fn law_taskees_are_spawned_once(run: ParallelRun, event: ParallelEvent)
    ensures
        !(run.next(event).1 is SpawnTaskees),
{
}

/// A block that could not be proved changes nothing but that the next result is awaited; with a limit
/// of time, only once it was found that the time is not up.
pub proof fn law_failed_blocks_are_skipped(run: ParallelRun, error: ManyProverError, seconds: u64)
    requires
        run.phase is Receiving,
    ensures
        !run.is_timed() ==> run.next(ParallelEvent::ResultFailed(error)) == (
            run,
            ParallelAction::ReceiveResult,
        ),
        run.is_timed() ==> {
            let (waiting, action) = run.next(ParallelEvent::ResultFailed(error));
            &&& action is ReadTimer
            &&& waiting.next(ParallelEvent::Elapsed(seconds)) == if run.time_up(seconds) {
                run.stopping()
            } else {
                (run, ParallelAction::ReceiveResult)
            }
        },
{
}

/// A run fails exactly if a block cannot be queued or a proof cannot be put out, and then at once.
pub proof fn law_when_runs_fail(run: ParallelRun, event: ParallelEvent)
    ensures
        run.next(event).1 matches ParallelAction::Finish(Err(error)) ==> run.next(event).0.phase
            is Finished && match (run.phase, event) {
            (ParallelPhase::Queueing { next, .. }, ParallelEvent::TaskSendFailed) => error
                == ManyProverError::FailedToSendTask(next),
            (ParallelPhase::Writing { .. }, ParallelEvent::ProofWriteFailed(e)) => error
                == ManyProverError::ProofOutError(e),
            _ => false,
        },
        run.phase is Queueing && event is TaskSendFailed ==> run.next(event).1 is Finish,
        run.phase is Writing && event is ProofWriteFailed ==> run.next(event).1 is Finish,
{
}

/// Whether publishing works out or not, the run ends in the same way.
pub proof fn law_publishing_does_not_matter(run: ParallelRun)
    requires
        run.phase is Publishing,
    ensures
        run.next(ParallelEvent::Published) == run.next(ParallelEvent::PublishFailed),
        run.next(ParallelEvent::Published).1 is JoinTaskees,
        run.next(ParallelEvent::Published).0.next(ParallelEvent::TaskeesJoined).1
            == ParallelAction::Finish(Ok(())),
{
}

/// Proofs are put out only if that was asked for, and statistics are stored and published only if
/// that was asked for.
pub proof fn law_stored_only_if_asked_for(run: ParallelRun, event: ParallelEvent)
    ensures
        run.next(event).1 is WriteProof ==> run.storing_proof,
        run.next(event).1 is Record ==> run.storing_benchmark,
        run.next(event).1 is Publish ==> run.storing_benchmark,
{
}

} // verus!
