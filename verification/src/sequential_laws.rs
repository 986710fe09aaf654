//! What holds of every sequential run, whatever happens to it.

use vstd::prelude::*;

use crate::benchmarking::{BenchmarkingStats, BlockFigures};
use crate::input::TerminateOn;
use crate::manyprover::ManyProverError;
use crate::sequential::{SequentialAction, SequentialEvent, SequentialPhase, SequentialRun};

verus! {

/// A run that has been given nothing to do yet.
pub open spec fn untouched(run: SequentialRun) -> bool {
    &&& run.block_number == run.first_block
    &&& run.cumulative_block_gas == 0
    &&& run.cumulative_n_txs == 0
    &&& run.previous is None
    &&& run.phase is Finished
}

/// What a run has come to after these events.
pub open spec fn after(run: SequentialRun, events: Seq<SequentialEvent>) -> SequentialRun
    decreases events.len(),
{
    if events.len() == 0 {
        run.deciding().0
    } else {
        after(run, events.drop_last()).next(events.last()).0
    }
}

/// What a run wanted done, first to last.
pub open spec fn actions(run: SequentialRun, events: Seq<SequentialEvent>) -> Seq<SequentialAction>
    decreases events.len(),
{
    if events.len() == 0 {
        seq![run.deciding().1]
    } else {
        actions(run, events.drop_last()).push(
            after(run, events.drop_last()).next(events.last()).1,
        )
    }
}

/// Whether every event could be taken in when it came.
pub open spec fn accepted(run: SequentialRun, events: Seq<SequentialEvent>) -> bool
    decreases events.len(),
{
    events.len() > 0 ==> {
        &&& accepted(run, events.drop_last())
        &&& after(run, events.drop_last()).accepts(events.last())
    }
}

/// The figures of the blocks whose proof the run began, first to last.
pub open spec fn begun(run: SequentialRun, events: Seq<SequentialEvent>) -> Seq<BlockFigures>
    decreases events.len(),
{
    if events.len() == 0 {
        Seq::empty()
    } else {
        with_block(
            after(run, events.drop_last()),
            begun(run, events.drop_last()),
            events.last(),
        )
    }
}

/// Blocks whose proof was begun, and one more if the event begins its proof.
pub open spec fn with_block(
    now: SequentialRun,
    blocks: Seq<BlockFigures>,
    event: SequentialEvent,
) -> Seq<BlockFigures> {
    match now.begins(event) {
        Some(figures) => blocks.push(figures),
        None => blocks,
    }
}

/// Whether the run found its time to be up.
pub open spec fn timed_out(run: SequentialRun, events: Seq<SequentialEvent>) -> bool
    decreases events.len(),
{
    events.len() > 0 && (timed_out(run, events.drop_last()) || finds_time_up(
        after(run, events.drop_last()),
        events.last(),
    ))
}

/// Whether an event tells a run that its time is up.
pub open spec fn finds_time_up(now: SequentialRun, event: SequentialEvent) -> bool {
    &&& now.phase is Timing || now.phase is Ready || now.phase is Judging
    &&& (event matches SequentialEvent::Elapsed(seconds) && now.time_up(seconds))
}

/// Whether the last proof that the run began came too late.
pub open spec fn late(run: SequentialRun, events: Seq<SequentialEvent>) -> bool
    decreases events.len(),
{
    events.len() > 0 && (late(run, events.drop_last()) || finds_late(
        after(run, events.drop_last()),
        events.last(),
    ))
}

/// Whether an event tells a run that the proof it has just got came too late.
pub open spec fn finds_late(now: SequentialRun, event: SequentialEvent) -> bool {
    now.phase is Judging && finds_time_up(now, event)
}

/// The statistics among the actions, first to last.
pub open spec fn recorded(actions: Seq<SequentialAction>) -> Seq<BenchmarkingStats>
    decreases actions.len(),
{
    if actions.len() == 0 {
        Seq::empty()
    } else {
        match actions.last() {
            SequentialAction::Record(stats) => recorded(actions.drop_last()).push(stats),
            _ => recorded(actions.drop_last()),
        }
    }
}

/// The blocks that the actions ask to be proved, each with the block whose proof it builds on.
pub open spec fn proofs_asked(actions: Seq<SequentialAction>) -> Seq<(u64, Option<u64>)>
    decreases actions.len(),
{
    if actions.len() == 0 {
        Seq::empty()
    } else {
        match actions.last() {
            SequentialAction::Prove { block_number, previous, .. } => proofs_asked(
                actions.drop_last(),
            ).push((block_number, previous)),
            _ => proofs_asked(actions.drop_last()),
        }
    }
}

/// The blocks whose proof the actions put out, first to last.
pub open spec fn written(actions: Seq<SequentialAction>) -> Seq<u64>
    decreases actions.len(),
{
    if actions.len() == 0 {
        Seq::empty()
    } else {
        match actions.last() {
            SequentialAction::WriteProof { block_number } => written(actions.drop_last()).push(
                block_number,
            ),
            _ => written(actions.drop_last()),
        }
    }
}

/// The gas of blocks, summed up.
pub open spec fn gas_sum(blocks: Seq<BlockFigures>) -> int
    decreases blocks.len(),
{
    if blocks.len() == 0 {
        0
    } else {
        gas_sum(blocks.drop_last()) + blocks.last().gas_used
    }
}

/// The number of transactions of blocks, summed up.
pub open spec fn txs_sum(blocks: Seq<BlockFigures>) -> int
    decreases blocks.len(),
{
    if blocks.len() == 0 {
        0
    } else {
        txs_sum(blocks.drop_last()) + blocks.last().n_txs()
    }
}

/// Whether the current block's proof has been begun and the block is not done yet.
pub open spec fn in_block(phase: SequentialPhase) -> bool {
    phase is Proving || phase is Judging || phase is Writing || phase is Recording
}

/// Whether a run, having begun these blocks, has met its termination condition, and had not met it
/// before the last of them.
pub open spec fn terminated(
    run: SequentialRun,
    blocks: Seq<BlockFigures>,
    timed_out: bool,
) -> bool {
    match run.terminate_on {
        None => false,
        Some(TerminateOn::ElapsedSeconds { .. }) => timed_out,
        Some(TerminateOn::EndBlock { block_number }) => if run.first_block <= block_number {
            blocks.len() == block_number - run.first_block + 1
        } else {
            blocks.len() == 0
        },
        Some(TerminateOn::BlockGasUsed { until_gas_sum }) => {
            &&& blocks.len() > 0
            &&& gas_sum(blocks) >= until_gas_sum
            &&& blocks.len() > 1 ==> gas_sum(blocks.drop_last()) < until_gas_sum
        },
    }
}

/// Whether a run may still be at work on a block, having done these blocks.
pub open spec fn may_go_on(run: SequentialRun, done: Seq<BlockFigures>) -> bool {
    match run.terminate_on {
        Some(TerminateOn::EndBlock { block_number }) => run.first_block + done.len()
            <= block_number,
        Some(TerminateOn::BlockGasUsed { until_gas_sum }) => done.len() > 0 ==> gas_sum(done)
            < until_gas_sum,
        _ => true,
    }
}

/// What the statistics of the `i`-th block of a run say.
pub open spec fn stats_fit(
    run: SequentialRun,
    blocks: Seq<BlockFigures>,
    stats: BenchmarkingStats,
    i: int,
) -> bool {
    &&& stats.block_number == run.first_block + i
    &&& stats.n_txs == blocks[i].n_txs()
    &&& stats.gas_used == blocks[i].gas_used
    &&& stats.gas_used_per_tx == blocks[i].gas_used_per_tx
    &&& stats.difficulty == blocks[i].difficulty
    &&& stats.fetch_duration == blocks[i].fetch_duration
    &&& (stats.cumulative_n_txs matches Some(n) && n == txs_sum(blocks.take(i + 1)))
    &&& (stats.cumulative_gas_used matches Some(n) && n == gas_sum(blocks.take(i + 1)))
    &&& (stats.overall_elapsed_seconds matches Some(n) && n == crate::time::elapsed_seconds(
        run.started,
        stats.end_time,
    ))
    &&& stats.proof_out_duration is Some <==> run.storing_proof
}

/// Whether statistics are those of this block by itself.
spec fn is_of_block(stats: BenchmarkingStats, block_number: u64, figures: BlockFigures) -> bool {
    &&& stats.block_number == block_number
    &&& stats.n_txs == figures.n_txs()
    &&& stats.gas_used == figures.gas_used
    &&& stats.gas_used_per_tx == figures.gas_used_per_tx
    &&& stats.difficulty == figures.difficulty
    &&& stats.fetch_duration == figures.fetch_duration
}

/// What holds of a run at every moment.
spec fn steady(
    run: SequentialRun,
    now: SequentialRun,
    done: Seq<SequentialAction>,
    blocks: Seq<BlockFigures>,
    timed_out: bool,
    late: bool,
) -> bool {
    let asked = proofs_asked(done);
    let records = recorded(done);
    let outs = written(done);
    let unkept: int = if now.phase is Proving || now.phase is Judging || late {
        1
    } else {
        0
    };
    let behind: int = if now.phase is Writing {
        1
    } else {
        unkept
    };
    &&& now.first_block == run.first_block
    &&& now.terminate_on == run.terminate_on
    &&& now.forward_prev == run.forward_prev
    &&& now.storing_proof == run.storing_proof
    &&& now.storing_benchmark == run.storing_benchmark
    &&& now.checkpoint_block_number == run.checkpoint_block_number
    &&& now.started == run.started
    &&& now.cumulative_block_gas == gas_sum(blocks)
    &&& now.cumulative_n_txs == txs_sum(blocks)
    &&& asked.len() == blocks.len()
    &&& forall|i: int|
        0 <= i < asked.len() ==> {
            &&& (#[trigger] asked[i]).0 == run.first_block + i
            &&& asked[i].1 == if run.forward_prev && i > 0 {
                Some((run.first_block + i - 1) as u64)
            } else {
                None
            }
        }
    &&& outs.len() <= blocks.len()
    &&& !run.storing_proof ==> outs.len() == 0
    &&& late ==> timed_out && blocks.len() > 0
    &&& timed_out ==> run.is_timed() && is_over(now.phase)
    &&& run.storing_proof && !(now.phase is Finished) ==> outs.len() == blocks.len() - unkept
    &&& forall|i: int| 0 <= i < outs.len() ==> #[trigger] outs[i] == run.first_block + i
    &&& records.len() <= blocks.len()
    &&& !run.storing_benchmark ==> records.len() == 0
    &&& forall|i: int| 0 <= i < records.len() ==> stats_fit(run, blocks, #[trigger] records[i], i)
    &&& run.storing_benchmark && !(now.phase is Finished) ==> records.len() == blocks.len() - behind
    &&& !is_over(now.phase) ==> {
        &&& now.block_number == run.first_block + blocks.len() - if in_block(now.phase) {
            1int
        } else {
            0
        }
        &&& in_block(now.phase) ==> blocks.len() > 0
        &&& now.previous == if run.forward_prev && blocks.len() - behind > 0 {
            Some((run.first_block + blocks.len() - behind - 1) as u64)
        } else {
            None
        }
    }
    &&& now.phase is Recording ==> run.storing_benchmark
    &&& now.phase is Publishing ==> run.storing_benchmark
    &&& (now.phase matches SequentialPhase::Proving { figures } ==> figures == blocks.last())
    &&& (now.phase matches SequentialPhase::Judging { stats } ==> is_of_block(
        stats,
        now.block_number,
        blocks.last(),
    ))
    &&& (now.phase matches SequentialPhase::Writing { stats } ==> run.storing_proof && is_of_block(
        stats,
        now.block_number,
        blocks.last(),
    ))
    &&& now.phase is Timing || now.phase is Ready || now.phase is Judging ==> run.is_timed()
    &&& now.phase is Fetching ==> may_go_on(run, blocks)
    &&& in_block(now.phase) ==> may_go_on(run, blocks.drop_last())
    &&& now.phase is Publishing ==> terminated(run, blocks, timed_out)
    &&& done.contains(SequentialAction::Finish(Ok(()))) ==> {
        &&& now.phase is Finished
        &&& terminated(run, blocks, timed_out)
        &&& run.storing_proof ==> outs.len() == blocks.len() - unkept
        &&& run.storing_benchmark ==> records.len() == blocks.len() - unkept
    }
}

proof fn lemma_txs_sum_bounds_last(blocks: Seq<BlockFigures>)
    ensures
        0 <= txs_sum(blocks),
        blocks.len() > 0 ==> blocks.last().n_txs() <= txs_sum(blocks),
    decreases blocks.len(),
{
    if blocks.len() > 0 {
        lemma_txs_sum_bounds_last(blocks.drop_last());
    }
}

proof fn lemma_steady_start(run: SequentialRun)
    requires
        untouched(run),
    ensures
        steady(run, run.deciding().0, seq![run.deciding().1], Seq::empty(), false, false),
{
    let done = seq![run.deciding().1];
    assert(done.drop_last() =~= Seq::empty());
    assert(done.last() == run.deciding().1);
    reveal_with_fuel(recorded, 2);
    reveal_with_fuel(proofs_asked, 2);
    reveal_with_fuel(written, 2);
    assert(recorded(done) =~= Seq::empty());
    assert(proofs_asked(done) =~= Seq::empty());
    assert(written(done) =~= Seq::empty());
    if done.contains(SequentialAction::Finish(Ok(()))) {
        assert(done[0] == SequentialAction::Finish(Ok(())));
    }
}

proof fn lemma_steady_step(
    run: SequentialRun,
    now: SequentialRun,
    done: Seq<SequentialAction>,
    blocks: Seq<BlockFigures>,
    timed_out: bool,
    late: bool,
    event: SequentialEvent,
)
    requires
        steady(run, now, done, blocks, timed_out, late),
        now.accepts(event),
    ensures
        steady(
            run,
            now.next(event).0,
            done.push(now.next(event).1),
            with_block(now, blocks, event),
            timed_out || finds_time_up(now, event),
            late || finds_late(now, event),
        ),
{
    let (later, action) = now.next(event);
    let later_done = done.push(action);
    let later_blocks = with_block(now, blocks, event);
    let finish = SequentialAction::Finish(Ok(()));
    assert(later_done.drop_last() =~= done);
    assert(later_done.last() == action);
    assert(proofs_asked(later_done) == match action {
        SequentialAction::Prove { block_number, previous, .. } => proofs_asked(done).push(
            (block_number, previous),
        ),
        _ => proofs_asked(done),
    });
    assert(written(later_done) == match action {
        SequentialAction::WriteProof { block_number } => written(done).push(block_number),
        _ => written(done),
    });
    assert(recorded(later_done) == match action {
        SequentialAction::Record(stats) => recorded(done).push(stats),
        _ => recorded(done),
    });
    assert(later_done.contains(finish) <==> done.contains(finish) || action == finish) by {
        if done.contains(finish) {
            let k = choose|k: int| 0 <= k < done.len() && done[k] == finish;
            assert(later_done[k] == finish);
        }
        if action == finish {
            assert(later_done[done.len() as int] == finish);
        }
    }
    lemma_txs_sum_bounds_last(blocks);
    lemma_txs_sum_bounds_last(later_blocks);
    if now.begins(event) is Some {
        assert(later_blocks.drop_last() =~= blocks);
    }
    assert forall|i: int| 0 <= i < recorded(later_done).len() implies stats_fit(
        run,
        later_blocks,
        #[trigger] recorded(later_done)[i],
        i,
    ) by {
        if i < recorded(done).len() {
            assert(stats_fit(run, blocks, recorded(done)[i], i));
            assert(later_blocks.take(i + 1) =~= blocks.take(i + 1));
        } else {
            assert(later_blocks.take(i + 1) =~= later_blocks);
        }
    }
}

proof fn lemma_steady(run: SequentialRun, events: Seq<SequentialEvent>)
    requires
        untouched(run),
        accepted(run, events),
    ensures
        steady(
            run,
            after(run, events),
            actions(run, events),
            begun(run, events),
            timed_out(run, events),
            late(run, events),
        ),
    decreases events.len(),
{
    if events.len() == 0 {
        lemma_steady_start(run);
    } else {
        let earlier = events.drop_last();
        lemma_steady(run, earlier);
        lemma_steady_step(
            run,
            after(run, earlier),
            actions(run, earlier),
            begun(run, earlier),
            timed_out(run, earlier),
            late(run, earlier),
            events.last(),
        );
    }
}

/// Blocks are proved one after the other from the first on, and each proof builds on the one before
/// exactly if that was asked for; the first proof builds on none.
pub proof fn law_blocks_are_proved_in_order(run: SequentialRun, events: Seq<SequentialEvent>)
    requires
        untouched(run),
        accepted(run, events),
    ensures
        proofs_asked(actions(run, events)).len() == begun(run, events).len(),
        forall|i: int|
            0 <= i < begun(run, events).len() ==> {
                let (block, previous) = #[trigger] proofs_asked(actions(run, events))[i];
                &&& block == run.first_block + i
                &&& previous == if run.forward_prev && i > 0 {
                    Some((run.first_block + i - 1) as u64)
                } else {
                    None
                }
            },
{
    lemma_steady(run, events);
}

/// If proofs are put out, those of the first block, the second and so on are, none left out; a run
/// that ends well has put out every proof that it began, but for the last one if that came too late.
pub proof fn law_every_proof_is_put_out(run: SequentialRun, events: Seq<SequentialEvent>)
    requires
        untouched(run),
        accepted(run, events),
        run.storing_proof,
    ensures
        written(actions(run, events)).len() <= begun(run, events).len(),
        forall|i: int|
            0 <= i < written(actions(run, events)).len() ==> #[trigger] written(
                actions(run, events),
            )[i] == run.first_block + i,
        actions(run, events).contains(SequentialAction::Finish(Ok(()))) ==> written(
            actions(run, events),
        ).len() == begun(run, events).len() - if late(run, events) {
            1int
        } else {
            0
        },
        late(run, events) ==> run.is_timed(),
{
    lemma_steady(run, events);
}

/// The statistics that are stored are those of the first block, the second and so on, none left
/// out; their cumulative figures are the sums over the blocks up to and including their own, and
/// they say how long putting out the proof took exactly if proofs are put out.  A run that ends well
/// has stored those of every block whose proof it began, but for the last one if its proof came too
/// late.
pub proof fn law_statistics_add_up(run: SequentialRun, events: Seq<SequentialEvent>)
    requires
        untouched(run),
        accepted(run, events),
    ensures
        recorded(actions(run, events)).len() <= begun(run, events).len(),
        forall|i: int|
            0 <= i < recorded(actions(run, events)).len() ==> stats_fit(
                run,
                begun(run, events),
                #[trigger] recorded(actions(run, events))[i],
                i,
            ),
        run.storing_benchmark && actions(run, events).contains(
            SequentialAction::Finish(Ok(())),
        ) ==> recorded(actions(run, events)).len() == begun(run, events).len() - if late(
            run,
            events,
        ) {
            1int
        } else {
            0
        },
{
    lemma_steady(run, events);
}

/// With an end block, no block after it is ever asked to be proved, and a run that ends well has
/// proved every block from the first to the end block, inclusive, and stored the statistics of each
/// if statistics were asked for.
pub proof fn law_end_block_is_inclusive(
    run: SequentialRun,
    end_block: u64,
    events: Seq<SequentialEvent>,
)
    requires
        untouched(run),
        accepted(run, events),
        run.terminate_on == Some(TerminateOn::EndBlock { block_number: end_block }),
    ensures
        forall|i: int|
            0 <= i < proofs_asked(actions(run, events)).len() ==> (#[trigger] proofs_asked(
                actions(run, events),
            )[i]).0 <= end_block,
        actions(run, events).contains(SequentialAction::Finish(Ok(()))) ==> {
            let expected: int = if run.first_block <= end_block {
                end_block - run.first_block + 1
            } else {
                0
            };
            &&& proofs_asked(actions(run, events)).len() == expected
            &&& run.storing_benchmark ==> recorded(actions(run, events)).len() == expected
        },
    decreases events.len(),
{
    lemma_steady(run, events);
    if events.len() > 0 {
        law_end_block_is_inclusive(run, end_block, events.drop_last());
        lemma_steady(run, events.drop_last());
        assert(actions(run, events).drop_last() =~= actions(run, events.drop_last()));
    } else {
        assert(actions(run, events).drop_last() =~= Seq::empty());
    }
}

/// With a sum of gas to reach, a block past the first is begun only while the blocks before it fall
/// short of the sum, and a run that ends well has reached it with its last block and not before.
pub proof fn law_gas_sum_ends_run(
    run: SequentialRun,
    until_gas_sum: u64,
    events: Seq<SequentialEvent>,
)
    requires
        untouched(run),
        accepted(run, events),
        run.terminate_on == Some(TerminateOn::BlockGasUsed { until_gas_sum }),
    ensures
        after(run, events).phase is Fetching && begun(run, events).len() > 0 ==> gas_sum(
            begun(run, events),
        ) < until_gas_sum,
        actions(run, events).contains(SequentialAction::Finish(Ok(()))) ==> {
            let blocks = begun(run, events);
            &&& blocks.len() > 0
            &&& gas_sum(blocks) >= until_gas_sum
            &&& blocks.len() > 1 ==> gas_sum(blocks.drop_last()) < until_gas_sum
        },
{
    lemma_steady(run, events);
}

/// Without a termination condition a run never ends well: it goes on until an error occurs.
pub proof fn law_no_condition_no_end(run: SequentialRun, events: Seq<SequentialEvent>)
    requires
        untouched(run),
        accepted(run, events),
        run.terminate_on is None,
    ensures
        !actions(run, events).contains(SequentialAction::Finish(Ok(()))),
        !actions(run, events).contains(SequentialAction::Publish),
    decreases events.len(),
{
    lemma_steady(run, events);
    if events.len() > 0 {
        let earlier = events.drop_last();
        law_no_condition_no_end(run, earlier);
        lemma_steady(run, earlier);
        if actions(run, events).contains(SequentialAction::Publish) {
            let k = choose|k: int|
                0 <= k < actions(run, events).len() && actions(run, events)[k]
                    == SequentialAction::Publish;
            if k < actions(run, earlier).len() {
                assert(actions(run, earlier)[k] == SequentialAction::Publish);
            }
        }
    }
}

/// Whether nothing is left to do but to publish what was stored.
pub open spec fn is_over(phase: SequentialPhase) -> bool {
    phase is Publishing || phase is Finished
}

/// Whether an action works on a block.
pub open spec fn works_on_block(action: SequentialAction) -> bool {
    action is Fetch || action is Prove || action is WriteProof || action is Record
}

proof fn lemma_action_at(run: SequentialRun, events: Seq<SequentialEvent>, k: int)
    requires
        0 <= k < events.len(),
    ensures
        actions(run, events).len() == events.len() + 1,
        actions(run, events)[k + 1] == after(run, events.take(k)).next(events[k]).1,
        after(run, events.take(k + 1)) == after(run, events.take(k)).next(events[k]).0,
    decreases events.len(),
{
    lemma_actions_len(run, events);
    lemma_actions_len(run, events.drop_last());
    assert(events.take(k + 1).drop_last() =~= events.take(k));
    if k < events.len() - 1 {
        lemma_action_at(run, events.drop_last(), k);
        assert(events.drop_last().take(k) =~= events.take(k));
        assert(events.drop_last().take(k + 1) =~= events.take(k + 1));
    } else {
        assert(events.drop_last() =~= events.take(k));
    }
}

pub(crate) proof fn lemma_actions_len(run: SequentialRun, events: Seq<SequentialEvent>)
    ensures
        actions(run, events).len() == events.len() + 1,
    decreases events.len(),
{
    if events.len() > 0 {
        lemma_actions_len(run, events.drop_last());
    }
}

/// Once a run is over it stays so: no block is fetched, proved, put out or
/// recorded any more.
pub proof fn law_over_is_over(run: SequentialRun, events: Seq<SequentialEvent>, since: int)
    requires
        0 <= since <= events.len(),
        is_over(after(run, events.take(since)).phase),
    ensures
        is_over(after(run, events).phase),
        forall|k: int|
            since < k < actions(run, events).len() ==> !works_on_block(
                #[trigger] actions(run, events)[k],
            ),
    decreases events.len(),
{
    lemma_actions_len(run, events);
    if since < events.len() {
        let earlier = events.drop_last();
        assert(earlier.take(since) =~= events.take(since));
        law_over_is_over(run, earlier, since);
        lemma_actions_len(run, earlier);
        assert forall|k: int| since < k < actions(run, events).len() implies !works_on_block(
            #[trigger] actions(run, events)[k],
        ) by {
            if k < actions(run, earlier).len() {
                assert(actions(run, events)[k] == actions(run, earlier)[k]);
            }
        }
    } else {
        assert(events.take(since) =~= events);
    }
}

/// With a limit of time, a block is begun, a proof is begun, and a proof is put out or, where none
/// are put out, recorded only right after it was found that the time is not up; once it is found to
/// be up the run is over.
pub proof fn law_time_limit(
    run: SequentialRun,
    num_seconds: u64,
    events: Seq<SequentialEvent>,
    k: int,
)
    requires
        untouched(run),
        accepted(run, events),
        run.terminate_on == Some(TerminateOn::ElapsedSeconds { num_seconds }),
        0 <= k < events.len(),
    ensures
        !works_on_block(actions(run, events)[0]),
        actions(run, events)[k + 1] is Fetch || actions(run, events)[k + 1] is Prove || actions(
            run,
            events,
        )[k + 1] is WriteProof || (!run.storing_proof && actions(run, events)[k + 1] is Record)
            ==> (events[k] matches SequentialEvent::Elapsed(s) && s < num_seconds),
        actions(run, events)[k + 1] is Record && run.storing_proof ==> events[k] is ProofWritten,
        finds_time_up(after(run, events.take(k)), events[k]) ==> is_over(
            after(run, events.take(k + 1)).phase,
        ),
{
    lemma_action_at(run, events, k);
    lemma_accepted_prefix(run, events, k);
    lemma_steady(run, events.take(k));
    lemma_first_action(run, events);
}

/// Whether `clock` tells, for each event, how many whole seconds after the start of the run it came,
/// and the timer readings among the events are true.
pub open spec fn keeps_time(events: Seq<SequentialEvent>, clock: Seq<int>) -> bool {
    &&& clock.len() == events.len()
    &&& forall|i: int, j: int| 0 <= i <= j < clock.len() ==> clock[i] <= clock[j]
    &&& forall|k: int|
        0 <= k < events.len() ==> (#[trigger] events[k] matches SequentialEvent::Elapsed(seconds)
            ==> seconds == clock[k])
}

/// With a limit of time, no block and no proof is begun once the time is up.
pub proof fn law_nothing_is_begun_late(
    run: SequentialRun,
    num_seconds: u64,
    events: Seq<SequentialEvent>,
    clock: Seq<int>,
    k: int,
)
    requires
        untouched(run),
        accepted(run, events),
        run.terminate_on == Some(TerminateOn::ElapsedSeconds { num_seconds }),
        keeps_time(events, clock),
        0 <= k < events.len(),
        clock[k] >= num_seconds,
    ensures
        !(actions(run, events)[k + 1] is Fetch),
        !(actions(run, events)[k + 1] is Prove),
{
    law_time_limit(run, num_seconds, events, k);
}

/// With a limit of time, a proof that is finished once the time is up is neither put out nor
/// recorded, nor is any proof after it; and no block is fetched or proved after it.
pub proof fn law_late_proofs_are_not_recorded(
    run: SequentialRun,
    num_seconds: u64,
    events: Seq<SequentialEvent>,
    clock: Seq<int>,
    k: int,
)
    requires
        untouched(run),
        accepted(run, events),
        run.terminate_on == Some(TerminateOn::ElapsedSeconds { num_seconds }),
        keeps_time(events, clock),
        0 <= k < events.len(),
        after(run, events.take(k)).phase is Proving,
        events[k] is Proved,
        clock[k] >= num_seconds,
    ensures
        forall|j: int|
            k < j < actions(run, events).len() ==> !works_on_block(
                #[trigger] actions(run, events)[j],
            ),
{
    lemma_actions_len(run, events);
    assert forall|j: int| k < j < actions(run, events).len() implies !works_on_block(
        #[trigger] actions(run, events)[j],
    ) by {
        lemma_late_proof_waits_or_over(run, num_seconds, events, clock, k, j);
    }
}

/// After a late proof a run waits for the timer or is over.
proof fn lemma_late_proof_waits_or_over(
    run: SequentialRun,
    num_seconds: u64,
    events: Seq<SequentialEvent>,
    clock: Seq<int>,
    k: int,
    j: int,
)
    requires
        untouched(run),
        accepted(run, events),
        run.terminate_on == Some(TerminateOn::ElapsedSeconds { num_seconds }),
        keeps_time(events, clock),
        0 <= k < j <= events.len(),
        after(run, events.take(k)).phase is Proving,
        events[k] is Proved,
        clock[k] >= num_seconds,
    ensures
        after(run, events.take(j)).phase is Judging || is_over(after(run, events.take(j)).phase),
        !works_on_block(actions(run, events)[j]),
    decreases j,
{
    lemma_action_at(run, events, j - 1);
    lemma_accepted_prefix(run, events, j - 1);
    lemma_steady(run, events.take(j - 1));
    if k < j - 1 {
        lemma_late_proof_waits_or_over(run, num_seconds, events, clock, k, j - 1);
        assert(clock[k] <= clock[j - 1]);
    }
}

/// Every block is fetched with the checkpoint of the run.
pub proof fn law_blocks_are_fetched_with_checkpoint(
    run: SequentialRun,
    events: Seq<SequentialEvent>,
    k: int,
)
    requires
        untouched(run),
        accepted(run, events),
        0 <= k < actions(run, events).len(),
    ensures
        actions(run, events)[k] matches SequentialAction::Fetch { checkpoint_block_number, .. }
            ==> checkpoint_block_number == Some(run.checkpoint_block_number),
{
    lemma_actions_len(run, events);
    if k == 0 {
        lemma_first_action(run, events);
    } else {
        lemma_action_at(run, events, k - 1);
        lemma_accepted_prefix(run, events, k - 1);
        lemma_steady(run, events.take(k - 1));
    }
}

proof fn lemma_first_action(run: SequentialRun, events: Seq<SequentialEvent>)
    ensures
        actions(run, events)[0] == run.deciding().1,
    decreases events.len(),
{
    if events.len() > 0 {
        lemma_first_action(run, events.drop_last());
        lemma_actions_len(run, events.drop_last());
    }
}

proof fn lemma_accepted_prefix(run: SequentialRun, events: Seq<SequentialEvent>, k: int)
    requires
        0 <= k <= events.len(),
        accepted(run, events),
    ensures
        accepted(run, events.take(k)),
    decreases events.len(),
{
    if k < events.len() {
        assert(events.drop_last().take(k) =~= events.take(k));
        lemma_accepted_prefix(run, events.drop_last(), k);
    } else {
        assert(events.take(k) =~= events);
    }
}

/// Never more than one block is with the workers: while a proof is awaited nothing else is asked
/// for, and a proof is asked for only where none is awaited.
pub proof fn law_one_block_at_a_time(run: SequentialRun, event: SequentialEvent)
    ensures
        run.phase is Proving && !(event is Proved) && !(event is ProofFailed) ==> run.next(event)
            == (run, SequentialAction::Ignore),
        run.next(event).1 is Prove ==> (run.phase is Fetching || run.phase is Ready) && run.next(
            event,
        ).0.phase is Proving,
{
}

/// Proofs are put out only if that was asked for, and statistics are stored and published only if
/// that was asked for.
pub proof fn law_stored_only_if_asked_for(run: SequentialRun, events: Seq<SequentialEvent>, k: int)
    requires
        untouched(run),
        accepted(run, events),
        0 <= k < actions(run, events).len(),
    ensures
        actions(run, events)[k] is WriteProof ==> run.storing_proof,
        actions(run, events)[k] is Record ==> run.storing_benchmark,
        actions(run, events)[k] is Publish ==> run.storing_benchmark,
{
    lemma_actions_len(run, events);
    if k == 0 {
        lemma_first_action(run, events);
    } else {
        lemma_action_at(run, events, k - 1);
        lemma_accepted_prefix(run, events, k - 1);
        lemma_steady(run, events.take(k - 1));
    }
}

/// An error ends the run at once, with that error and without publishing anything.
pub proof fn law_errors_end_run(run: SequentialRun, event: SequentialEvent)
    ensures
        run.next(event).1 matches SequentialAction::Finish(Err(error)) ==> {
            &&& run.next(event).0.phase is Finished
            &&& match event {
                SequentialEvent::FetchFailed(e) => error == ManyProverError::Fetch(e),
                SequentialEvent::ProofFailed(e) => error == ManyProverError::Proof(e),
                SequentialEvent::ProofWriteFailed(e) => error == ManyProverError::ProofOutError(e),
                SequentialEvent::PublishFailed(e) => error == ManyProverError::BenchmarkingOutput(
                    e,
                ),
                _ => false,
            }
        },
        run.phase is Fetching && event is FetchFailed ==> run.next(event).1 is Finish,
        run.phase is Proving && event is ProofFailed ==> run.next(event).1 is Finish,
        run.phase is Writing && event is ProofWriteFailed ==> run.next(event).1 is Finish,
        run.phase is Publishing && event is PublishFailed ==> run.next(event).1 is Finish,
{
}

} // verus!
