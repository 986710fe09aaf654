//! The course of a sequential run, told by nothing but what it was asked to do, what it asks for and
//! what it is answered.

use vstd::prelude::*;

use crate::benchmarking::{BenchmarkingStats, BlockFigures, ProofTimes};
use crate::input::TerminateOn;
use crate::manyprover::ManyProverError;
use crate::sequential::{SequentialAction, SequentialEvent, SequentialPhase, SequentialRun};

verus! {

/// Whether an event is an answer to what a run asked for.
pub open spec fn answers(asked: SequentialAction, told: SequentialEvent) -> bool {
    match asked {
        SequentialAction::ReadTimer => told is Elapsed,
        SequentialAction::Fetch { .. } => told is Fetched || told is FetchFailed,
        SequentialAction::Prove { .. } => told is Proved || told is ProofFailed,
        SequentialAction::WriteProof { .. } => told is ProofWritten || told is ProofWriteFailed,
        SequentialAction::Record(_) => told is Recorded,
        SequentialAction::Publish => told is Published || told is PublishFailed,
        SequentialAction::Finish(_) => false,
        SequentialAction::Ignore => false,
    }
}

/// Whether each event answers what the run asked for right before it.
pub open spec fn is_dialogue(run: SequentialRun, events: Seq<SequentialEvent>) -> bool {
    forall|k: int|
        0 <= k < events.len() ==> answers(
            #[trigger] crate::sequential_laws::actions(run, events)[k],
            events[k],
        )
}

/// How many blocks were fetched.
pub open spec fn blocks_fetched(events: Seq<SequentialEvent>) -> int
    decreases events.len(),
{
    if events.len() == 0 {
        0
    } else {
        blocks_fetched(events.drop_last()) + if events.last() is Fetched {
            1int
        } else {
            0
        }
    }
}

/// The gas of the blocks that were fetched, summed up.
pub open spec fn gas_fetched(events: Seq<SequentialEvent>) -> int
    decreases events.len(),
{
    if events.len() == 0 {
        0
    } else {
        gas_fetched(events.drop_last()) + match events.last() {
            SequentialEvent::Fetched(figures) => figures.gas_used as int,
            _ => 0,
        }
    }
}

/// The number of transactions of the blocks that were fetched, summed up.
pub open spec fn txs_fetched(events: Seq<SequentialEvent>) -> int
    decreases events.len(),
{
    if events.len() == 0 {
        0
    } else {
        txs_fetched(events.drop_last()) + match events.last() {
            SequentialEvent::Fetched(figures) => figures.gas_used_per_tx@.len() as int,
            _ => 0,
        }
    }
}

/// The block that was fetched last.
pub open spec fn last_fetched(events: Seq<SequentialEvent>) -> Option<BlockFigures>
    decreases events.len(),
{
    if events.len() == 0 {
        None
    } else {
        match events.last() {
            SequentialEvent::Fetched(figures) => Some(figures),
            _ => last_fetched(events.drop_last()),
        }
    }
}

/// The times of the proof that came last.
pub open spec fn last_proved(events: Seq<SequentialEvent>) -> Option<ProofTimes>
    decreases events.len(),
{
    if events.len() == 0 {
        None
    } else {
        match events.last() {
            SequentialEvent::Proved(times) => Some(times),
            _ => last_proved(events.drop_last()),
        }
    }
}

/// Whether an action ends a run well: what was stored is published first, if anything is stored.
pub open spec fn ends_well(run: SequentialRun, action: SequentialAction) -> bool {
    if run.storing_benchmark {
        action == SequentialAction::Publish
    } else {
        action == SequentialAction::Finish(Ok(()))
    }
}

/// Whether an action asks for the block behind those that were fetched, with the run's checkpoint.
pub open spec fn asks_for_next_block(
    run: SequentialRun,
    events: Seq<SequentialEvent>,
    action: SequentialAction,
) -> bool {
    action matches SequentialAction::Fetch { block_number, checkpoint_block_number } && {
        &&& block_number == run.first_block + blocks_fetched(events)
        &&& checkpoint_block_number == Some(run.checkpoint_block_number)
    }
}

/// Whether an action asks for the proof of the block that was fetched last, on top of the proof of the
/// block right before it if proofs are forwarded and there is one.
pub open spec fn asks_for_proof(
    run: SequentialRun,
    events: Seq<SequentialEvent>,
    action: SequentialAction,
) -> bool {
    action matches SequentialAction::Prove { block_number, previous, save_inputs_on_error } && {
        &&& block_number + 1 == run.first_block + blocks_fetched(events)
        &&& save_inputs_on_error
        &&& match previous {
            Some(before) => run.forward_prev && blocks_fetched(events) > 1 && before + 1
                == block_number,
            None => !run.forward_prev || blocks_fetched(events) == 1,
        }
    }
}

/// Whether an action puts out the proof of the block that was fetched last.
pub open spec fn puts_out_proof(
    run: SequentialRun,
    events: Seq<SequentialEvent>,
    action: SequentialAction,
) -> bool {
    action matches SequentialAction::WriteProof { block_number } && block_number + 1
        == run.first_block + blocks_fetched(events)
}

/// Whether statistics say of the block that was fetched last what was told of it, of its proof what
/// was told of that, and of the run what all the events come to.
pub open spec fn tells_all(
    run: SequentialRun,
    events: Seq<SequentialEvent>,
    proof_out_duration: Option<std::time::Duration>,
    stats: BenchmarkingStats,
) -> bool {
    &&& stats.block_number + 1 == run.first_block + blocks_fetched(events)
    &&& (last_fetched(events) matches Some(figures) && {
        &&& stats.n_txs == figures.gas_used_per_tx@.len()
        &&& stats.gas_used == figures.gas_used
        &&& stats.gas_used_per_tx == figures.gas_used_per_tx
        &&& stats.difficulty == figures.difficulty
        &&& stats.fetch_duration == figures.fetch_duration
    })
    &&& (last_proved(events) matches Some(times) && {
        &&& stats.total_proof_duration == times.total_proof_duration
        &&& stats.prep_duration == times.prep_duration
        &&& stats.txproof_duration == times.txproof_duration
        &&& stats.agg_duration == times.agg_duration
        &&& stats.start_time == times.start_time
        &&& stats.end_time == times.end_time
    })
    &&& (stats.cumulative_n_txs matches Some(n) && n == txs_fetched(events))
    &&& (stats.cumulative_gas_used matches Some(n) && n == gas_fetched(events))
    &&& (stats.overall_elapsed_seconds matches Some(n) && (
    -0x8000_0000_0000_0000 * 1_000_000_000 < stats.end_time@ - run.started@
        < 0x8000_0000_0000_0000 * 1_000_000_000 ==> crate::time::are_seconds_between(
        run.started,
        stats.end_time,
        n as int,
    )))
    &&& stats.proof_out_duration == proof_out_duration
}

/// Whether an action goes on behind a block that is done: the run ends if the gas is reached or the
/// end block is done, the timer is read if there is a limit of time, and else the next block comes.
pub open spec fn goes_on(
    run: SequentialRun,
    events: Seq<SequentialEvent>,
    action: SequentialAction,
) -> bool {
    match run.terminate_on {
        Some(TerminateOn::ElapsedSeconds { .. }) => action == SequentialAction::ReadTimer,
        Some(TerminateOn::BlockGasUsed { until_gas_sum }) => if gas_fetched(events)
            >= until_gas_sum {
            ends_well(run, action)
        } else {
            asks_for_next_block(run, events, action)
        },
        Some(TerminateOn::EndBlock { block_number }) => if run.first_block + blocks_fetched(events)
            > block_number {
            ends_well(run, action)
        } else {
            asks_for_next_block(run, events, action)
        },
        None => asks_for_next_block(run, events, action),
    }
}

/// Whether an action stores the statistics of a block whose proof is dealt with, if statistics are
/// stored, and else goes on.
pub open spec fn stores_or_goes_on(
    run: SequentialRun,
    events: Seq<SequentialEvent>,
    proof_out_duration: Option<std::time::Duration>,
    action: SequentialAction,
) -> bool {
    if run.storing_benchmark {
        action matches SequentialAction::Record(stats) && tells_all(
            run,
            events,
            proof_out_duration,
            stats,
        )
    } else {
        goes_on(run, events, action)
    }
}

/// Whether an action keeps a proof that came in time.
pub open spec fn keeps_proof(
    run: SequentialRun,
    events: Seq<SequentialEvent>,
    action: SequentialAction,
) -> bool {
    if run.storing_proof {
        puts_out_proof(run, events, action)
    } else {
        stores_or_goes_on(run, events, None, action)
    }
}

/// Whether a run has a limit of time.
pub open spec fn has_time_limit(run: SequentialRun) -> bool {
    run.terminate_on matches Some(TerminateOn::ElapsedSeconds { .. })
}

/// What a run asks for first: the timer if there is a limit of time, nothing more if the end block
/// comes before the first block, and else the first block.
pub proof fn law_what_is_asked_for_first(run: SequentialRun)
    requires
        crate::sequential_laws::untouched(run),
    ensures
        match run.terminate_on {
            Some(TerminateOn::ElapsedSeconds { .. }) => run.deciding().1
                == SequentialAction::ReadTimer,
            Some(TerminateOn::EndBlock { block_number }) => if run.first_block > block_number {
                ends_well(run, run.deciding().1)
            } else {
                asks_for_next_block(run, Seq::empty(), run.deciding().1)
            },
            _ => asks_for_next_block(run, Seq::empty(), run.deciding().1),
        },
{
}

/// Whether an action is what comes of the last of these events:
///
/// - A timer reading of the limit or more ends the run; one below the limit lets what comes next come:
///   the proof of a block that was just fetched is begun, a proof that just came is kept, and else the
///   next block is fetched.
/// - A block that was fetched is proved, and a proof that came is kept; with a limit of time the timer
///   is read before either.
/// - A proof that is kept is put out if proofs are stored, then its statistics are stored if statistics
///   are, then the run goes on.
/// - An error ends the run with that error.
pub open spec fn comes_of(
    run: SequentialRun,
    events: Seq<SequentialEvent>,
    action: SequentialAction,
) -> bool {
    let n = events.len() as int;
    match events[n - 1] {
        SequentialEvent::Elapsed(seconds) => match run.terminate_on {
            Some(TerminateOn::ElapsedSeconds { num_seconds }) => {
                if seconds >= num_seconds {
                    ends_well(run, action)
                } else if n > 1 && events[n - 2] is Fetched {
                    asks_for_proof(run, events, action)
                } else if n > 1 && events[n - 2] is Proved {
                    keeps_proof(run, events, action)
                } else {
                    asks_for_next_block(run, events, action)
                }
            },
            _ => false,
        },
        SequentialEvent::Fetched(_) => if has_time_limit(run) {
            action == SequentialAction::ReadTimer
        } else {
            asks_for_proof(run, events, action)
        },
        SequentialEvent::Proved(_) => if has_time_limit(run) {
            action == SequentialAction::ReadTimer
        } else {
            keeps_proof(run, events, action)
        },
        SequentialEvent::ProofWritten(duration) => run.storing_proof && stores_or_goes_on(
            run,
            events,
            Some(duration),
            action,
        ),
        SequentialEvent::Recorded => run.storing_benchmark && goes_on(run, events, action),
        SequentialEvent::Published => run.storing_benchmark && action == SequentialAction::Finish(
            Ok(()),
        ),
        SequentialEvent::FetchFailed(error) => action == SequentialAction::Finish(
            Err(ManyProverError::Fetch(error)),
        ),
        SequentialEvent::ProofFailed(message) => action == SequentialAction::Finish(
            Err(ManyProverError::Proof(message)),
        ),
        SequentialEvent::ProofWriteFailed(error) => action == SequentialAction::Finish(
            Err(ManyProverError::ProofOutError(error)),
        ),
        SequentialEvent::PublishFailed(error) => action == SequentialAction::Finish(
            Err(ManyProverError::BenchmarkingOutput(error)),
        ),
    }
}

/// What a run asks for next is what comes of what it was answered last, whatever it was answered.
pub proof fn law_what_is_asked_for_next(run: SequentialRun, events: Seq<SequentialEvent>)
    requires
        crate::sequential_laws::untouched(run),
        crate::sequential_laws::accepted(run, events),
        is_dialogue(run, events),
        events.len() > 0,
    ensures
        comes_of(run, events, crate::sequential_laws::actions(run, events)[events.len() as int]),
{
    let earlier = events.drop_last();
    lemma_dialogue_prefix(run, events);
    lemma_on_course(run, earlier);
    lemma_step(
        run,
        crate::sequential_laws::after(run, earlier),
        crate::sequential_laws::actions(run, earlier).last(),
        earlier,
        events.last(),
    );
    assert(earlier.push(events.last()) =~= events);
}

/// Whether statistics are those of this block by itself, and of this proof.
spec fn is_of(
    stats: BenchmarkingStats,
    block_number: u64,
    figures: BlockFigures,
    times: ProofTimes,
) -> bool {
    &&& stats.block_number == block_number
    &&& stats.n_txs == figures.gas_used_per_tx@.len()
    &&& stats.gas_used == figures.gas_used
    &&& stats.gas_used_per_tx == figures.gas_used_per_tx
    &&& stats.difficulty == figures.difficulty
    &&& stats.fetch_duration == figures.fetch_duration
    &&& stats.total_proof_duration == times.total_proof_duration
    &&& stats.prep_duration == times.prep_duration
    &&& stats.txproof_duration == times.txproof_duration
    &&& stats.agg_duration == times.agg_duration
    &&& stats.start_time == times.start_time
    &&& stats.end_time == times.end_time
}

/// What the state of a run has to do with its course.
spec fn on_course(
    run: SequentialRun,
    now: SequentialRun,
    asked: SequentialAction,
    events: Seq<SequentialEvent>,
) -> bool {
    let count = blocks_fetched(events);
    let in_block = now.phase is Ready || now.phase is Proving || now.phase is Judging || now.phase
        is Writing || now.phase is Recording;
    let settled = if in_block && !(now.phase is Recording) {
        count - 1
    } else {
        count
    };
    &&& now.first_block == run.first_block
    &&& now.terminate_on == run.terminate_on
    &&& now.forward_prev == run.forward_prev
    &&& now.storing_proof == run.storing_proof
    &&& now.storing_benchmark == run.storing_benchmark
    &&& now.checkpoint_block_number == run.checkpoint_block_number
    &&& now.started == run.started
    &&& count >= 0
    &&& in_block ==> count > 0
    &&& !(now.phase is Publishing) && !(now.phase is Finished) ==> {
        &&& now.block_number == run.first_block + count - if in_block {
            1int
        } else {
            0
        }
        &&& now.previous == if run.forward_prev && settled > 0 {
            Some((run.first_block + settled - 1) as u64)
        } else {
            None
        }
        &&& now.cumulative_block_gas == gas_fetched(events) - match now.phase {
            SequentialPhase::Ready { figures } => figures.gas_used as int,
            _ => 0,
        }
        &&& now.cumulative_n_txs == txs_fetched(events) - match now.phase {
            SequentialPhase::Ready { figures } => figures.gas_used_per_tx@.len() as int,
            _ => 0,
        }
    }
    &&& match now.phase {
        SequentialPhase::Timing => asked is ReadTimer && has_time_limit(run) && (events.len() > 0
            ==> !(events.last() is Fetched) && !(events.last() is Proved)),
        SequentialPhase::Fetching => asked is Fetch,
        SequentialPhase::Ready { figures } => asked is ReadTimer && has_time_limit(run)
            && events.len() > 0 && events.last() == SequentialEvent::Fetched(figures),
        SequentialPhase::Proving { figures } => asked is Prove && last_fetched(events) == Some(
            figures,
        ),
        SequentialPhase::Judging { stats } => asked is ReadTimer && has_time_limit(run)
            && events.len() > 0 && events.last() is Proved && last_fetched(events) is Some
            && last_proved(events) is Some && is_of(
            stats,
            now.block_number,
            last_fetched(events)->0,
            last_proved(events)->0,
        ),
        SequentialPhase::Writing { stats } => asked is WriteProof && run.storing_proof
            && last_fetched(events) is Some && last_proved(events) is Some && is_of(
            stats,
            now.block_number,
            last_fetched(events)->0,
            last_proved(events)->0,
        ),
        SequentialPhase::Recording => asked is Record && run.storing_benchmark,
        SequentialPhase::Publishing => asked is Publish && run.storing_benchmark,
        SequentialPhase::Finished => asked is Finish,
    }
}

proof fn lemma_dialogue_prefix(run: SequentialRun, events: Seq<SequentialEvent>)
    requires
        is_dialogue(run, events),
        events.len() > 0,
    ensures
        is_dialogue(run, events.drop_last()),
        answers(
            crate::sequential_laws::actions(run, events.drop_last()).last(),
            events.last(),
        ),
        crate::sequential_laws::actions(run, events).len() == events.len() + 1,
        crate::sequential_laws::actions(run, events.drop_last()).len() == events.len(),
{
    let earlier = events.drop_last();
    crate::sequential_laws::lemma_actions_len(run, events);
    crate::sequential_laws::lemma_actions_len(run, earlier);
    let actions = crate::sequential_laws::actions(run, events);
    let before = crate::sequential_laws::actions(run, earlier);
    assert forall|k: int| 0 <= k < earlier.len() implies answers(
        #[trigger] before[k],
        earlier[k],
    ) by {
        assert(before[k] == actions[k]);
        assert(answers(actions[k], events[k]));
    }
    assert(answers(actions[events.len() - 1], events[events.len() - 1]));
}

proof fn lemma_elapsed(run: SequentialRun, end: crate::time::Timestamp)
    ensures
        0 <= crate::time::elapsed_seconds(run.started, end) <= u64::MAX,
        -0x8000_0000_0000_0000 * 1_000_000_000 < end@ - run.started@ < 0x8000_0000_0000_0000
            * 1_000_000_000 ==> crate::time::are_seconds_between(
            run.started,
            end,
            crate::time::elapsed_seconds(run.started, end),
        ),
{
    if -0x8000_0000_0000_0000 * 1_000_000_000 < end@ - run.started@ < 0x8000_0000_0000_0000
        * 1_000_000_000 {
        crate::time::law_elapsed_seconds_fit_between(run.started, end);
    }
}

/// What an answer makes of a run that has no proof of the current block in work.
proof fn lemma_step_before_proof(
    run: SequentialRun,
    now: SequentialRun,
    asked: SequentialAction,
    earlier: Seq<SequentialEvent>,
    told: SequentialEvent,
)
    requires
        on_course(run, now, asked, earlier),
        now.accepts(told),
        answers(asked, told),
        now.phase is Timing || now.phase is Fetching || now.phase is Ready,
    ensures
        on_course(run, now.next(told).0, now.next(told).1, earlier.push(told)),
        comes_of(run, earlier.push(told), now.next(told).1),
{
    let events = earlier.push(told);
    assert(events.drop_last() =~= earlier);
    assert(events.last() == told);
    assert(events[events.len() - 1] == told);
    assert(earlier.len() > 0 ==> events[events.len() - 2] == earlier.last());
    lemma_sums_bound_last(earlier);
}

/// What an answer makes of a run that waits for a proof.
proof fn lemma_step_proving(
    run: SequentialRun,
    now: SequentialRun,
    asked: SequentialAction,
    earlier: Seq<SequentialEvent>,
    told: SequentialEvent,
)
    requires
        on_course(run, now, asked, earlier),
        now.accepts(told),
        answers(asked, told),
        now.phase is Proving,
    ensures
        on_course(run, now.next(told).0, now.next(told).1, earlier.push(told)),
        comes_of(run, earlier.push(told), now.next(told).1),
{
    let events = earlier.push(told);
    assert(events.drop_last() =~= earlier);
    assert(events.last() == told);
    assert(events[events.len() - 1] == told);
    assert(earlier.len() > 0 ==> events[events.len() - 2] == earlier.last());
    lemma_sums_bound_last(earlier);
    if let SequentialEvent::Proved(times) = told {
        lemma_elapsed(run, times.end_time);
        crate::benchmarking::law_statistics_carry_figures_and_times(
            now.block_number,
            now.phase->Proving_figures,
            times,
        );
    }
}

/// What an answer makes of a run that is to learn whether a proof came in time.
proof fn lemma_step_judging(
    run: SequentialRun,
    now: SequentialRun,
    asked: SequentialAction,
    earlier: Seq<SequentialEvent>,
    told: SequentialEvent,
)
    requires
        on_course(run, now, asked, earlier),
        now.accepts(told),
        answers(asked, told),
        now.phase is Judging,
    ensures
        on_course(run, now.next(told).0, now.next(told).1, earlier.push(told)),
        comes_of(run, earlier.push(told), now.next(told).1),
{
    let events = earlier.push(told);
    assert(events.drop_last() =~= earlier);
    assert(events.last() == told);
    assert(events[events.len() - 1] == told);
    assert(earlier.len() > 0 ==> events[events.len() - 2] == earlier.last());
    lemma_sums_bound_last(earlier);
    lemma_elapsed(run, now.phase->Judging_stats.end_time);
}

/// What an answer makes of a run whose proof is put out.
proof fn lemma_step_writing(
    run: SequentialRun,
    now: SequentialRun,
    asked: SequentialAction,
    earlier: Seq<SequentialEvent>,
    told: SequentialEvent,
)
    requires
        on_course(run, now, asked, earlier),
        now.accepts(told),
        answers(asked, told),
        now.phase is Writing,
    ensures
        on_course(run, now.next(told).0, now.next(told).1, earlier.push(told)),
        comes_of(run, earlier.push(told), now.next(told).1),
{
    let events = earlier.push(told);
    assert(events.drop_last() =~= earlier);
    assert(events.last() == told);
    assert(events[events.len() - 1] == told);
    assert(earlier.len() > 0 ==> events[events.len() - 2] == earlier.last());
    lemma_sums_bound_last(earlier);
    lemma_elapsed(run, now.phase->Writing_stats.end_time);
}

/// What an answer makes of a run that is done with the proof of the current block.
proof fn lemma_step_rest(
    run: SequentialRun,
    now: SequentialRun,
    asked: SequentialAction,
    earlier: Seq<SequentialEvent>,
    told: SequentialEvent,
)
    requires
        on_course(run, now, asked, earlier),
        now.accepts(told),
        answers(asked, told),
        now.phase is Recording || now.phase is Publishing || now.phase is Finished,
    ensures
        on_course(run, now.next(told).0, now.next(told).1, earlier.push(told)),
        comes_of(run, earlier.push(told), now.next(told).1),
{
    let events = earlier.push(told);
    assert(events.drop_last() =~= earlier);
    assert(events.last() == told);
    assert(events[events.len() - 1] == told);
    assert(earlier.len() > 0 ==> events[events.len() - 2] == earlier.last());
    lemma_sums_bound_last(earlier);
}

/// What an answer makes of a run that is on its course.
proof fn lemma_step(
    run: SequentialRun,
    now: SequentialRun,
    asked: SequentialAction,
    earlier: Seq<SequentialEvent>,
    told: SequentialEvent,
)
    requires
        on_course(run, now, asked, earlier),
        now.accepts(told),
        answers(asked, told),
    ensures
        on_course(run, now.next(told).0, now.next(told).1, earlier.push(told)),
        comes_of(run, earlier.push(told), now.next(told).1),
{
    match now.phase {
        SequentialPhase::Timing | SequentialPhase::Fetching | SequentialPhase::Ready { .. } => {
            lemma_step_before_proof(run, now, asked, earlier, told);
        },
        SequentialPhase::Proving { .. } => {
            lemma_step_proving(run, now, asked, earlier, told);
        },
        SequentialPhase::Judging { .. } => {
            lemma_step_judging(run, now, asked, earlier, told);
        },
        SequentialPhase::Writing { .. } => {
            lemma_step_writing(run, now, asked, earlier, told);
        },
        _ => {
            lemma_step_rest(run, now, asked, earlier, told);
        },
    }
}

proof fn lemma_sums_bound_last(events: Seq<SequentialEvent>)
    ensures
        0 <= gas_fetched(events),
        0 <= txs_fetched(events),
        last_fetched(events) matches Some(figures) ==> figures.gas_used_per_tx@.len()
            <= txs_fetched(events),
    decreases events.len(),
{
    if events.len() > 0 {
        lemma_sums_bound_last(events.drop_last());
    }
}

proof fn lemma_on_course(run: SequentialRun, events: Seq<SequentialEvent>)
    requires
        crate::sequential_laws::untouched(run),
        crate::sequential_laws::accepted(run, events),
        is_dialogue(run, events),
    ensures
        on_course(
            run,
            crate::sequential_laws::after(run, events),
            crate::sequential_laws::actions(run, events).last(),
            events,
        ),
    decreases events.len(),
{
    if events.len() > 0 {
        lemma_dialogue_prefix(run, events);
        lemma_on_course(run, events.drop_last());
        lemma_step(
            run,
            crate::sequential_laws::after(run, events.drop_last()),
            crate::sequential_laws::actions(run, events.drop_last()).last(),
            events.drop_last(),
            events.last(),
        );
        assert(events.drop_last().push(events.last()) =~= events);
    }
}

/// Whether a run in this phase waits for this event.
pub open spec fn is_waited_for(phase: SequentialPhase, event: SequentialEvent) -> bool {
    match phase {
        SequentialPhase::Timing => event is Elapsed,
        SequentialPhase::Ready { .. } => event is Elapsed,
        SequentialPhase::Judging { .. } => event is Elapsed,
        SequentialPhase::Fetching => event is Fetched || event is FetchFailed,
        SequentialPhase::Proving { .. } => event is Proved || event is ProofFailed,
        SequentialPhase::Writing { .. } => event is ProofWritten || event is ProofWriteFailed,
        SequentialPhase::Recording => event is Recorded,
        SequentialPhase::Publishing => event is Published || event is PublishFailed,
        SequentialPhase::Finished => false,
    }
}

/// An event that is not waited for changes nothing, and is always taken in.
pub proof fn law_other_events_do_not_matter(run: SequentialRun, event: SequentialEvent)
    ensures
        !is_waited_for(run.phase, event) ==> {
            &&& run.next(event) == (run, SequentialAction::Ignore)
            &&& run.accepts(event)
        },
        is_waited_for(run.phase, event) ==> !(run.next(event).1 is Ignore),
{
}

/// Nothing is refused but a sum or a block number that does not fit: an event is taken in unless it
/// begins the proof of a block whose gas or number of transactions makes the sums too large, or ends
/// the work on the last block of all that has a number.
pub proof fn law_what_is_refused(run: SequentialRun, event: SequentialEvent)
    ensures
        ({
            let figures = match (run.phase, event) {
                (SequentialPhase::Ready { figures }, _) => figures,
                (_, SequentialEvent::Fetched(figures)) => figures,
                _ => arbitrary(),
            };
            let too_large = {
                ||| run.cumulative_block_gas + figures.gas_used > u64::MAX
                ||| run.cumulative_n_txs + figures.gas_used_per_tx@.len() > u64::MAX
            };
            let in_time = match (run.terminate_on, event) {
                (
                    Some(TerminateOn::ElapsedSeconds { num_seconds }),
                    SequentialEvent::Elapsed(seconds),
                ) => seconds < num_seconds,
                _ => true,
            };
            let last_block = run.block_number == u64::MAX;
            run.accepts(event) <==> match (run.phase, event) {
                (SequentialPhase::Fetching, SequentialEvent::Fetched(_)) => has_time_limit(run)
                    || !too_large,
                (SequentialPhase::Ready { .. }, SequentialEvent::Elapsed(_)) => !in_time
                    || !too_large,
                (SequentialPhase::Proving { .. }, SequentialEvent::Proved(_)) => has_time_limit(run)
                    || run.storing_proof || run.storing_benchmark || !last_block,
                (SequentialPhase::Judging { .. }, SequentialEvent::Elapsed(_)) => !in_time
                    || run.storing_proof || run.storing_benchmark || !last_block,
                (SequentialPhase::Writing { .. }, SequentialEvent::ProofWritten(_)) =>
                    run.storing_benchmark || !last_block,
                (SequentialPhase::Recording, SequentialEvent::Recorded) => !last_block,
                _ => true,
            }
        }),
{
}

/// With a limit of time, a run ends well only once a timer reading was at the limit or above: while
/// every reading is below, nothing is published and the run does not finish but for an error.
pub proof fn law_time_is_up_only_at_the_limit(
    run: SequentialRun,
    num_seconds: u64,
    events: Seq<SequentialEvent>,
)
    requires
        crate::sequential_laws::untouched(run),
        run.terminate_on == Some(TerminateOn::ElapsedSeconds { num_seconds }),
        forall|k: int|
            0 <= k < events.len() ==> (#[trigger] events[k] matches SequentialEvent::Elapsed(s)
                ==> s < num_seconds),
    ensures
        ({
            let actions = crate::sequential_laws::actions(run, events);
            &&& !actions.contains(SequentialAction::Publish)
            &&& !actions.contains(SequentialAction::Finish(Ok(())))
            &&& !(crate::sequential_laws::after(run, events).phase is Publishing)
            &&& crate::sequential_laws::after(run, events).terminate_on == run.terminate_on
        }),
    decreases events.len(),
{
    let actions = crate::sequential_laws::actions(run, events);
    crate::sequential_laws::lemma_actions_len(run, events);
    if events.len() > 0 {
        let earlier = events.drop_last();
        assert forall|k: int| 0 <= k < earlier.len() implies (
        #[trigger] earlier[k] matches SequentialEvent::Elapsed(s) ==> s < num_seconds) by {
            assert(earlier[k] == events[k]);
        }
        law_time_is_up_only_at_the_limit(run, num_seconds, earlier);
        crate::sequential_laws::lemma_actions_len(run, earlier);
        let before = crate::sequential_laws::actions(run, earlier);
        assert(events.last() == events[events.len() - 1]);
        let last = crate::sequential_laws::after(run, earlier).next(events.last()).1;
        assert(!(last is Publish) && last != SequentialAction::Finish(Ok(())));
        assert forall|k: int| 0 <= k < actions.len() implies actions[k]
            != SequentialAction::Publish && actions[k] != SequentialAction::Finish(Ok(())) by {
            if k < before.len() {
                assert(actions[k] == before[k]);
                assert(before.contains(before[k]));
            }
        }
    }
}

} // verus!
