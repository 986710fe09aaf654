use std::time::Duration;
use zero_bin::benchmarking::{BenchmarkingStats, BlockFigures, ProofTimes};
use zero_bin::input::TerminateOn;
use zero_bin::manyprover::ManyProverError;
use zero_bin::parallel::{ParallelAction, ParallelEvent, ParallelPhase, ParallelRun};
use zero_bin::proofout::ProofOutputError;
use zero_bin::time::Timestamp;

const STARTED: i64 = 1_700_000_000;

fn run(terminate_on: Option<TerminateOn>, tasks: Option<(u64, u64)>, outputs: bool) -> ParallelRun {
    ParallelRun {
        terminate_on,
        tasks,
        storing_proof: outputs,
        storing_benchmark: outputs,
        cumulative_block_gas: 0,
        cumulative_n_txs: 0,
        phase: ParallelPhase::Spawning,
    }
}

fn started() -> Timestamp {
    Timestamp::new(STARTED, 0).unwrap()
}

fn result(block_number: u64, gas_used: u64, end: i64) -> BenchmarkingStats {
    let figures = BlockFigures {
        gas_used,
        gas_used_per_tx: vec![1, 2],
        difficulty: 2,
        fetch_duration: Duration::from_secs(1),
    };
    let times = ProofTimes {
        total_proof_duration: Duration::from_secs(5),
        prep_duration: None,
        txproof_duration: None,
        agg_duration: None,
        start_time: started(),
        end_time: Timestamp::new(STARTED + end, 0).unwrap(),
    };
    BenchmarkingStats::of_block(block_number, figures, times)
}

fn take(run: ParallelRun, event: ParallelEvent) -> (ParallelRun, ParallelAction) {
    assert!(run.is_acceptable(&event));
    run.step(event)
}

/// Brings a run to where it waits for its first result; gives the blocks that were queued.
fn begin(run: ParallelRun) -> (ParallelRun, Vec<u64>) {
    let mut queued = vec![];
    let (mut run, mut action) = take(run, ParallelEvent::TaskeesSpawned);
    loop {
        let event = match action {
            ParallelAction::SendTask { block_number } => {
                queued.push(block_number);
                ParallelEvent::TaskSent
            }
            ParallelAction::CloseTasks => ParallelEvent::TasksClosed,
            ParallelAction::Start => ParallelEvent::Started(started()),
            ParallelAction::ReceiveResult => return (run, queued),
            other => panic!("unexpected: {:?}", other),
        };
        let next = take(run, event);
        run = next.0;
        action = next.1;
    }
}

/// Winds a run up that was told to stop; gives whether it published, and its outcome.
fn wind_up(run: ParallelRun, publish: ParallelEvent) -> (bool, Result<(), ManyProverError>) {
    let mut published = false;
    let (mut run, mut action) = take(run, ParallelEvent::TaskeesStopped);
    if action == ParallelAction::Publish {
        published = true;
        let next = take(run, publish);
        run = next.0;
        action = next.1;
    }
    assert_eq!(action, ParallelAction::JoinTaskees);
    let (_, action) = take(run, ParallelEvent::TaskeesJoined);
    match action {
        ParallelAction::Finish(outcome) => (published, outcome),
        other => panic!("unexpected: {:?}", other),
    }
}

#[test]
fn every_block_of_the_range_is_queued() {
    let (_, queued) = begin(run(None, Some((3, 7)), false));
    assert_eq!(queued, vec![3, 4, 5, 6, 7]);
    let (_, queued) = begin(run(None, Some((u64::MAX, u64::MAX)), false));
    assert_eq!(queued, vec![u64::MAX]);
    let (_, queued) = begin(run(None, None, false));
    assert!(queued.is_empty());
}

#[test]
fn block_that_cannot_be_queued_fails_the_run() {
    let (run, _) = take(run(None, Some((3, 7)), false), ParallelEvent::TaskeesSpawned);
    let (run, _) = take(run, ParallelEvent::TaskSent);
    let (run, action) = take(run, ParallelEvent::TaskSendFailed);
    assert_eq!(action, ParallelAction::Finish(Err(ManyProverError::FailedToSendTask(4))));
    assert_eq!(run.phase, ParallelPhase::Finished);
}

#[test]
fn parallel_statistics_add_up() {
    let (run, _) = begin(run(None, Some((1, 2)), true));
    let (run, action) = take(run, ParallelEvent::ResultReceived(result(2, 100, 10)));
    assert_eq!(action, ParallelAction::WriteProof { block_number: 2 });
    let (run, action) = take(run, ParallelEvent::ProofWritten(Duration::from_secs(4)));
    assert_eq!(action, ParallelAction::Record(result(2, 100, 10).in_run(2, 100, 10, Some(Duration::from_secs(4)))));
    let (run, action) = take(run, ParallelEvent::Recorded);
    assert_eq!(action, ParallelAction::ReceiveResult);
    let (run, _) = take(run, ParallelEvent::ResultReceived(result(1, 30, 25)));
    let (run, action) = take(run, ParallelEvent::ProofWritten(Duration::from_secs(5)));
    assert_eq!(action, ParallelAction::Record(result(1, 30, 25).in_run(4, 130, 25, Some(Duration::from_secs(5)))));
    let (run, _) = take(run, ParallelEvent::Recorded);
    let (run, action) = take(run, ParallelEvent::ResultsClosed);
    assert_eq!(action, ParallelAction::StopTaskees);
    assert_eq!(wind_up(run, ParallelEvent::Published), (true, Ok(())));
}

#[test]
fn parallel_run_without_outputs() {
    let (run, _) = begin(run(Some(TerminateOn::EndBlock { block_number: 1 }), Some((1, 1)), false));
    let (run, action) = take(run, ParallelEvent::ResultReceived(result(1, 100, 10)));
    assert_eq!(action, ParallelAction::ReceiveResult);
    assert_eq!(run.cumulative_block_gas, 100);
    assert_eq!(run.cumulative_n_txs, 2);
    let (run, _) = take(run, ParallelEvent::ResultsClosed);
    assert_eq!(wind_up(run, ParallelEvent::Published), (false, Ok(())));
}

#[test]
fn blocks_that_fail_are_skipped() {
    let (before, _) = begin(run(None, Some((1, 2)), true));
    let (again, _) = begin(run(None, Some((1, 2)), true));
    let (after, action) = take(before, ParallelEvent::ResultFailed(ManyProverError::Proof(String::from("bad"))));
    assert_eq!(action, ParallelAction::ReceiveResult);
    assert_eq!(after, again);
}

#[test]
fn gas_sum_ends_a_parallel_run() {
    let (run, _) = begin(run(Some(TerminateOn::BlockGasUsed { until_gas_sum: 150 }), Some((1, 9)), false));
    let (run, action) = take(run, ParallelEvent::ResultReceived(result(1, 100, 10)));
    assert_eq!(action, ParallelAction::ReceiveResult);
    let (run, action) = take(run, ParallelEvent::ResultReceived(result(2, 50, 10)));
    assert_eq!(action, ParallelAction::StopTaskees);
    assert_eq!(wind_up(run, ParallelEvent::Published), (false, Ok(())));
}

fn timed() -> ParallelRun {
    begin(run(Some(TerminateOn::ElapsedSeconds { num_seconds: 20 }), Some((1, 9)), true)).0
}

#[test]
fn time_ends_a_parallel_run_before_recording() {
    let (run, action) = take(timed(), ParallelEvent::ResultReceived(result(1, 100, 10)));
    assert_eq!(action, ParallelAction::ReadTimer);
    assert_eq!(run.cumulative_block_gas, 0);
    let (run, action) = take(run, ParallelEvent::Elapsed(10));
    assert_eq!(action, ParallelAction::WriteProof { block_number: 1 });
    assert_eq!(run.cumulative_block_gas, 100);
    let (run, _) = take(run, ParallelEvent::ProofWritten(Duration::from_secs(1)));
    let (run, action) = take(run, ParallelEvent::Recorded);
    assert_eq!(action, ParallelAction::ReadTimer);
    let (run, action) = take(run, ParallelEvent::Elapsed(19));
    assert_eq!(action, ParallelAction::ReceiveResult);
    let (run, action) = take(run, ParallelEvent::ResultReceived(result(2, 100, 20)));
    assert_eq!(action, ParallelAction::ReadTimer);
    let (run, action) = take(run, ParallelEvent::Elapsed(20));
    assert_eq!(action, ParallelAction::StopTaskees);
    assert_eq!(run.cumulative_block_gas, 100);
    let (run, action) = take(run, ParallelEvent::ResultReceived(result(3, 100, 20)));
    assert_eq!(action, ParallelAction::Ignore);
    assert_eq!(wind_up(run, ParallelEvent::Published), (true, Ok(())));
}

#[test]
fn time_ends_a_parallel_run_while_writing() {
    let (run, _) = take(timed(), ParallelEvent::ResultReceived(result(1, 100, 19)));
    let (run, _) = take(run, ParallelEvent::Elapsed(19));
    let (run, _) = take(run, ParallelEvent::ProofWritten(Duration::from_secs(1)));
    let (run, _) = take(run, ParallelEvent::Recorded);
    let (run, action) = take(run, ParallelEvent::Elapsed(20));
    assert_eq!(action, ParallelAction::StopTaskees);
    assert_eq!(wind_up(run, ParallelEvent::Published), (true, Ok(())));
}

#[test]
fn timer_is_read_after_blocks_that_fail() {
    let failed = || ParallelEvent::ResultFailed(ManyProverError::Proof(String::from("bad")));
    let (run, action) = take(timed(), failed());
    assert_eq!(action, ParallelAction::ReadTimer);
    let (run, action) = take(run, ParallelEvent::Elapsed(19));
    assert_eq!(action, ParallelAction::ReceiveResult);
    assert_eq!(run, timed());
    let (run, _) = take(run, failed());
    let (_, action) = take(run, ParallelEvent::Elapsed(20));
    assert_eq!(action, ParallelAction::StopTaskees);
}

#[test]
fn recorded_blocks_are_distinct_tasks() {
    let (mut run, queued) = begin(run(None, Some((3, 5)), true));
    let mut blocks = vec![];
    for block_number in [4, 3, 5] {
        assert!(queued.contains(&block_number));
        run = take(run, ParallelEvent::ResultReceived(result(block_number, 1, 1))).0;
        let (next, action) = take(run, ParallelEvent::ProofWritten(Duration::from_secs(1)));
        match action {
            ParallelAction::Record(stats) => blocks.push(stats.block_number),
            other => panic!("unexpected: {:?}", other),
        }
        run = take(next, ParallelEvent::Recorded).0;
    }
    assert_eq!(blocks, vec![4, 3, 5]);
}

#[test]
fn proof_that_cannot_be_put_out_fails_the_run() {
    let (run, _) = begin(run(None, Some((1, 9)), true));
    let (run, _) = take(run, ParallelEvent::ResultReceived(result(1, 100, 10)));
    let error = ProofOutputError { message: String::from("full") };
    let (_, action) = take(run, ParallelEvent::ProofWriteFailed(error));
    assert_eq!(
        action,
        ParallelAction::Finish(Err(ManyProverError::ProofOutError(ProofOutputError { message: String::from("full") })))
    );
}

#[test]
fn publishing_does_not_fail_a_parallel_run() {
    let (run, _) = begin(run(None, Some((1, 9)), true));
    let (run, _) = take(run, ParallelEvent::ResultsClosed);
    assert_eq!(wind_up(run, ParallelEvent::PublishFailed), (true, Ok(())));
}

#[test]
fn parallel_sums_that_do_not_fit_are_not_acceptable() {
    let (run, _) = begin(run(None, Some((1, 9)), false));
    let (run, _) = take(run, ParallelEvent::ResultReceived(result(1, u64::MAX, 10)));
    assert!(!run.is_acceptable(&ParallelEvent::ResultReceived(result(2, 1, 10))));
    assert!(run.is_acceptable(&ParallelEvent::ResultReceived(result(2, 0, 10))));
}
