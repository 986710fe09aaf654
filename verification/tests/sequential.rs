use std::time::Duration;
use zero_bin::benchmarking::{BenchmarkOutputConfig, BenchmarkingOutputError, BenchmarkingStats, BlockFigures, ProofTimes};
use zero_bin::fetch::FetchError;
use zero_bin::input::{BlockSource, ProveBlocksInput, TerminateOn};
use zero_bin::manyprover::{Build, BuildEvent, ManyProver, ManyProverError};
use zero_bin::proofout::{ProofOutputError, ProofOutputMethod};
use zero_bin::sequential::{SequentialAction, SequentialEvent, SequentialPhase, SequentialRun};
use zero_bin::time::Timestamp;

const STARTED: i64 = 1_700_000_000;

fn prover(start: u64, terminate_on: Option<TerminateOn>, outputs: bool, forward_prev: Option<bool>) -> ManyProver {
    let input = ProveBlocksInput {
        run_name: None,
        start_block_number: start,
        checkpoint_block_number: None,
        terminate_on,
        block_source: BlockSource::ZeroBinRpc { rpc_url: String::from("http://localhost:8545/") },
        block_concurrency: None,
        check_gas: Some(true),
        proof_output: if outputs {
            Some(ProofOutputMethod::LocalDirectory { prefix: String::from("test") })
        } else {
            None
        },
        benchmark_output: if outputs {
            Some(BenchmarkOutputConfig::LocalCsv { file_name: String::from("test.csv") })
        } else {
            None
        },
        forward_prev,
    };
    let mut build = ManyProver::new(input);
    loop {
        match build {
            Build::Built(prover) => return prover,
            Build::Failed(error) => panic!("{:?}", error),
            waiting => build = waiting.step(BuildEvent::Opened),
        }
    }
}

fn started() -> Timestamp {
    Timestamp::new(STARTED, 0).unwrap()
}

fn figures(gas_used: u64, txs: usize) -> BlockFigures {
    BlockFigures { gas_used, gas_used_per_tx: vec![1; txs], difficulty: 2, fetch_duration: Duration::from_secs(1) }
}

fn times(end: i64) -> ProofTimes {
    ProofTimes {
        total_proof_duration: Duration::from_secs(5),
        prep_duration: Some(Duration::from_secs(1)),
        txproof_duration: Some(Duration::from_secs(2)),
        agg_duration: Some(Duration::from_secs(2)),
        start_time: started(),
        end_time: Timestamp::new(STARTED + end, 0).unwrap(),
    }
}

fn take(run: SequentialRun, event: SequentialEvent) -> (SequentialRun, SequentialAction) {
    assert!(run.is_acceptable(&event));
    run.step(event)
}

/// What a run did in which everything works out: the proofs that were asked for, the files that were
/// written, the statistics, and how often it published.
struct Course {
    proofs: Vec<(u64, Option<u64>)>,
    written: Vec<u64>,
    stats: Vec<BenchmarkingStats>,
    published: usize,
    blocks: u64,
    outcome: Option<Result<(), ManyProverError>>,
}

/// Lets a run go on for some steps, each block taking ten seconds and using the gas of `gas`.
fn play(prover: &ManyProver, gas: &[u64], steps: usize) -> Course {
    let mut course =
        Course { proofs: vec![], written: vec![], stats: vec![], published: 0, blocks: 0, outcome: None };
    let (mut run, mut action) = prover.prove_blocks_sequentially(started());
    for _ in 0..steps {
        let event = match action {
            SequentialAction::ReadTimer => SequentialEvent::Elapsed(10 * course.blocks),
            SequentialAction::Fetch { block_number, checkpoint_block_number } => {
                assert_eq!(block_number, prover.starting_block() + course.blocks);
                assert_eq!(checkpoint_block_number, Some(prover.starting_block().saturating_sub(1)));
                SequentialEvent::Fetched(figures(gas[course.blocks as usize % gas.len()], 3))
            }
            SequentialAction::Prove { block_number, previous, save_inputs_on_error } => {
                assert!(save_inputs_on_error);
                course.proofs.push((block_number, previous));
                course.blocks += 1;
                SequentialEvent::Proved(times(10 * course.blocks as i64))
            }
            SequentialAction::WriteProof { block_number } => {
                course.written.push(block_number);
                SequentialEvent::ProofWritten(Duration::from_secs(1))
            }
            SequentialAction::Record(stats) => {
                course.stats.push(stats);
                SequentialEvent::Recorded
            }
            SequentialAction::Publish => {
                course.published += 1;
                SequentialEvent::Published
            }
            SequentialAction::Finish(outcome) => {
                course.outcome = Some(outcome);
                return course;
            }
            SequentialAction::Ignore => panic!("ignored"),
        };
        let next = take(run, event);
        run = next.0;
        action = next.1;
    }
    course
}

#[test]
fn blocks_one_to_ten_are_proved() {
    let prover = prover(1, Some(TerminateOn::EndBlock { block_number: 10 }), true, None);
    let course = play(&prover, &[100], 1000);
    let proofs: Vec<(u64, Option<u64>)> = (1..=10).map(|n| (n, None)).collect();
    assert_eq!(course.proofs, proofs);
    assert_eq!(course.written, (1..=10).collect::<Vec<u64>>());
    assert_eq!(course.stats.len(), 10);
    assert_eq!(course.published, 1);
    assert_eq!(course.outcome, Some(Ok(())));
}

#[test]
fn end_block_before_the_start_proves_nothing() {
    let prover = prover(11, Some(TerminateOn::EndBlock { block_number: 10 }), false, None);
    let course = play(&prover, &[100], 1000);
    assert!(course.proofs.is_empty());
    assert_eq!(course.outcome, Some(Ok(())));
}

#[test]
fn sequential_statistics_add_up() {
    let prover = prover(7, Some(TerminateOn::EndBlock { block_number: 9 }), true, None);
    let course = play(&prover, &[100, 20, 3], 1000);
    let blocks: Vec<u64> = course.stats.iter().map(|s| s.block_number).collect();
    assert_eq!(blocks, vec![7, 8, 9]);
    let gas: Vec<Option<u64>> = course.stats.iter().map(|s| s.cumulative_gas_used).collect();
    assert_eq!(gas, vec![Some(100), Some(120), Some(123)]);
    let txs: Vec<Option<u64>> = course.stats.iter().map(|s| s.cumulative_n_txs).collect();
    assert_eq!(txs, vec![Some(3), Some(6), Some(9)]);
    let elapsed: Vec<Option<u64>> = course.stats.iter().map(|s| s.overall_elapsed_seconds).collect();
    assert_eq!(elapsed, vec![Some(10), Some(20), Some(30)]);
    assert_eq!(course.stats[2].gas_used, 3);
    assert_eq!(course.stats[2].n_txs, 3);
    assert_eq!(course.stats[2].difficulty, 2);
    assert_eq!(course.stats[2].proof_out_duration, Some(Duration::from_secs(1)));
    assert_eq!(course.stats[2].txproof_duration, Some(Duration::from_secs(2)));
}

#[test]
fn gas_sum_ends_a_sequential_run() {
    let until = |until_gas_sum| Some(TerminateOn::BlockGasUsed { until_gas_sum });
    let course = play(&prover(1, until(250), false, None), &[100], 1000);
    assert_eq!(course.proofs.len(), 3);
    assert_eq!(course.outcome, Some(Ok(())));
    let course = play(&prover(1, until(200), false, None), &[100], 1000);
    assert_eq!(course.proofs.len(), 2);
    let course = play(&prover(1, until(0), false, None), &[100], 1000);
    assert_eq!(course.proofs.len(), 1);
}

#[test]
fn time_ends_a_sequential_run() {
    let limit = |num_seconds| Some(TerminateOn::ElapsedSeconds { num_seconds });
    let course = play(&prover(1, limit(25), true, None), &[100], 1000);
    assert_eq!(course.proofs.len(), 3);
    assert_eq!(course.written, vec![1, 2]);
    assert_eq!(course.stats.len(), 2);
    assert_eq!(course.published, 1);
    assert_eq!(course.outcome, Some(Ok(())));
    let course = play(&prover(1, limit(20), true, None), &[100], 1000);
    assert_eq!(course.proofs.len(), 2);
    assert_eq!(course.written, vec![1]);
    assert_eq!(course.stats.len(), 1);
    let course = play(&prover(1, limit(21), false, None), &[100], 1000);
    assert_eq!(course.proofs.len(), 3);
    let course = play(&prover(1, limit(0), false, None), &[100], 1000);
    assert!(course.proofs.is_empty());
    assert_eq!(course.outcome, Some(Ok(())));
}

#[test]
fn run_without_a_condition_goes_on() {
    let course = play(&prover(1, None, true, None), &[1], 1000);
    assert_eq!(course.outcome, None);
    assert_eq!(course.published, 0);
    assert!(course.proofs.len() > 200);
}

#[test]
fn proofs_are_forwarded_if_asked_for() {
    let end = Some(TerminateOn::EndBlock { block_number: 6 });
    let course = play(&prover(4, end, false, Some(true)), &[1], 1000);
    assert_eq!(course.proofs, vec![(4, None), (5, Some(4)), (6, Some(5))]);
    let course = play(&prover(4, end, false, Some(false)), &[1], 1000);
    assert_eq!(course.proofs, vec![(4, None), (5, None), (6, None)]);
}

#[test]
fn nothing_is_stored_unless_asked_for() {
    let course = play(&prover(1, Some(TerminateOn::EndBlock { block_number: 3 }), false, None), &[1], 1000);
    assert_eq!(course.proofs.len(), 3);
    assert!(course.written.is_empty());
    assert!(course.stats.is_empty());
    assert_eq!(course.published, 0);
}

#[test]
fn fetch_failure_ends_a_sequential_run() {
    let prover = prover(1, None, true, None);
    let (run, _) = prover.prove_blocks_sequentially(started());
    let error = FetchError::ZeroBinRpcFetchError(String::from("gone"));
    let (run, action) = take(run, SequentialEvent::FetchFailed(error));
    assert_eq!(
        action,
        SequentialAction::Finish(Err(ManyProverError::Fetch(FetchError::ZeroBinRpcFetchError(String::from("gone")))))
    );
    assert_eq!(run.phase, SequentialPhase::Finished);
}

#[test]
fn proof_failure_ends_a_sequential_run() {
    let prover = prover(1, None, true, None);
    let (run, _) = prover.prove_blocks_sequentially(started());
    let (run, _) = take(run, SequentialEvent::Fetched(figures(1, 1)));
    let (_, action) = take(run, SequentialEvent::ProofFailed(String::from("bad")));
    assert_eq!(action, SequentialAction::Finish(Err(ManyProverError::Proof(String::from("bad")))));
}

#[test]
fn write_failure_ends_a_sequential_run() {
    let prover = prover(1, None, true, None);
    let (run, _) = prover.prove_blocks_sequentially(started());
    let (run, _) = take(run, SequentialEvent::Fetched(figures(1, 1)));
    let (run, _) = take(run, SequentialEvent::Proved(times(1)));
    let error = ProofOutputError { message: String::from("full") };
    let (_, action) = take(run, SequentialEvent::ProofWriteFailed(error));
    assert_eq!(
        action,
        SequentialAction::Finish(Err(ManyProverError::ProofOutError(ProofOutputError {
            message: String::from("full")
        })))
    );
}

#[test]
fn publish_failure_fails_a_sequential_run() {
    let prover = prover(2, Some(TerminateOn::EndBlock { block_number: 1 }), false, None);
    let (mut run, _) = prover.prove_blocks_sequentially(started());
    run.phase = SequentialPhase::Publishing;
    let error = BenchmarkingOutputError { message: String::from("full") };
    let (_, action) = take(run, SequentialEvent::PublishFailed(error));
    assert_eq!(
        action,
        SequentialAction::Finish(Err(ManyProverError::BenchmarkingOutput(BenchmarkingOutputError {
            message: String::from("full")
        })))
    );
}

#[test]
fn one_block_is_in_work_at_a_time() {
    let prover = prover(1, None, true, None);
    let (run, _) = prover.prove_blocks_sequentially(started());
    let (run, _) = take(run, SequentialEvent::Fetched(figures(1, 1)));
    let (run, action) = take(run, SequentialEvent::Fetched(figures(1, 1)));
    assert_eq!(action, SequentialAction::Ignore);
    assert_eq!(run.phase, SequentialPhase::Proving { figures: figures(1, 1) });
    assert_eq!(run.cumulative_block_gas, 1);
}

#[test]
fn finished_sequential_run_stays_finished() {
    let prover = prover(1, Some(TerminateOn::EndBlock { block_number: 0 }), false, None);
    let (run, action) = prover.prove_blocks_sequentially(started());
    assert_eq!(action, SequentialAction::Finish(Ok(())));
    let (run, action) = take(run, SequentialEvent::Fetched(figures(1, 1)));
    assert_eq!(action, SequentialAction::Ignore);
    assert_eq!(run.phase, SequentialPhase::Finished);
}

#[test]
fn sums_that_do_not_fit_are_not_acceptable() {
    let last = prover(u64::MAX, None, false, None);
    let (run, _) = last.prove_blocks_sequentially(started());
    let (run, _) = take(run, SequentialEvent::Fetched(figures(u64::MAX, 1)));
    assert!(!run.is_acceptable(&SequentialEvent::Proved(times(1))));
    let first = prover(1, None, false, None);
    let (run, _) = first.prove_blocks_sequentially(started());
    let (run, _) = take(run, SequentialEvent::Fetched(figures(u64::MAX, 1)));
    let (run, _) = take(run, SequentialEvent::Proved(times(1)));
    assert!(!run.is_acceptable(&SequentialEvent::Fetched(figures(1, 1))));
    assert!(run.is_acceptable(&SequentialEvent::Fetched(figures(0, 1))));
}

#[test]
fn recorded_statistics_are_kept_in_order() {
    let mut with_outputs = prover(1, Some(TerminateOn::EndBlock { block_number: 2 }), true, None);
    let stats = play(&with_outputs, &[5], 1000).stats;
    for s in stats {
        with_outputs.record(s);
    }
    let kept: Vec<u64> = with_outputs.benchmark_out.as_ref().unwrap().stats.iter().map(|s| s.block_number).collect();
    assert_eq!(kept, vec![1, 2]);
    let mut without = prover(1, None, false, None);
    without.record(BenchmarkingStats::of_block(1, figures(1, 1), times(1)));
    assert_eq!(without.benchmark_out, None);
}

#[test]
fn proof_is_not_begun_if_fetching_took_too_long() {
    let timed = prover(1, Some(TerminateOn::ElapsedSeconds { num_seconds: 20 }), true, None);
    let (run, action) = timed.prove_blocks_sequentially(started());
    assert_eq!(action, SequentialAction::ReadTimer);
    let (run, action) = take(run, SequentialEvent::Elapsed(0));
    assert_eq!(action, SequentialAction::Fetch { block_number: 1, checkpoint_block_number: Some(0) });
    let (run, action) = take(run, SequentialEvent::Fetched(figures(u64::MAX, 1)));
    assert_eq!(action, SequentialAction::ReadTimer);
    let (run, action) = take(run, SequentialEvent::Elapsed(20));
    assert_eq!(action, SequentialAction::Publish);
    assert_eq!(run.cumulative_block_gas, 0);
}

#[test]
fn late_proof_is_dropped() {
    let timed = prover(1, Some(TerminateOn::ElapsedSeconds { num_seconds: 20 }), true, None);
    let (run, _) = timed.prove_blocks_sequentially(started());
    let (run, _) = take(run, SequentialEvent::Elapsed(0));
    let (run, _) = take(run, SequentialEvent::Fetched(figures(1, 1)));
    let (run, action) = take(run, SequentialEvent::Elapsed(19));
    assert_eq!(action, SequentialAction::Prove { block_number: 1, previous: None, save_inputs_on_error: true });
    let (run, action) = take(run, SequentialEvent::Proved(times(20)));
    assert_eq!(action, SequentialAction::ReadTimer);
    let (run, action) = take(run, SequentialEvent::Elapsed(20));
    assert_eq!(action, SequentialAction::Publish);
    let (_, action) = take(run, SequentialEvent::Published);
    assert_eq!(action, SequentialAction::Finish(Ok(())));
}

#[test]
fn checkpoint_of_the_request_is_used_for_every_block() {
    let mut asked = prover(5, Some(TerminateOn::EndBlock { block_number: 6 }), false, None);
    asked.input_request.checkpoint_block_number = Some(2);
    let (run, action) = asked.prove_blocks_sequentially(started());
    assert_eq!(action, SequentialAction::Fetch { block_number: 5, checkpoint_block_number: Some(2) });
    let (run, _) = take(run, SequentialEvent::Fetched(figures(1, 1)));
    let (_, action) = take(run, SequentialEvent::Proved(times(1)));
    assert_eq!(action, SequentialAction::Fetch { block_number: 6, checkpoint_block_number: Some(2) });
}
