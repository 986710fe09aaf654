use std::time::Duration;
use zero_bin::benchmarking::{BenchmarkingStats, BlockFigures, ProofTimes};
use zero_bin::input::TerminateOn;
use zero_bin::manyprover::ManyProverError;
use zero_bin::parallel::{ParallelAction, ParallelEvent, ParallelPhase, ParallelRun};
use zero_bin::task::{
    BlockTask, BlockTaskAction, BlockTaskEvent, TaskOrders, Taskee, TaskeeAction, TaskeeEvent,
};
use zero_bin::time::Timestamp;

type Outcome = Result<BenchmarkingStats, ManyProverError>;

fn now() -> Timestamp {
    Timestamp::new(1_700_000_000, 0).unwrap()
}

/// Proves a block on its own; the proof of block `bad` fails.
fn prove(block_number: u64, orders: TaskOrders, bad: u64, seconds: u64) -> Option<Outcome> {
    let (mut task, mut action) = BlockTask::prove_block(block_number, orders);
    loop {
        let event = match action {
            BlockTaskAction::Fetch { .. } => BlockTaskEvent::Fetched(BlockFigures {
                gas_used: 10,
                gas_used_per_tx: vec![10],
                difficulty: 1,
                fetch_duration: Duration::from_secs(1),
            }),
            BlockTaskAction::ReadTimer => BlockTaskEvent::Elapsed(seconds),
            BlockTaskAction::Prove { block_number, .. } if block_number == bad => {
                BlockTaskEvent::ProofFailed(String::from("bad"))
            }
            BlockTaskAction::Prove { .. } => BlockTaskEvent::Proved(ProofTimes {
                total_proof_duration: Duration::from_secs(1),
                prep_duration: None,
                txproof_duration: None,
                agg_duration: None,
                start_time: now(),
                end_time: now(),
            }),
            BlockTaskAction::Finish(outcome) => return Some(outcome),
            BlockTaskAction::GiveUp => return None,
            BlockTaskAction::Ignore => panic!("ignored"),
        };
        let next = task.step(event);
        task = next.0;
        action = next.1;
    }
}

/// Runs blocks 3 to 12 with some taskees, all taking turns; the last block in the queue is pulled
/// first.  Each timer reading is one second after the one before.  Gives the blocks that were put out
/// and those that were recorded.
fn play(terminate_on: Option<TerminateOn>, taskees: u8, bad: u64) -> (Vec<u64>, Vec<u64>) {
    let num_seconds = match terminate_on {
        Some(TerminateOn::ElapsedSeconds { num_seconds }) => Some(num_seconds),
        _ => None,
    };
    let orders = TaskOrders { checkpoint_block_number: 2, num_seconds };
    let mut run = ParallelRun {
        terminate_on,
        tasks: Some((3, 12)),
        storing_proof: true,
        storing_benchmark: true,
        cumulative_block_gas: 0,
        cumulative_n_txs: 0,
        phase: ParallelPhase::Spawning,
    };
    let mut action = ParallelAction::SpawnTaskees { count: taskees, orders };
    let mut members: Vec<(Taskee, TaskeeAction, Option<Outcome>)> = vec![];
    let mut queue: Vec<u64> = vec![];
    let mut sent: Vec<Outcome> = vec![];
    let mut working = false;
    let mut clock: u64 = 0;
    let mut written = vec![];
    let mut recorded = vec![];
    loop {
        let event = match action {
            ParallelAction::SpawnTaskees { count, orders } => {
                for _ in 0..count {
                    let (taskee, wanted) = Taskee::new(orders);
                    members.push((taskee, wanted, None));
                }
                Some(ParallelEvent::TaskeesSpawned)
            }
            ParallelAction::SendTask { block_number } => {
                queue.push(block_number);
                Some(ParallelEvent::TaskSent)
            }
            ParallelAction::CloseTasks => Some(ParallelEvent::TasksClosed),
            ParallelAction::Start => {
                working = true;
                Some(ParallelEvent::Started(now()))
            }
            ParallelAction::ReceiveResult => match sent.pop() {
                Some(Ok(stats)) => Some(ParallelEvent::ResultReceived(stats)),
                Some(Err(error)) => Some(ParallelEvent::ResultFailed(error)),
                None if members.iter().all(|m| m.1 == TaskeeAction::Stop) => Some(ParallelEvent::ResultsClosed),
                None => None,
            },
            ParallelAction::WriteProof { block_number } => {
                written.push(block_number);
                Some(ParallelEvent::ProofWritten(Duration::from_secs(1)))
            }
            ParallelAction::Record(ref stats) => {
                recorded.push(stats.block_number);
                Some(ParallelEvent::Recorded)
            }
            ParallelAction::ReadTimer => {
                clock += 1;
                Some(ParallelEvent::Elapsed(clock))
            }
            ParallelAction::StopTaskees => {
                working = false;
                Some(ParallelEvent::TaskeesStopped)
            }
            ParallelAction::Publish => Some(ParallelEvent::Published),
            ParallelAction::JoinTaskees => {
                if members.iter().all(|m| m.1 == TaskeeAction::Stop) {
                    Some(ParallelEvent::TaskeesJoined)
                } else {
                    None
                }
            }
            ParallelAction::Finish(outcome) => {
                assert_eq!(outcome, Ok(()));
                return (written, recorded);
            }
            ParallelAction::Ignore => panic!("ignored"),
        };
        if let Some(event) = event {
            assert!(run.is_acceptable(&event));
            let next = run.step(event);
            run = next.0;
            action = next.1;
        }
        for member in members.iter_mut() {
            let event = match member.1 {
                TaskeeAction::ReadFlag => TaskeeEvent::Flag(working),
                TaskeeAction::ReadTimer => {
                    clock += 1;
                    TaskeeEvent::Elapsed(clock)
                }
                TaskeeAction::Receive => match queue.pop() {
                    Some(block_number) => TaskeeEvent::Task(block_number),
                    None => TaskeeEvent::TasksClosed,
                },
                TaskeeAction::Prove { block_number } => {
                    member.2 = prove(block_number, orders, bad, clock);
                    if member.2.is_some() {
                        TaskeeEvent::Done
                    } else {
                        TaskeeEvent::GivenUp
                    }
                }
                TaskeeAction::Send => {
                    sent.push(member.2.take().unwrap());
                    TaskeeEvent::Sent
                }
                TaskeeAction::Stop => continue,
                TaskeeAction::Ignore => panic!("ignored"),
            };
            let (taskee, wanted) = member.0.step(event);
            member.0 = taskee;
            member.1 = wanted;
        }
    }
}

fn sorted(mut blocks: Vec<u64>) -> Vec<u64> {
    blocks.sort();
    blocks
}

#[test]
fn every_block_is_recorded_once() {
    for taskees in [1, 3, 20] {
        let (written, recorded) = play(Some(TerminateOn::EndBlock { block_number: 12 }), taskees, 0);
        assert_eq!(written, recorded);
        assert_eq!(sorted(recorded), (3..=12).collect::<Vec<u64>>());
    }
}

#[test]
fn only_blocks_that_fail_are_left_out() {
    let (written, recorded) = play(None, 3, 5);
    assert_eq!(written, recorded);
    assert_eq!(sorted(recorded), vec![3, 4, 6, 7, 8, 9, 10, 11, 12]);
}

#[test]
fn without_taskees_nothing_is_recorded() {
    let (written, recorded) = play(None, 0, 0);
    assert!(written.is_empty());
    assert!(recorded.is_empty());
}

#[test]
fn blocks_are_distinct_though_the_run_ends_early() {
    let ends = [
        TerminateOn::BlockGasUsed { until_gas_sum: 35 },
        TerminateOn::ElapsedSeconds { num_seconds: 12 },
    ];
    for end in ends {
        let (written, recorded) = play(Some(end), 3, 5);
        assert_eq!(written, recorded);
        assert!(recorded.len() < 9);
        let mut blocks = sorted(recorded);
        let before = blocks.len();
        blocks.dedup();
        assert_eq!(blocks.len(), before);
        assert!(blocks.iter().all(|b| 3 <= *b && *b <= 12));
    }
}
