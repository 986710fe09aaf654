use std::time::Duration;
use zero_bin::benchmarking::{BenchmarkingStats, BlockFigures, ProofTimes};
use zero_bin::fetch::FetchError;
use zero_bin::manyprover::ManyProverError;
use zero_bin::task::{
    BlockTask, BlockTaskAction, BlockTaskEvent, BlockTaskPhase, TaskOrders, Taskee, TaskeeAction, TaskeeEvent,
    TaskeePhase,
};
use zero_bin::time::Timestamp;

fn orders(num_seconds: Option<u64>) -> TaskOrders {
    TaskOrders { checkpoint_block_number: 3, num_seconds }
}

fn figures() -> BlockFigures {
    BlockFigures { gas_used: 9, gas_used_per_tx: vec![4, 5], difficulty: 1, fetch_duration: Duration::from_secs(1) }
}

fn times() -> ProofTimes {
    ProofTimes {
        total_proof_duration: Duration::from_secs(2),
        prep_duration: None,
        txproof_duration: None,
        agg_duration: None,
        start_time: Timestamp::new(10, 0).unwrap(),
        end_time: Timestamp::new(12, 0).unwrap(),
    }
}

#[test]
fn block_is_fetched_then_proved() {
    let (task, action) = BlockTask::prove_block(5, orders(None));
    assert_eq!(action, BlockTaskAction::Fetch { block_number: 5, checkpoint_block_number: Some(3) });
    let (task, action) = task.step(BlockTaskEvent::Fetched(figures()));
    assert_eq!(action, BlockTaskAction::Prove { block_number: 5, save_inputs_on_error: true });
    let (task, action) = task.step(BlockTaskEvent::Proved(times()));
    assert_eq!(action, BlockTaskAction::Finish(Ok(BenchmarkingStats::of_block(5, figures(), times()))));
    assert_eq!(task.phase, BlockTaskPhase::Finished);
    let (_, action) = task.step(BlockTaskEvent::Proved(times()));
    assert_eq!(action, BlockTaskAction::Ignore);
}

#[test]
fn block_that_cannot_be_fetched_or_proved() {
    let (task, _) = BlockTask::prove_block(5, orders(None));
    let error = FetchError::ZeroBinRpcFetchError(String::from("gone"));
    let (_, action) = task.step(BlockTaskEvent::FetchFailed(error));
    assert_eq!(
        action,
        BlockTaskAction::Finish(Err(ManyProverError::Fetch(FetchError::ZeroBinRpcFetchError(String::from("gone")))))
    );
    let (task, _) = BlockTask::prove_block(5, orders(None));
    let (task, _) = task.step(BlockTaskEvent::Fetched(figures()));
    let (_, action) = task.step(BlockTaskEvent::ProofFailed(String::from("bad")));
    assert_eq!(action, BlockTaskAction::Finish(Err(ManyProverError::Proof(String::from("bad")))));
}

#[test]
fn taskee_waits_works_and_stops() {
    let (taskee, action) = Taskee::new(orders(None));
    assert_eq!(action, TaskeeAction::ReadFlag);
    let (taskee, action) = taskee.step(TaskeeEvent::Flag(false));
    assert_eq!(action, TaskeeAction::ReadFlag);
    assert_eq!(taskee.phase, TaskeePhase::Waiting);
    let (taskee, action) = taskee.step(TaskeeEvent::Flag(true));
    assert_eq!(action, TaskeeAction::ReadFlag);
    let (taskee, action) = taskee.step(TaskeeEvent::Flag(true));
    assert_eq!(action, TaskeeAction::Receive);
    let (taskee, action) = taskee.step(TaskeeEvent::Task(8));
    assert_eq!(action, TaskeeAction::Prove { block_number: 8 });
    let (taskee, action) = taskee.step(TaskeeEvent::Task(9));
    assert_eq!(action, TaskeeAction::Ignore);
    let (taskee, action) = taskee.step(TaskeeEvent::Done);
    assert_eq!(action, TaskeeAction::Send);
    let (taskee, action) = taskee.step(TaskeeEvent::Sent);
    assert_eq!(action, TaskeeAction::ReadFlag);
    let (taskee, action) = taskee.step(TaskeeEvent::Flag(false));
    assert_eq!(action, TaskeeAction::Stop);
    let (_, action) = taskee.step(TaskeeEvent::Flag(true));
    assert_eq!(action, TaskeeAction::Ignore);
}

#[test]
fn taskee_stops_when_there_are_no_more_blocks() {
    let (taskee, _) = Taskee::new(orders(None));
    let (taskee, _) = taskee.step(TaskeeEvent::Flag(true));
    let (taskee, _) = taskee.step(TaskeeEvent::Flag(true));
    let (taskee, action) = taskee.step(TaskeeEvent::TasksClosed);
    assert_eq!(action, TaskeeAction::Stop);
    assert_eq!(taskee.phase, TaskeePhase::Stopped);
}

#[test]
fn proof_of_a_block_is_begun_only_in_time() {
    let (task, _) = BlockTask::prove_block(5, orders(Some(20)));
    let (task, action) = task.step(BlockTaskEvent::Fetched(figures()));
    assert_eq!(action, BlockTaskAction::ReadTimer);
    let (task, action) = task.step(BlockTaskEvent::Elapsed(19));
    assert_eq!(action, BlockTaskAction::Prove { block_number: 5, save_inputs_on_error: true });
    assert_eq!(task.phase, BlockTaskPhase::Proving { figures: figures() });
    let (task, _) = BlockTask::prove_block(5, orders(Some(20)));
    let (task, _) = task.step(BlockTaskEvent::Fetched(figures()));
    let (task, action) = task.step(BlockTaskEvent::Elapsed(20));
    assert_eq!(action, BlockTaskAction::GiveUp);
    assert_eq!(task.phase, BlockTaskPhase::Finished);
}

#[test]
fn taskee_pulls_blocks_only_in_time() {
    let (taskee, _) = Taskee::new(orders(Some(20)));
    let (taskee, _) = taskee.step(TaskeeEvent::Flag(true));
    let (timing, action) = taskee.step(TaskeeEvent::Flag(true));
    assert_eq!(action, TaskeeAction::ReadTimer);
    let (_, action) = timing.step(TaskeeEvent::Elapsed(20));
    assert_eq!(action, TaskeeAction::Stop);
    let (taskee, action) = timing.step(TaskeeEvent::Elapsed(19));
    assert_eq!(action, TaskeeAction::Receive);
    let (taskee, _) = taskee.step(TaskeeEvent::Task(8));
    let (taskee, action) = taskee.step(TaskeeEvent::GivenUp);
    assert_eq!(action, TaskeeAction::Stop);
    assert_eq!(taskee.phase, TaskeePhase::Stopped);
}
