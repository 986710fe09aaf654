use zero_bin::benchmarking::BenchmarkOutputConfig;
use zero_bin::input::{BlockConcurrencyMode, BlockSource, ProveBlocksInput, TerminateOn};
use zero_bin::proofout::ProofOutputMethod;

fn input(start: u64, terminate_on: Option<TerminateOn>, mode: Option<BlockConcurrencyMode>) -> ProveBlocksInput {
    ProveBlocksInput {
        run_name: Some(String::from("run")),
        start_block_number: start,
        checkpoint_block_number: None,
        terminate_on,
        block_source: BlockSource::ZeroBinRpc { rpc_url: String::from("http://localhost:8545/") },
        block_concurrency: mode,
        check_gas: None,
        proof_output: Some(ProofOutputMethod::LocalDirectory { prefix: String::from("test") }),
        benchmark_output: Some(BenchmarkOutputConfig::LocalCsv { file_name: String::from("test.csv") }),
        forward_prev: None,
    }
}

fn end(block_number: u64) -> Option<TerminateOn> {
    Some(TerminateOn::EndBlock { block_number })
}

fn parallel(max_blocks: Option<u64>) -> Option<BlockConcurrencyMode> {
    Some(BlockConcurrencyMode::Parallel { max_concurrent: 3, max_blocks })
}

#[test]
fn default_mode_is_sequential() {
    assert_eq!(BlockConcurrencyMode::default(), BlockConcurrencyMode::Sequential);
}

#[test]
fn limits_of_the_modes() {
    assert_eq!(BlockConcurrencyMode::Sequential.max_concurrent(), None);
    assert_eq!(BlockConcurrencyMode::Sequential.max_blocks(), None);
    let given = BlockConcurrencyMode::Parallel { max_concurrent: 7, max_blocks: Some(12) };
    assert_eq!(given.max_concurrent(), Some(7));
    assert_eq!(given.max_blocks(), Some(12));
    let picked = BlockConcurrencyMode::Parallel { max_concurrent: 0, max_blocks: None };
    assert_eq!(picked.max_concurrent(), Some(0));
    assert_eq!(picked.max_blocks(), Some(1000));
}

#[test]
fn end_block_counts_itself() {
    assert_eq!(input(1, end(10), None).get_expected_number_proofs(), Some(10));
    assert_eq!(input(5, end(5), None).estimate_expected_number_proofs(), Some(1));
    assert_eq!(input(1, end(u64::MAX), None).get_expected_number_proofs(), Some(u64::MAX));
}

#[test]
fn only_an_end_block_tells_the_number_of_proofs() {
    assert_eq!(input(1, None, None).get_expected_number_proofs(), None);
    assert_eq!(input(1, Some(TerminateOn::ElapsedSeconds { num_seconds: 9 }), None).get_expected_number_proofs(), None);
    assert_eq!(
        input(1, Some(TerminateOn::BlockGasUsed { until_gas_sum: 9 }), None).estimate_expected_number_proofs(),
        None
    );
}

#[test]
fn empty_and_endless_ranges_are_not_countable() {
    assert!(!input(6, end(5), None).is_countable());
    assert!(!input(0, end(u64::MAX), None).is_countable());
    assert!(input(5, end(5), None).is_countable());
    assert!(input(6, None, None).is_countable());
}

#[test]
fn input_can_be_cloned() {
    let asked = input(8, end(9), parallel(None));
    assert_eq!(asked.clone(), asked);
    assert_eq!(asked.block_source.clone(), asked.block_source);
}

#[test]
fn checkpoint_is_given_or_the_block_before() {
    let mut asked = input(8, None, None);
    assert_eq!(asked.get_checkpoint_block_number(), 7);
    asked.checkpoint_block_number = Some(3);
    assert_eq!(asked.get_checkpoint_block_number(), 3);
    asked.start_block_number = 0;
    assert_eq!(asked.get_checkpoint_block_number(), 3);
    asked.checkpoint_block_number = None;
    assert_eq!(asked.get_checkpoint_block_number(), 0);
}

#[test]
fn parallel_tasks_reach_the_end_block() {
    assert_eq!(input(1, end(10), parallel(None)).task_range(), Some((1, 10)));
    assert_eq!(input(10, end(10), parallel(None)).task_range(), Some((10, 10)));
    assert_eq!(input(11, end(10), parallel(None)).task_range(), None);
    assert_eq!(input(1, end(5000), parallel(None)).task_range(), Some((1, 5000)));
}

#[test]
fn parallel_tasks_keep_to_the_maximum() {
    assert_eq!(input(1, end(10), parallel(Some(4))).task_range(), Some((1, 4)));
    assert_eq!(input(1, end(10), parallel(Some(40))).task_range(), Some((1, 10)));
    assert_eq!(input(7, None, parallel(Some(3))).task_range(), Some((7, 9)));
    assert_eq!(input(7, None, parallel(Some(0))).task_range(), None);
    assert_eq!(input(u64::MAX, None, parallel(Some(1))).task_range(), Some((u64::MAX, u64::MAX)));
}

#[test]
fn parallel_tasks_without_any_limit() {
    assert_eq!(input(7, None, parallel(None)).task_range(), Some((7, 1007)));
    assert_eq!(
        input(0, Some(TerminateOn::BlockGasUsed { until_gas_sum: 1 }), parallel(None)).task_range(),
        Some((0, 1000))
    );
}

#[test]
fn task_ranges_that_do_not_fit() {
    assert!(!input(u64::MAX - 999, None, parallel(None)).has_task_range());
    assert!(input(u64::MAX - 1000, None, parallel(None)).has_task_range());
    assert!(!input(u64::MAX, None, parallel(Some(2))).has_task_range());
    assert!(input(u64::MAX, None, parallel(Some(0))).has_task_range());
    assert!(input(u64::MAX, end(u64::MAX), parallel(None)).has_task_range());
}
