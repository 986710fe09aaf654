use zero_bin::benchmarking::{BenchmarkOutputConfig, BenchmarkingOutputBuildError};
use zero_bin::input::{BlockConcurrencyMode, BlockSource, ProveBlocksInput, TerminateOn};
use zero_bin::manyprover::{Build, BuildEvent, ManyProver, ManyProverBuildError, ProveBlocks};
use zero_bin::parallel::ParallelAction;
use zero_bin::proofout::{ProofOutputBuildError, ProofOutputMethod};
use zero_bin::sequential::SequentialAction;
use zero_bin::server::handle_post;
use zero_bin::task::TaskOrders;
use zero_bin::time::Timestamp;

fn plain_input() -> ProveBlocksInput {
    ProveBlocksInput {
        run_name: Some(String::from("run")),
        start_block_number: 1,
        checkpoint_block_number: Some(1),
        terminate_on: Some(TerminateOn::EndBlock { block_number: 10 }),
        block_source: BlockSource::ZeroBinRpc { rpc_url: String::from("http://localhost:8545/") },
        block_concurrency: None,
        check_gas: None,
        proof_output: None,
        benchmark_output: None,
        forward_prev: None,
    }
}

fn full_input() -> ProveBlocksInput {
    let mut input = plain_input();
    input.proof_output = Some(ProofOutputMethod::LocalDirectory { prefix: String::from("test") });
    input.benchmark_output = Some(BenchmarkOutputConfig::LocalCsv { file_name: String::from("test.csv") });
    input
}

fn parallel(max_blocks: Option<u64>) -> Option<BlockConcurrencyMode> {
    Some(BlockConcurrencyMode::Parallel { max_concurrent: 3, max_blocks })
}

fn built(build: Build) -> ManyProver {
    match build {
        Build::Built(prover) => prover,
        other => panic!("not built: {:?}", other),
    }
}

fn now() -> Timestamp {
    Timestamp::new(1_700_000_000, 0).unwrap()
}

#[test]
fn prover_without_outputs_is_built_at_once() {
    let prover = built(ManyProver::new(plain_input()));
    assert!(!prover.storing_proof());
    assert!(!prover.storing_benchmark());
    assert_eq!(prover.starting_block(), 1);
    assert_eq!(prover.terminate_on(), &Some(TerminateOn::EndBlock { block_number: 10 }));
    assert_eq!(prover.block_conccurency(), BlockConcurrencyMode::Sequential);
}

#[test]
fn outputs_are_made_ready_in_turn() {
    let build = ManyProver::new(full_input());
    assert_eq!(build, Build::OpenProofOutput { input: full_input() });
    let build = build.step(BuildEvent::Opened);
    match &build {
        Build::OpenBenchmarkOutput { input, proof_out, expected } => {
            assert_eq!(input, &full_input());
            assert_eq!(proof_out.as_ref().map(|out| out.method.file_name(1)), Some(String::from("test_1")));
            assert_eq!(*expected, Some(10));
        }
        other => panic!("unexpected: {:?}", other),
    }
    let prover = built(build.step(BuildEvent::Opened));
    assert!(prover.storing_proof());
    assert!(prover.storing_benchmark());
    let out = prover.benchmark_out.as_ref().unwrap();
    assert_eq!(out.config, BenchmarkOutputConfig::LocalCsv { file_name: String::from("test.csv") });
    assert_eq!(out.expected, Some(10));
    assert!(out.stats.is_empty());
}

#[test]
fn outputs_that_cannot_be_made_ready() {
    let build = ManyProver::new(full_input()).step(BuildEvent::Failed(String::from("full")));
    assert_eq!(
        build,
        Build::Failed(ManyProverBuildError::ProofOutError(ProofOutputBuildError { message: String::from("full") }))
    );
    let build = ManyProver::new(full_input()).step(BuildEvent::Opened);
    assert_eq!(
        build.step(BuildEvent::Failed(String::from("full"))),
        Build::Failed(ManyProverBuildError::BenchmarkingOutput(BenchmarkingOutputBuildError {
            message: String::from("full")
        }))
    );
}

#[test]
fn finished_build_stays_as_it_is() {
    let build = ManyProver::new(plain_input()).step(BuildEvent::Failed(String::from("late")));
    assert_eq!(build, ManyProver::new(plain_input()));
}

#[test]
fn forwarding_in_parallel_is_refused() {
    let mut input = full_input();
    input.forward_prev = Some(true);
    input.block_concurrency = parallel(None);
    let build = ManyProver::new(input);
    assert_eq!(
        build,
        Build::Failed(ManyProverBuildError::InvalidConfiguration(String::from(
            "Forwarding proofs with parallel not supported"
        )))
    );
}

#[test]
fn forwarding_sequentially_and_parallel_without_forwarding_are_fine() {
    let mut input = plain_input();
    input.forward_prev = Some(true);
    input.block_concurrency = Some(BlockConcurrencyMode::Sequential);
    built(ManyProver::new(input));
    let mut input = plain_input();
    input.forward_prev = Some(false);
    input.block_concurrency = parallel(None);
    built(ManyProver::new(input));
}

#[test]
fn sequential_is_how_it_begins_by_default() {
    let prover = built(ManyProver::new(plain_input()));
    match prover.prove_blocks(now()) {
        ProveBlocks::Sequential(run, action) => {
            assert_eq!(action, SequentialAction::Fetch { block_number: 1, checkpoint_block_number: Some(1) });
            assert_eq!(run.first_block, 1);
            assert!(!run.forward_prev);
        }
        other => panic!("unexpected: {:?}", other),
    }
}

#[test]
fn parallel_begins_with_its_taskees() {
    let mut input = plain_input();
    input.block_concurrency = parallel(Some(4));
    let prover = built(ManyProver::new(input));
    match prover.prove_blocks(now()) {
        ProveBlocks::Parallel(run, action) => {
            let orders = TaskOrders { checkpoint_block_number: 1, num_seconds: None };
            assert_eq!(action, ParallelAction::SpawnTaskees { count: 3, orders });
            assert_eq!(run.tasks, Some((1, 4)));
        }
        other => panic!("unexpected: {:?}", other),
    }
}

#[test]
fn accepted_request_begins_its_prover() {
    let prover = built(ManyProver::new(plain_input()));
    let (reply, begun) = handle_post(Ok(prover));
    assert_eq!(reply.status, 202);
    assert_eq!(reply.body, "");
    assert_eq!(begun.unwrap().starting_block(), 1);
}

#[test]
fn counts_that_do_not_fit_are_not_acceptable() {
    let mut input = full_input();
    input.start_block_number = 11;
    assert!(ManyProver::is_acceptable(&input));
    let build = ManyProver::new(input);
    assert!(!build.is_acceptable(&BuildEvent::Opened));
    assert!(build.is_acceptable(&BuildEvent::Failed(String::from("full"))));
    let mut input = full_input();
    input.start_block_number = 11;
    input.proof_output = None;
    assert!(!ManyProver::is_acceptable(&input));
    input.forward_prev = Some(true);
    input.block_concurrency = parallel(None);
    assert!(ManyProver::is_acceptable(&input));
    assert!(ManyProver::is_acceptable(&plain_input()));
    assert!(ManyProver::new(full_input()).is_acceptable(&BuildEvent::Opened));
}

#[test]
fn taskees_are_told_the_limit_of_time_and_the_checkpoint() {
    let mut input = plain_input();
    input.start_block_number = 7;
    input.checkpoint_block_number = None;
    input.terminate_on = Some(TerminateOn::ElapsedSeconds { num_seconds: 20 });
    input.block_concurrency = parallel(None);
    let (run, action) = built(ManyProver::new(input)).prove_blocks_parallel();
    let orders = TaskOrders { checkpoint_block_number: 6, num_seconds: Some(20) };
    assert_eq!(action, ParallelAction::SpawnTaskees { count: 3, orders });
    assert_eq!(run.tasks, Some((7, 1007)));
}
