use std::time::Duration;
use zero_bin::prover::{
    prove_outcome, AggregatableProof, BenchmarkedGeneratedBlockProof, GeneratedBlockProof, ProveAction, ProveError,
    ProveEvent, ProvePhase, ProveRun,
};
use zero_bin::words::Word;

type Event = ProveEvent<u8, &'static str, &'static str>;
type Action = ProveAction<&'static str, &'static str>;

fn run(number: [u64; 4], previous: Option<&'static str>) -> ProveRun<&'static str> {
    ProveRun { block_number: Word { limbs: number }, previous, save_inputs_on_error: true, phase: ProvePhase::Preparing }
}

fn secs(n: u64) -> Duration {
    Duration::from_secs(n)
}

fn aggregated() -> Event {
    ProveEvent::TransactionsProved { proof: AggregatableProof::Agg("agg"), duration: secs(2) }
}

#[test]
fn three_steps_make_a_proof() {
    let (run, action): (_, Action) = run([10, 0, 0, 0], Some("previous")).step(Event::Prepared(secs(1)));
    assert_eq!(action, ProveAction::ProveTransactions { save_inputs_on_error: true });
    assert!(run.is_acceptable(&aggregated()));
    let (run, action) = run.step(aggregated());
    assert_eq!(
        action,
        ProveAction::ProveBlock {
            proof: "agg",
            prev: Some(GeneratedBlockProof { b_height: 9, intern: "previous" }),
            save_inputs_on_error: true,
        }
    );
    let proof = GeneratedBlockProof { b_height: 10, intern: "proof" };
    let (run, action) = run.step(Event::BlockProved { proof, duration: secs(3) });
    assert_eq!(run.phase, ProvePhase::Finished);
    assert_eq!(
        action,
        ProveAction::Finish(Ok(BenchmarkedGeneratedBlockProof {
            proof: GeneratedBlockProof { b_height: 10, intern: "proof" },
            prep_dur: Some(secs(1)),
            proof_dur: Some(secs(2)),
            agg_dur: Some(secs(3)),
        }))
    );
}

#[test]
fn proof_without_a_previous_one() {
    let (run, _): (_, Action) = run([0, 0, 0, 1], None).step(Event::Prepared(secs(1)));
    assert!(run.is_acceptable(&aggregated()));
    let (_, action) = run.step(aggregated());
    assert_eq!(action, ProveAction::ProveBlock { proof: "agg", prev: None, save_inputs_on_error: true });
}

#[test]
fn height_of_the_previous_proof_must_exist() {
    let (genesis, _): (_, Action) = run([0, 0, 0, 0], Some("p")).step(Event::Prepared(secs(1)));
    assert!(!genesis.is_acceptable(&aggregated()));
    let (huge, _): (_, Action) = run([5, 1, 0, 0], Some("p")).step(Event::Prepared(secs(1)));
    assert!(!huge.is_acceptable(&aggregated()));
    let txn: Event = ProveEvent::TransactionsProved { proof: AggregatableProof::Txn(1), duration: secs(2) };
    assert!(huge.is_acceptable(&txn));
}

#[test]
fn lone_transaction_proof_is_refused() {
    let (run, _): (_, Action) = run([10, 0, 0, 0], None).step(Event::Prepared(secs(1)));
    let (_, action): (_, Action) =
        run.step(ProveEvent::TransactionsProved { proof: AggregatableProof::Txn(1u8), duration: secs(2) });
    assert_eq!(action, ProveAction::Finish(Err(ProveError::NotAggregated)));
    assert_eq!(ProveError::NotAggregated.message(), "AggProof is is not GeneratedAggProof");
}

#[test]
fn failing_step_ends_the_proof() {
    let (run, action): (_, Action) = run([10, 0, 0, 0], None).step(Event::Failed(String::from("no ir")));
    assert_eq!(action, ProveAction::Finish(Err(ProveError::Failed(String::from("no ir")))));
    let (_, action): (_, Action) = run.step(Event::Failed(String::from("again")));
    assert_eq!(action, ProveAction::Ignore);
    assert_eq!(ProveError::Failed(String::from("no ir")).message(), "no ir");
}

#[test]
fn proof_event_out_of_turn_is_ignored() {
    let (run, action): (_, Action) = run([10, 0, 0, 0], Some("p")).step(aggregated());
    assert_eq!(action, ProveAction::Ignore);
    assert_eq!(run.phase, ProvePhase::Preparing);
    assert_eq!(run.previous, Some("p"));
}

#[test]
fn proof_can_be_had_without_durations() {
    let benchmarked = BenchmarkedGeneratedBlockProof {
        proof: GeneratedBlockProof { b_height: 4, intern: "x" },
        prep_dur: None,
        proof_dur: Some(secs(1)),
        agg_dur: None,
    };
    assert_eq!(GeneratedBlockProof::from(benchmarked), GeneratedBlockProof { b_height: 4, intern: "x" });
}

#[test]
fn proof_without_durations() {
    let proof = GeneratedBlockProof { b_height: 10, intern: "proof" };
    let benchmarked = BenchmarkedGeneratedBlockProof {
        proof,
        prep_dur: Some(secs(1)),
        proof_dur: Some(secs(2)),
        agg_dur: Some(secs(3)),
    };
    assert_eq!(prove_outcome(Ok(benchmarked)), Ok(GeneratedBlockProof { b_height: 10, intern: "proof" }));
    let failed: Result<GeneratedBlockProof<u8>, ProveError> = prove_outcome(Err(ProveError::NotAggregated));
    assert_eq!(failed, Err(ProveError::NotAggregated));
}
