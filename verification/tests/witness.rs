use zero_bin::prover::{GeneratedBlockProof, ProveError};
use zero_bin::witness::{WitnessAction, WitnessEvent, WitnessPhase, WitnessRun};
use zero_bin::words::Word;

type Event = WitnessEvent<&'static str>;

fn run(number: [u64; 4]) -> WitnessRun {
    WitnessRun { block_number: Word { limbs: number }, save_inputs_on_error: true, phase: WitnessPhase::Preparing }
}

fn take(run: WitnessRun, event: Event) -> (WitnessRun, WitnessAction<&'static str>) {
    assert!(run.is_acceptable(&event));
    run.step(event)
}

#[test]
fn trial_comes_to_dummy_proof() {
    let (run, action) = take(run([12, 0, 0, 0]), Event::Prepared);
    assert_eq!(action, WitnessAction::Generate { save_inputs_on_error: true });
    let (run, action) = take(run, Event::Generated);
    assert_eq!(action, WitnessAction::MakeDummy);
    let (run, action) = take(run, Event::DummyMade("dummy"));
    assert_eq!(action, WitnessAction::Finish(Ok(GeneratedBlockProof { b_height: 12, intern: "dummy" })));
    assert_eq!(run.phase, WitnessPhase::Finished);
    let (again, action) = take(run, Event::Prepared);
    assert_eq!(action, WitnessAction::Ignore);
    assert_eq!(again, run);
}

#[test]
fn failures_end_a_trial() {
    let phases =
        [WitnessPhase::Preparing, WitnessPhase::Generating, WitnessPhase::MakingDummy { b_height: 1 }];
    for phase in phases {
        let (run, action) = take(WitnessRun { phase, ..run([1, 0, 0, 0]) }, Event::Failed(String::from("no")));
        assert_eq!(action, WitnessAction::Finish(Err(ProveError::Failed(String::from("no")))));
        assert_eq!(run.phase, WitnessPhase::Finished);
    }
}

#[test]
fn steps_of_a_trial_keep_their_order() {
    let (waiting, action) = take(run([1, 0, 0, 0]), Event::DummyMade("early"));
    assert_eq!(action, WitnessAction::Ignore);
    assert_eq!(waiting, run([1, 0, 0, 0]));
}

#[test]
fn height_that_does_not_fit_is_not_acceptable() {
    let (run, _) = take(run([0, 1, 0, 0]), Event::Prepared);
    assert!(!run.is_acceptable(&Event::Generated));
    assert!(run.is_acceptable(&Event::Failed(String::from("no"))));
}
