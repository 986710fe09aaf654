use zero_bin::server::{handle_health, handle_post};
use zero_bin::manyprover::ManyProverBuildError;

#[test]
fn health_check_is_answered_ok() {
    let reply = handle_health();
    assert_eq!(reply.status, 200);
    assert_eq!(reply.body, "OK");
}

#[test]
fn refused_request_is_answered_with_an_error_and_begins_nothing() {
    let (reply, prover) = handle_post(Err(ManyProverBuildError::InvalidConfiguration(String::from("no"))));
    assert_eq!(reply.status, 500);
    assert_eq!(reply.body, "");
    assert_eq!(prover, None);
}
