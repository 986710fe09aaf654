use zero_bin::fetch::{fetch, fetch_outcome, FetchError};
use zero_bin::input::BlockSource;

fn source() -> BlockSource {
    BlockSource::ZeroBinRpc { rpc_url: String::from("http://node:8545/") }
}

#[test]
fn checkpoint_defaults_to_the_block_before() {
    let request = fetch(9, None, &source());
    assert_eq!(request.rpc_url, "http://node:8545/");
    assert_eq!(request.block_number, 9);
    assert_eq!(request.checkpoint_block_number, 8);
}

#[test]
fn block_zero_is_its_own_checkpoint() {
    assert_eq!(fetch(0, None, &source()).checkpoint_block_number, 0);
    assert_eq!(fetch(0, Some(4), &source()).checkpoint_block_number, 4);
}

#[test]
fn given_checkpoint_is_kept() {
    assert_eq!(fetch(9, Some(2), &source()).checkpoint_block_number, 2);
}

#[test]
fn fetch_failure_names_the_source() {
    let failed: Result<u8, FetchError> = fetch_outcome(Err(String::from("refused")));
    assert_eq!(failed, Err(FetchError::ZeroBinRpcFetchError(String::from("refused"))));
    assert_eq!(fetch_outcome(Ok(5u8)), Ok(5u8));
}
