use zero_bin::proofout::ProofOutputMethod;

#[test]
fn files_are_named_by_prefix_and_block() {
    let method = ProofOutputMethod::LocalDirectory { prefix: String::from("test") };
    assert_eq!(method.file_name(1), "test_1");
    assert_eq!(method.file_name(2), "test_2");
    assert_eq!(method.clone().file_name(10), "test_10");
}
