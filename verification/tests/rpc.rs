use zero_bin::prover::{ProveAction, ProvePhase, ProveRun};
use zero_bin::rpc::{
    fetch_prover_input, Bloom, BlockTrace, EthChainIdResponse, EthGetBlockByNumberResponse, EthGetBlockByNumberResult,
    JerigonResultItem, JerigonTraceError, JerigonTraceResponse, OtherBlockData, RpcBlockMetadata, RpcParam, TxnInfo,
    TxnMeta,
};
use zero_bin::witness::{WitnessAction, WitnessPhase, WitnessRun};
use zero_bin::words::{Address, BlockHash, Word};

type Item = JerigonResultItem<&'static str, u8>;

fn txn(name: &'static str, gas_used: u64) -> TxnInfo<&'static str> {
    TxnInfo { meta: TxnMeta { gas_used }, rest: name }
}

fn word(n: u64) -> Word {
    Word { limbs: [n, 0, 0, 0] }
}

fn metadata(logs_bloom: [u8; 256]) -> RpcBlockMetadata {
    RpcBlockMetadata {
        block_by_number: EthGetBlockByNumberResponse {
            result: EthGetBlockByNumberResult {
                base_fee_per_gas: word(1),
                difficulty: word(2),
                gas_limit: word(3),
                gas_used: word(4),
                hash: BlockHash { bytes: [5; 32] },
                logs_bloom: Bloom { bytes: logs_bloom },
                miner: Address { bytes: [6; 20] },
                mix_hash: BlockHash { bytes: [7; 32] },
                number: word(8),
                timestamp: word(9),
            },
        },
        chain_id: EthChainIdResponse { result: word(10) },
    }
}

#[test]
fn trace_keeps_transactions_in_order_and_the_last_witness() {
    let response = JerigonTraceResponse {
        result: vec![
            Item::BlockWitness(1),
            Item::Result(txn("a", 10)),
            Item::BlockWitness(2),
            Item::Result(txn("b", 20)),
            Item::Result(txn("c", 30)),
        ],
    };
    assert_eq!(
        BlockTrace::try_from(response),
        Ok(BlockTrace { txn_info: vec![txn("a", 10), txn("b", 20), txn("c", 30)], trie_pre_images: 2 })
    );
}

#[test]
fn trace_without_witness_is_refused() {
    let empty: JerigonTraceResponse<&'static str, u8> = JerigonTraceResponse { result: vec![] };
    assert_eq!(BlockTrace::try_from(empty), Err(JerigonTraceError::BlockTraceTriePreImagesNotFound));
    let response: JerigonTraceResponse<&'static str, u8> =
        JerigonTraceResponse { result: vec![Item::Result(txn("a", 1))] };
    let error = BlockTrace::try_from(response).unwrap_err();
    assert_eq!(error.message(), "expected BlockTraceTriePreImages in block_witness key");
}

#[test]
fn witness_alone_is_an_empty_block() {
    let response: JerigonTraceResponse<&'static str, u8> = JerigonTraceResponse { result: vec![Item::BlockWitness(3)] };
    assert_eq!(BlockTrace::try_from(response), Ok(BlockTrace { txn_info: vec![], trie_pre_images: 3 }));
}

#[test]
fn trace_call_names_the_tracer() {
    let call = JerigonTraceResponse::<u8, u8>::call(255);
    assert_eq!(call.jsonrpc, "2.0");
    assert_eq!(call.method, "debug_traceBlockByNumber");
    assert_eq!(call.params, vec![RpcParam::Text(String::from("0xff")), RpcParam::Tracer(String::from("zeroTracer"))]);
    assert_eq!(call.id, 1);
}

#[test]
fn block_call_leaves_transactions_out() {
    let call = EthGetBlockByNumberResponse::call(4096);
    assert_eq!(call.jsonrpc, "2.0");
    assert_eq!(call.method, "eth_getBlockByNumber");
    assert_eq!(call.params, vec![RpcParam::Text(String::from("0x1000")), RpcParam::Flag(false)]);
    assert_eq!(call.id, 1);
}

#[test]
fn chain_id_call_has_no_parameters() {
    let call = EthChainIdResponse::call();
    assert_eq!(call.method, "eth_chainId");
    assert_eq!(call.params, vec![]);
    assert_eq!(call.id, 1);
}

#[test]
fn metadata_becomes_block_data() {
    let mut bloom = [0u8; 256];
    bloom[31] = 9;
    bloom[32] = 0x80;
    bloom[255] = 1;
    bloom[254] = 1;
    let data = OtherBlockData::from(metadata(bloom));
    let meta = data.b_data.b_meta;
    assert_eq!(meta.block_base_fee, word(1));
    assert_eq!(meta.block_difficulty, word(2));
    assert_eq!(meta.block_gaslimit, word(3));
    assert_eq!(meta.block_gas_used, word(4));
    assert_eq!(data.b_data.b_hashes.cur_hash, BlockHash { bytes: [5; 32] });
    assert_eq!(meta.block_beneficiary, Address { bytes: [6; 20] });
    assert_eq!(meta.block_random, BlockHash { bytes: [7; 32] });
    assert_eq!(meta.block_number, word(8));
    assert_eq!(meta.block_timestamp, word(9));
    assert_eq!(meta.block_chain_id, word(10));
    assert_eq!(meta.block_bloom[0], word(9));
    assert_eq!(meta.block_bloom[1], Word { limbs: [0, 0, 0, 0x8000_0000_0000_0000] });
    assert_eq!(meta.block_bloom[2], word(0));
    assert_eq!(meta.block_bloom[7], word(257));
    assert_eq!(data.b_data.b_hashes.prev_hashes, vec![BlockHash { bytes: [0; 32] }; 256]);
    assert_eq!(data.genesis_state_trie_root, BlockHash { bytes: [0; 32] });
}

#[test]
fn answers_make_a_prover_input() {
    let response = JerigonTraceResponse { result: vec![Item::Result(txn("a", 10)), Item::BlockWitness(2)] };
    let input = fetch_prover_input(response, metadata([0; 256])).unwrap();
    assert_eq!(input.block_trace.txn_info, vec![txn("a", 10)]);
    assert_eq!(input.block_trace.trie_pre_images, 2);
    assert_eq!(input.get_block_number(), word(8));
    let empty: JerigonTraceResponse<&'static str, u8> = JerigonTraceResponse { result: vec![] };
    assert!(fetch_prover_input(empty, metadata([0; 256])).is_err());
}

#[test]
fn prover_input_begins_its_runs() {
    let response = JerigonTraceResponse { result: vec![Item::BlockWitness(2)] };
    let input = fetch_prover_input(response, metadata([0; 256])).unwrap();
    let (run, action): (_, ProveAction<u8, &'static str>) = input.prove_and_benchmark(Some("previous"), true);
    assert_eq!(
        run,
        ProveRun {
            block_number: word(8),
            previous: Some("previous"),
            save_inputs_on_error: true,
            phase: ProvePhase::Preparing,
        }
    );
    assert_eq!(action, ProveAction::Prepare);
    let (run, action): (ProveRun<u8>, ProveAction<u8, u8>) = input.prove(None, false);
    assert_eq!(run.previous, None);
    assert!(!run.save_inputs_on_error);
    assert_eq!(action, ProveAction::Prepare);
    let (run, action): (_, WitnessAction<u8>) = input.try_witness(true);
    assert_eq!(
        run,
        WitnessRun { block_number: word(8), save_inputs_on_error: true, phase: WitnessPhase::Preparing }
    );
    assert_eq!(action, WitnessAction::Prepare);
}
