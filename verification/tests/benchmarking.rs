use std::time::Duration;
use zero_bin::benchmarking::{
    BenchmarkOutputConfig, BenchmarkingOutput, BenchmarkingStats, BlockFigures, FigureError, ProofTimes,
};
use zero_bin::prover::ProverInput;
use zero_bin::rpc::{
    BlockHashes, BlockLevelData, BlockMetadata, BlockTrace, OtherBlockData, TxnInfo, TxnMeta,
};
use zero_bin::time::Timestamp;
use zero_bin::words::{Address, BlockHash, Word};

fn input(gas_used: [u64; 4], difficulty: [u64; 4], txs: &[u64]) -> ProverInput<u8, u8> {
    let mut txn_info = Vec::new();
    for gas in txs {
        txn_info.push(TxnInfo { meta: TxnMeta { gas_used: *gas }, rest: 0u8 });
    }
    ProverInput {
        block_trace: BlockTrace { txn_info, trie_pre_images: 1u8 },
        other_data: OtherBlockData {
            b_data: BlockLevelData {
                b_meta: BlockMetadata {
                    block_beneficiary: Address { bytes: [0; 20] },
                    block_timestamp: Word::zero(),
                    block_number: Word::zero(),
                    block_difficulty: Word { limbs: difficulty },
                    block_random: BlockHash::zero(),
                    block_gaslimit: Word::zero(),
                    block_chain_id: Word::zero(),
                    block_base_fee: Word::zero(),
                    block_gas_used: Word { limbs: gas_used },
                    block_bloom: [Word::zero(); 8],
                },
                b_hashes: BlockHashes { prev_hashes: vec![], cur_hash: BlockHash::zero() },
            },
            genesis_state_trie_root: BlockHash::zero(),
        },
    }
}

#[test]
fn figures_of_a_block() {
    let figures = BlockFigures::of_input(&input([90, 0, 0, 0], [7, 0, 0, 0], &[30, 60]), Duration::from_secs(3));
    assert_eq!(
        figures,
        Ok(BlockFigures {
            gas_used: 90,
            gas_used_per_tx: vec![30, 60],
            difficulty: 7,
            fetch_duration: Duration::from_secs(3),
        })
    );
}

#[test]
fn figures_that_do_not_fit() {
    let d = Duration::from_secs(3);
    assert_eq!(BlockFigures::of_input(&input([0, 1, 0, 0], [0, 1, 0, 0], &[]), d), Err(FigureError::GasUsed));
    assert_eq!(BlockFigures::of_input(&input([1, 0, 0, 0], [0, 1, 0, 0], &[]), d), Err(FigureError::Difficulty));
}

#[test]
fn statistics_of_a_block_and_of_a_run() {
    let start = Timestamp::new(100, 0).unwrap();
    let end = Timestamp::new(160, 0).unwrap();
    let figures = BlockFigures {
        gas_used: 90,
        gas_used_per_tx: vec![30, 60],
        difficulty: 7,
        fetch_duration: Duration::from_secs(3),
    };
    let times = ProofTimes {
        total_proof_duration: Duration::from_secs(60),
        prep_duration: Some(Duration::from_secs(10)),
        txproof_duration: Some(Duration::from_secs(20)),
        agg_duration: Some(Duration::from_secs(30)),
        start_time: start,
        end_time: end,
    };
    let stats = BenchmarkingStats::of_block(5, figures, times);
    assert_eq!(stats.block_number, 5);
    assert_eq!(stats.n_txs, 2);
    assert_eq!(stats.gas_used_per_tx, vec![30, 60]);
    assert_eq!(stats.cumulative_n_txs, None);
    assert_eq!(stats.cumulative_gas_used, None);
    assert_eq!(stats.overall_elapsed_seconds, None);
    assert_eq!(stats.proof_out_duration, None);
    assert_eq!(stats.prep_duration, Some(Duration::from_secs(10)));
    let stats = stats.in_run(4, 200, 61, Some(Duration::from_secs(1)));
    assert_eq!(stats.cumulative_n_txs, Some(4));
    assert_eq!(stats.cumulative_gas_used, Some(200));
    assert_eq!(stats.overall_elapsed_seconds, Some(61));
    assert_eq!(stats.proof_out_duration, Some(Duration::from_secs(1)));
    assert_eq!(stats.gas_used, 90);
    assert_eq!(stats.difficulty, 7);
    assert_eq!(stats.agg_duration, Some(Duration::from_secs(30)));

    let config = BenchmarkOutputConfig::LocalCsv { file_name: String::from("test.csv") };
    let mut out = BenchmarkingOutput::new(config.clone(), Some(1));
    assert_eq!(out.stats, vec![]);
    out.push(stats);
    assert_eq!(out.stats.len(), 1);
    assert_eq!(out.stats[0].block_number, 5);
    assert_eq!(out.config, config);
    assert_eq!(out.expected, Some(1));
}
