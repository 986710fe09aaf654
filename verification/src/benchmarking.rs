//! Benchmark statistics of proved blocks.

use vstd::prelude::*;

use crate::prover::ProverInput;
use crate::rpc::TxnInfo;
use crate::time::Timestamp;

verus! {

/// How benchmark statistics are put out.
#[derive(Debug, PartialEq, Eq)]
pub enum BenchmarkOutputConfig {
    /// One local file of comma-separated values.
    LocalCsv { file_name: String },
}

impl Clone for BenchmarkOutputConfig {
    fn clone(&self) -> (result: Self)
        ensures
            result == *self,
    {
        match self {
            BenchmarkOutputConfig::LocalCsv { file_name } => BenchmarkOutputConfig::LocalCsv {
                file_name: file_name.clone(),
            },
        }
    }
}

/// Why the means of putting out benchmark statistics could not be made ready.
#[derive(Debug, PartialEq, Eq)]
pub struct BenchmarkingOutputBuildError {
    pub message: String,
}

/// Why benchmark statistics could not be published.
#[derive(Debug, PartialEq, Eq)]
pub struct BenchmarkingOutputError {
    pub message: String,
}

/// What is recorded of one proved block.
#[derive(Debug, PartialEq, Eq)]
pub struct BenchmarkingStats {
    pub block_number: u64,
    pub n_txs: u64,
    pub cumulative_n_txs: Option<u64>,
    pub fetch_duration: std::time::Duration,
    pub total_proof_duration: std::time::Duration,
    pub prep_duration: Option<std::time::Duration>,
    pub txproof_duration: Option<std::time::Duration>,
    pub agg_duration: Option<std::time::Duration>,
    pub start_time: Timestamp,
    pub end_time: Timestamp,
    pub overall_elapsed_seconds: Option<u64>,
    pub proof_out_duration: Option<std::time::Duration>,
    pub gas_used: u64,
    pub gas_used_per_tx: Vec<u64>,
    pub cumulative_gas_used: Option<u64>,
    pub difficulty: u64,
}

/// The figures of a fetched block that the statistics are made of.
#[derive(Debug, PartialEq, Eq)]
pub struct BlockFigures {
    pub gas_used: u64,
    pub gas_used_per_tx: Vec<u64>,
    pub difficulty: u64,
    pub fetch_duration: std::time::Duration,
}

/// How long a block's proof took, and when it began and ended.
#[derive(Debug, Clone, Copy, PartialEq, Eq)]
pub struct ProofTimes {
    pub total_proof_duration: std::time::Duration,
    pub prep_duration: Option<std::time::Duration>,
    pub txproof_duration: Option<std::time::Duration>,
    pub agg_duration: Option<std::time::Duration>,
    pub start_time: Timestamp,
    pub end_time: Timestamp,
}

/// Which figure of a block does not fit 64 bits.
#[derive(Debug, Clone, Copy, PartialEq, Eq, Structural)]
pub enum FigureError {
    GasUsed,
    Difficulty,
}

/// The gas of each transaction.
pub open spec fn gas_of<T>(txn_info: Seq<TxnInfo<T>>) -> Seq<u64> {
    txn_info.map_values(|info: TxnInfo<T>| info.meta.gas_used)
}

fn gas_used_txs<T>(txn_info: &Vec<TxnInfo<T>>) -> (result: Vec<u64>)
    ensures
        result@ == gas_of(txn_info@),
{
    let mut gas: Vec<u64> = Vec::new();
    let mut i: usize = 0;
    while i < txn_info.len()
        invariant
            0 <= i <= txn_info@.len(),
            gas@ =~= gas_of(txn_info@.take(i as int)),
        decreases txn_info@.len() - i,
    {
        gas.push(txn_info[i].meta.gas_used);
        i = i + 1;
    }
    assert(txn_info@.take(i as int) =~= txn_info@);
    gas
}

impl BlockFigures {
    /// The figures of a block that was fetched; an error exactly if its gas or, the gas being fine,
    /// its difficulty does not fit 64 bits.
    pub fn of_input<T, W>(input: &ProverInput<T, W>, fetch_duration: std::time::Duration) -> (result:
        Result<BlockFigures, FigureError>)
        ensures
            ({
                let meta = input.other_data.b_data.b_meta;
                match result {
                    Ok(figures) => {
                        &&& figures.gas_used == meta.block_gas_used@
                        &&& figures.gas_used_per_tx@ == gas_of(input.block_trace.txn_info@)
                        &&& figures.difficulty == meta.block_difficulty@
                        &&& figures.fetch_duration == fetch_duration
                    },
                    Err(FigureError::GasUsed) => meta.block_gas_used@ > u64::MAX,
                    Err(FigureError::Difficulty) => meta.block_gas_used@ <= u64::MAX
                        && meta.block_difficulty@ > u64::MAX,
                }
            }),
    {
        let gas_used_per_tx = gas_used_txs(&input.block_trace.txn_info);
        let gas_used: u64 = match input.other_data.b_data.b_meta.block_gas_used.to_u64() {
            Some(gas) => gas,
            None => {
                return Err(FigureError::GasUsed);
            },
        };
        let difficulty: u64 = match input.other_data.b_data.b_meta.block_difficulty.to_u64() {
            Some(difficulty) => difficulty,
            None => {
                return Err(FigureError::Difficulty);
            },
        };
        Ok(BlockFigures { gas_used, gas_used_per_tx, difficulty, fetch_duration })
    }

    /// The number of transactions in the block.
    pub open spec fn n_txs(self) -> int {
        self.gas_used_per_tx@.len() as int
    }
}

/// The statistics of a block by itself: nothing cumulative, nothing about putting the proof out.
pub open spec fn block_stats(
    block_number: u64,
    figures: BlockFigures,
    times: ProofTimes,
) -> BenchmarkingStats {
    BenchmarkingStats {
        block_number,
        n_txs: figures.n_txs() as u64,
        cumulative_n_txs: None,
        fetch_duration: figures.fetch_duration,
        total_proof_duration: times.total_proof_duration,
        prep_duration: times.prep_duration,
        txproof_duration: times.txproof_duration,
        agg_duration: times.agg_duration,
        start_time: times.start_time,
        end_time: times.end_time,
        overall_elapsed_seconds: None,
        proof_out_duration: None,
        gas_used: figures.gas_used,
        gas_used_per_tx: figures.gas_used_per_tx,
        cumulative_gas_used: None,
        difficulty: figures.difficulty,
    }
}

/// Statistics with what the run as a whole adds to them.
pub open spec fn stats_in_run(
    stats: BenchmarkingStats,
    cumulative_n_txs: u64,
    cumulative_gas_used: u64,
    overall_elapsed_seconds: u64,
    proof_out_duration: Option<std::time::Duration>,
) -> BenchmarkingStats {
    BenchmarkingStats {
        cumulative_n_txs: Some(cumulative_n_txs),
        cumulative_gas_used: Some(cumulative_gas_used),
        overall_elapsed_seconds: Some(overall_elapsed_seconds),
        proof_out_duration,
        ..stats
    }
}

impl BenchmarkingStats {
    /// The statistics of a block by itself.
    pub fn of_block(block_number: u64, figures: BlockFigures, times: ProofTimes) -> (result: Self)
        ensures
            result == block_stats(block_number, figures, times),
    {
        let n_txs: u64 = figures.gas_used_per_tx.len() as u64;
        BenchmarkingStats {
            block_number,
            n_txs,
            cumulative_n_txs: None,
            fetch_duration: figures.fetch_duration,
            total_proof_duration: times.total_proof_duration,
            prep_duration: times.prep_duration,
            txproof_duration: times.txproof_duration,
            agg_duration: times.agg_duration,
            start_time: times.start_time,
            end_time: times.end_time,
            overall_elapsed_seconds: None,
            proof_out_duration: None,
            gas_used: figures.gas_used,
            gas_used_per_tx: figures.gas_used_per_tx,
            cumulative_gas_used: None,
            difficulty: figures.difficulty,
        }
    }

    /// These statistics with what the run as a whole adds to them.
    pub fn in_run(
        self,
        cumulative_n_txs: u64,
        cumulative_gas_used: u64,
        overall_elapsed_seconds: u64,
        proof_out_duration: Option<std::time::Duration>,
    ) -> (result: Self)
        ensures
            result == stats_in_run(
                self,
                cumulative_n_txs,
                cumulative_gas_used,
                overall_elapsed_seconds,
                proof_out_duration,
            ),
    {
        BenchmarkingStats {
            cumulative_n_txs: Some(cumulative_n_txs),
            cumulative_gas_used: Some(cumulative_gas_used),
            overall_elapsed_seconds: Some(overall_elapsed_seconds),
            proof_out_duration,
            ..self
        }
    }
}

/// The means of putting out benchmark statistics, once it is ready.
#[derive(Debug, PartialEq, Eq)]
pub struct BenchmarkingOutput {
    pub config: BenchmarkOutputConfig,
    /// How many statistics are expected, where that is known.
    pub expected: Option<u64>,
    /// The statistics that were stored, in the order in which they came.
    pub stats: Vec<BenchmarkingStats>,
}

impl BenchmarkingOutput {
    /// The means of putting out statistics, with none stored yet.
    pub fn new(config: BenchmarkOutputConfig, expected: Option<u64>) -> (result: Self)
        ensures
            result.config == config,
            result.expected == expected,
            result.stats@.len() == 0,
    {
        BenchmarkingOutput { config, expected, stats: Vec::new() }
    }

    /// Stores the statistics of a block behind those that were stored before.
    pub fn push(&mut self, stats: BenchmarkingStats)
        ensures
            final(self).config == old(self).config,
            final(self).expected == old(self).expected,
            final(self).stats@ == old(self).stats@.push(stats),
    {
        self.stats.push(stats);
    }
}

/// The gas of each transaction stands at the place of the transaction, and there is one for each.
pub proof fn law_gas_stands_with_its_transaction<T>(txn_info: Seq<TxnInfo<T>>, i: int)
    requires
        0 <= i < txn_info.len(),
    ensures
        gas_of(txn_info).len() == txn_info.len(),
        gas_of(txn_info)[i] == txn_info[i].meta.gas_used,
{
}

/// The statistics of a block carry its number, its figures and the times of its proof, and nothing of
/// the run as a whole.
pub proof fn law_statistics_carry_figures_and_times(
    block_number: u64,
    figures: BlockFigures,
    times: ProofTimes,
)
    requires
        figures.gas_used_per_tx@.len() <= u64::MAX,
    ensures
        ({
            let stats = block_stats(block_number, figures, times);
            &&& stats.block_number == block_number
            &&& stats.n_txs == figures.gas_used_per_tx@.len()
            &&& stats.gas_used == figures.gas_used
            &&& stats.gas_used_per_tx == figures.gas_used_per_tx
            &&& stats.difficulty == figures.difficulty
            &&& stats.fetch_duration == figures.fetch_duration
            &&& stats.total_proof_duration == times.total_proof_duration
            &&& stats.prep_duration == times.prep_duration
            &&& stats.txproof_duration == times.txproof_duration
            &&& stats.agg_duration == times.agg_duration
            &&& stats.start_time == times.start_time
            &&& stats.end_time == times.end_time
            &&& stats.cumulative_n_txs is None
            &&& stats.cumulative_gas_used is None
            &&& stats.overall_elapsed_seconds is None
            &&& stats.proof_out_duration is None
        }),
        figures.n_txs() == figures.gas_used_per_tx@.len(),
{
}

/// What the run as a whole adds to statistics is what is handed in; all that they said of the block
/// stays as it was.
pub proof fn law_run_only_adds_to_statistics(
    stats: BenchmarkingStats,
    cumulative_n_txs: u64,
    cumulative_gas_used: u64,
    overall_elapsed_seconds: u64,
    proof_out_duration: Option<std::time::Duration>,
)
    ensures
        ({
            let added = stats_in_run(
                stats,
                cumulative_n_txs,
                cumulative_gas_used,
                overall_elapsed_seconds,
                proof_out_duration,
            );
            &&& added.cumulative_n_txs == Some(cumulative_n_txs)
            &&& added.cumulative_gas_used == Some(cumulative_gas_used)
            &&& added.overall_elapsed_seconds == Some(overall_elapsed_seconds)
            &&& added.proof_out_duration == proof_out_duration
            &&& added.block_number == stats.block_number
            &&& added.n_txs == stats.n_txs
            &&& added.gas_used == stats.gas_used
            &&& added.gas_used_per_tx == stats.gas_used_per_tx
            &&& added.difficulty == stats.difficulty
            &&& added.fetch_duration == stats.fetch_duration
            &&& added.total_proof_duration == stats.total_proof_duration
            &&& added.prep_duration == stats.prep_duration
            &&& added.txproof_duration == stats.txproof_duration
            &&& added.agg_duration == stats.agg_duration
            &&& added.start_time == stats.start_time
            &&& added.end_time == stats.end_time
        }),
{
}

} // verus!
