//! What a caller asks for when many blocks are to be proved.

use vstd::prelude::*;

use crate::benchmarking::BenchmarkOutputConfig;
use crate::proofout::ProofOutputMethod;

verus! {

/// The means for terminating.
#[derive(Debug, Clone, Copy, PartialEq, Eq, Structural)]
pub enum TerminateOn {
    /// Terminate `num_seconds` seconds after the start of proving blocks.
    ///
    /// Work may go on after the `num_seconds`, but from then on no new proof is begun, and no proof
    /// that is finalized from then on is recorded.
    ElapsedSeconds {
        /// The seconds that elapse since the beginning of the proving process before terminating.
        num_seconds: u64,
    },
    /// Prove until the gas of all the blocks that were proved sums up to `until_gas_sum`.
    BlockGasUsed { until_gas_sum: u64 },
    /// Terminate once the end block is proved.
    EndBlock {
        /// The block number considered to be the end block, inclusive.
        block_number: u64,
    },
}

/// The source of blocks.
#[derive(Debug, PartialEq, Eq)]
pub enum BlockSource {
    /// The RPC function of ZeroBin.
    ZeroBinRpc {
        /// The url of the RPC.
        rpc_url: String,
    },
}

impl Clone for BlockSource {
    fn clone(&self) -> (result: Self)
        ensures
            result == *self,
    {
        match self {
            BlockSource::ZeroBinRpc { rpc_url } => BlockSource::ZeroBinRpc {
                rpc_url: rpc_url.clone(),
            },
        }
    }
}

/// How blocks are processed.
///
/// In sequential mode never more than one block at a time is sent to the workers.
///
/// In parallel mode at most `max_concurrent` blocks have their workloads distributed to the
/// workers.
#[derive(Debug, Clone, Copy, PartialEq, Eq, Structural)]
pub enum BlockConcurrencyMode {
    Sequential,
    Parallel {
        max_concurrent: u8,
        /// The maximum number of blocks to do; if not provided, a number is picked.
        max_blocks: Option<u64>,
    },
}

/// The number that stands in where no maximum number of blocks is given.
///
/// Where no end block is given either, a parallel run goes from the first block to the block that is
/// this number past it, inclusive: it hands out one block more than this number.
pub const DFLT_MAX_NUMBER_BLOCKS: u64 = 1_000;

impl Default for BlockConcurrencyMode {
    fn default() -> (result: Self)
        ensures
            result == BlockConcurrencyMode::Sequential,
    {
        BlockConcurrencyMode::Sequential
    }
}

impl BlockConcurrencyMode {
    /// How many blocks may be in work at a time; nothing in sequential mode.
    pub fn max_concurrent(&self) -> (result: Option<u8>)
        ensures
            result == match *self {
                BlockConcurrencyMode::Sequential => None,
                BlockConcurrencyMode::Parallel { max_concurrent, .. } => Some(max_concurrent),
            },
    {
        match self {
            BlockConcurrencyMode::Parallel { max_concurrent, max_blocks: _ } => Some(
                *max_concurrent,
            ),
            _ => None,
        }
    }

    /// The maximum number of blocks, or the number that stands in for it; nothing in sequential mode.
    pub fn max_blocks(&self) -> (result: Option<u64>)
        ensures
            result == match *self {
                BlockConcurrencyMode::Sequential => None,
                BlockConcurrencyMode::Parallel { max_blocks: Some(n), .. } => Some(n),
                BlockConcurrencyMode::Parallel { max_blocks: None, .. } => Some(1000u64),
            },
    {
        match self {
            BlockConcurrencyMode::Sequential => None,
            BlockConcurrencyMode::Parallel { max_concurrent: _, max_blocks } => Some(
                max_blocks.unwrap_or(DFLT_MAX_NUMBER_BLOCKS),
            ),
        }
    }
}

/// The input for starting the many-blocks proving.
#[derive(Debug, PartialEq, Eq)]
pub struct ProveBlocksInput {
    /// The name of the run.
    pub run_name: Option<String>,
    /// The starting block number.
    pub start_block_number: u64,
    /// The checkpoint block number.  If not provided, it is the `start_block_number` - 1, or 0 where
    /// the `start_block_number` is 0.
    pub checkpoint_block_number: Option<u64>,
    /// The termination condition.  If not provided, the run does not terminate until exhausted or
    /// an error occurs.
    pub terminate_on: Option<TerminateOn>,
    /// How blocks are sourced.
    pub block_source: BlockSource,
    /// The concurrency mode.
    pub block_concurrency: Option<BlockConcurrencyMode>,
    /// Deprecated: gas is always checked.
    pub check_gas: Option<bool>,
    /// Where proofs are put.  If not provided, no proofs are stored.
    pub proof_output: Option<ProofOutputMethod>,
    /// Where benchmark statistics are put.  If not provided, none are stored.
    pub benchmark_output: Option<BenchmarkOutputConfig>,
    /// Whether the previous proof is forwarded to the next proof.  Default is false.
    pub forward_prev: Option<bool>,
}

impl Clone for ProveBlocksInput {
    fn clone(&self) -> (result: Self)
        ensures
            result == *self,
    {
        ProveBlocksInput {
            run_name: match &self.run_name {
                Some(run_name) => Some(run_name.clone()),
                None => None,
            },
            start_block_number: self.start_block_number,
            checkpoint_block_number: self.checkpoint_block_number,
            terminate_on: self.terminate_on,
            block_source: self.block_source.clone(),
            block_concurrency: self.block_concurrency,
            check_gas: self.check_gas,
            proof_output: match &self.proof_output {
                Some(method) => Some(method.clone()),
                None => None,
            },
            benchmark_output: match &self.benchmark_output {
                Some(config) => Some(config.clone()),
                None => None,
            },
            forward_prev: self.forward_prev,
        }
    }
}

impl ProveBlocksInput {
    /// Whether the number of blocks from the start to the end block, where there is one, can be
    /// counted: the range is not empty, and the count fits.
    pub open spec fn countable(self) -> bool {
        self.terminate_on matches Some(TerminateOn::EndBlock { block_number })
            ==> self.start_block_number <= block_number && block_number - self.start_block_number
            < u64::MAX
    }

    /// How many blocks there are from the start to the end block, inclusive; nothing where no end
    /// block is given.
    pub open spec fn expected_number_proofs(self) -> Option<u64> {
        match self.terminate_on {
            Some(TerminateOn::EndBlock { block_number }) => Some(
                (block_number - self.start_block_number + 1) as u64,
            ),
            _ => None,
        }
    }

    /// Whether the number of blocks can be counted.
    pub fn is_countable(&self) -> (result: bool)
        ensures
            result == self.countable(),
    {
        match self.terminate_on {
            Some(TerminateOn::EndBlock { block_number }) => {
                self.start_block_number <= block_number && block_number - self.start_block_number
                    < u64::MAX
            },
            _ => true,
        }
    }

    /// How many proofs the run yields, where that is known beforehand.
    pub fn get_expected_number_proofs(&self) -> (result: Option<u64>)
        requires
            self.countable(),
        ensures
            result == self.expected_number_proofs(),
    {
        match self.terminate_on {
            Some(TerminateOn::EndBlock { block_number }) => {
                Some((block_number - self.start_block_number) + 1)
            },
            _ => None,
        }
    }

    /// The estimated number of proofs that will be generated, or [None] where there is no estimate.
    ///
    /// This is largely based on the termination condition ([TerminateOn]).
    pub fn estimate_expected_number_proofs(&self) -> (result: Option<u64>)
        requires
            self.countable(),
        ensures
            result == self.expected_number_proofs(),
    {
        self.get_expected_number_proofs()
    }

    /// The last block that a parallel run hands out: the end block if there is one, but no more blocks
    /// than the maximum where one is given; without either, a fixed number of blocks past the first.
    pub open spec fn last_task(self) -> int {
        let end: Option<int> = match self.terminate_on {
            Some(TerminateOn::EndBlock { block_number }) => Some(block_number as int),
            _ => None,
        };
        let cap: Option<int> = match self.block_concurrency {
            Some(BlockConcurrencyMode::Parallel { max_blocks: Some(n), .. }) => Some(
                self.start_block_number + n - 1,
            ),
            _ => None,
        };
        match (end, cap) {
            (Some(e), Some(c)) => if e <= c {
                e
            } else {
                c
            },
            (Some(e), None) => e,
            (None, Some(c)) => c,
            (None, None) => self.start_block_number + DFLT_MAX_NUMBER_BLOCKS,
        }
    }

    /// Whether the blocks that a parallel run hands out all have a number that fits.
    pub fn has_task_range(&self) -> (result: bool)
        ensures
            result == (self.last_task() <= u64::MAX),
    {
        match (self.terminate_on, self.block_concurrency) {
            (Some(TerminateOn::EndBlock { .. }), _) => true,
            (_, Some(BlockConcurrencyMode::Parallel { max_blocks: Some(n), .. })) => n == 0 || n - 1
                <= u64::MAX - self.start_block_number,
            _ => DFLT_MAX_NUMBER_BLOCKS <= u64::MAX - self.start_block_number,
        }
    }

    /// The first and the last block that a parallel run hands out, or [None] if there is no block to
    /// hand out.
    pub fn task_range(&self) -> (result: Option<(u64, u64)>)
        requires
            self.last_task() <= u64::MAX,
        ensures
            result == if self.start_block_number <= self.last_task() {
                Some((self.start_block_number, self.last_task() as u64))
            } else {
                None
            },
    {
        let first: u64 = self.start_block_number;
        let cap: Option<u64> = match self.block_concurrency {
            Some(BlockConcurrencyMode::Parallel { max_blocks, .. }) => max_blocks,
            _ => None,
        };
        let last: u64 = match (self.terminate_on, cap) {
            (_, Some(0)) => {
                return None;
            },
            (Some(TerminateOn::EndBlock { block_number }), Some(n)) => {
                if block_number < first {
                    return None;
                }
                if block_number - first <= n - 1 {
                    block_number
                } else {
                    first + (n - 1)
                }
            },
            (Some(TerminateOn::EndBlock { block_number }), None) => {
                if block_number < first {
                    return None;
                }
                block_number
            },
            (_, Some(n)) => first + (n - 1),
            (_, None) => first + DFLT_MAX_NUMBER_BLOCKS,
        };
        Some((first, last))
    }

    /// The checkpoint: the one that is given, or else the block before the start block, or block 0
    /// where there is none before.
    pub open spec fn checkpoint(self) -> int {
        match self.checkpoint_block_number {
            Some(checkpoint) => checkpoint as int,
            None => if self.start_block_number == 0 {
                0
            } else {
                self.start_block_number - 1
            },
        }
    }

    /// Either the checkpoint value or the start block number - 1, which is 0 where the start block
    /// is block 0.
    pub fn get_checkpoint_block_number(&self) -> (result: u64)
        ensures
            result == self.checkpoint(),
    {
        match self.checkpoint_block_number {
            Some(checkpoint) => checkpoint,
            None => if self.start_block_number == 0 {
                0
            } else {
                self.start_block_number - 1
            },
        }
    }
}

/// With an end block that is not before the start block, the expected number of proofs leads from the
/// start block to the end block; without an end block no number is expected.
pub proof fn law_expected_proofs_reach_the_end_block(input: ProveBlocksInput)
    ensures
        input.terminate_on matches Some(TerminateOn::EndBlock { block_number }) ==> {
            &&& input.countable() <==> {
                &&& input.start_block_number <= block_number
                &&& !(input.start_block_number == 0 && block_number == u64::MAX)
            }
            &&& input.countable() ==> (input.expected_number_proofs() matches Some(n) && n >= 1
                && input.start_block_number + n - 1 == block_number)
        },
        !(input.terminate_on matches Some(TerminateOn::EndBlock { .. })) ==> input.countable()
            && input.expected_number_proofs() is None,
{
}

/// The checkpoint is the one that is given; else it comes right before the start block, but that of
/// block 0 is block 0.
pub proof fn law_checkpoint_comes_before_start(input: ProveBlocksInput)
    ensures
        input.checkpoint_block_number matches Some(c) ==> input.checkpoint() == c,
        input.checkpoint_block_number is None && input.start_block_number > 0 ==> input.checkpoint()
            + 1 == input.start_block_number,
        input.checkpoint_block_number is None && input.start_block_number == 0
            ==> input.checkpoint() == 0,
{
}

/// The last block that is handed out in parallel is past neither the end block nor the maximum number
/// of blocks, and it is the furthest such block; without either it is 1000 past the start block.
pub proof fn law_last_task_is_the_furthest_allowed(input: ProveBlocksInput)
    ensures
        ({
            let last = input.last_task();
            let start = input.start_block_number;
            match (input.terminate_on, input.block_concurrency) {
                (
                    Some(TerminateOn::EndBlock { block_number }),
                    Some(BlockConcurrencyMode::Parallel { max_blocks: Some(n), .. }),
                ) => {
                    &&& last <= block_number
                    &&& last - start + 1 <= n
                    &&& last == block_number || last - start + 1 == n
                },
                (Some(TerminateOn::EndBlock { block_number }), _) => last == block_number,
                (_, Some(BlockConcurrencyMode::Parallel { max_blocks: Some(n), .. })) => last - start
                    + 1 == n,
                _ => last - start == 1000,
            }
        }),
{
}

} // verus!
