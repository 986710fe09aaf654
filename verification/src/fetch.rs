//! Fetching what is needed to prove one block.

use vstd::prelude::*;

use crate::input::BlockSource;

verus! {

/// Why a block could not be fetched.
#[derive(Debug, PartialEq, Eq)]
pub enum FetchError {
    /// The RPC source failed, with this message.
    ZeroBinRpcFetchError(String),
}

/// What is asked of the RPC source.
#[derive(Debug, PartialEq, Eq)]
pub struct FetchProverInputRequest {
    pub rpc_url: String,
    pub block_number: u64,
    pub checkpoint_block_number: u64,
}

/// The checkpoint of a block: the one that is given, or else the block before, or block 0 where
/// there is none before.
pub open spec fn checkpoint_of(block_number: u64, checkpoint_block_number: Option<u64>) -> int {
    match checkpoint_block_number {
        Some(checkpoint) => checkpoint as int,
        None => if block_number == 0 {
            0
        } else {
            block_number - 1
        },
    }
}

/// Begins to fetch a block: the request that is to be made of its source.
pub fn fetch(
    block_number: u64,
    checkpoint_block_number: Option<u64>,
    source: &BlockSource,
) -> (result: FetchProverInputRequest)
    ensures
        source matches BlockSource::ZeroBinRpc { rpc_url } && result.rpc_url == rpc_url,
        result.block_number == block_number,
        result.checkpoint_block_number == checkpoint_of(block_number, checkpoint_block_number),
{
    match source {
        BlockSource::ZeroBinRpc { rpc_url } => FetchProverInputRequest {
            rpc_url: rpc_url.clone(),
            block_number,
            checkpoint_block_number: match checkpoint_block_number {
                Some(checkpoint) => checkpoint,
                None => if block_number == 0 {
                    0
                } else {
                    block_number - 1
                },
            },
        },
    }
}

/// What a fetch comes to, given what the RPC source answered.
pub fn fetch_outcome<T>(answer: Result<T, String>) -> (result: Result<T, FetchError>)
    ensures
        result == match answer {
            Ok(prover_input) => Ok(prover_input),
            Err(message) => Err(FetchError::ZeroBinRpcFetchError(message)),
        },
{
    match answer {
        Ok(prover_input) => Ok(prover_input),
        Err(message) => Err(FetchError::ZeroBinRpcFetchError(message)),
    }
}

/// A checkpoint that is given is the checkpoint; else the checkpoint comes right before the block,
/// but that of block 0 is block 0.
pub proof fn law_checkpoint_comes_before_block(
    block_number: u64,
    checkpoint_block_number: Option<u64>,
)
    ensures
        checkpoint_block_number matches Some(c) ==> checkpoint_of(
            block_number,
            checkpoint_block_number,
        ) == c,
        checkpoint_block_number is None && block_number > 0 ==> checkpoint_of(
            block_number,
            checkpoint_block_number,
        ) + 1 == block_number,
        checkpoint_block_number is None && block_number == 0 ==> checkpoint_of(
            block_number,
            checkpoint_block_number,
        ) == 0,
{
}

} // verus!
