//! What is asked of an RPC node, and what its answers come to.

use vstd::prelude::*;

use crate::prover::ProverInput;
use crate::text::hexadecimal;
use crate::words::{Address, BlockHash, Word};

verus! {

/// A parameter of a call.
#[derive(Debug, PartialEq, Eq)]
pub enum RpcParam {
    Text(String),
    Flag(bool),
    /// An object with the one key `tracer`.
    Tracer(String),
}

/// A JSON-RPC call.
#[derive(Debug, PartialEq, Eq)]
pub struct RpcCall {
    pub jsonrpc: String,
    pub method: String,
    pub params: Vec<RpcParam>,
    pub id: u64,
}

/// A block number as the node takes it: hexadecimal, behind `0x`.
pub open spec fn block_number_hex(block_number: u64) -> Seq<char> {
    "0x"@ + crate::text::digits(block_number as nat, 16)
}

/// A block number as the node takes it is `0x` and hexadecimal digits in lower case, without leading
/// zeros, and it stands for that block and no other.
pub proof fn law_block_number_reads_back(block_number: u64)
    ensures
        block_number_hex(block_number).len() > 2,
        block_number_hex(block_number)[0] == '0',
        block_number_hex(block_number)[1] == 'x',
        crate::text::is_written_out(block_number_hex(block_number).skip(2), 16),
        crate::text::number_of(block_number_hex(block_number).skip(2), 16) == block_number,
{
    reveal_strlit("0x");
    crate::text::law_numbers_are_written_out(block_number as nat, 16);
    crate::text::law_digits_read_back(block_number as nat, 16);
    assert(block_number_hex(block_number).skip(2) =~= crate::text::digits(block_number as nat, 16));
}

/// Whether a call is the JSON-RPC 2.0 call number 1 of this method.
pub open spec fn is_call_of(call: RpcCall, method: Seq<char>) -> bool {
    call.jsonrpc@ == "2.0"@ && call.method@ == method && call.id == 1
}

fn write_block_number(block_number: u64) -> (result: String)
    ensures
        result@ == block_number_hex(block_number),
{
    "0x".to_string().concat(hexadecimal(block_number).as_str())
}

fn call_of(method: &str, params: Vec<RpcParam>) -> (result: RpcCall)
    ensures
        is_call_of(result, method@),
        result.params == params,
{
    RpcCall { jsonrpc: "2.0".to_string(), method: method.to_string(), params, id: 1 }
}

/// A transaction as the tracer reports it: the gas that it used, and the rest, which is carried
/// through unread.
#[derive(Debug, PartialEq, Eq)]
pub struct TxnInfo<T> {
    pub meta: TxnMeta,
    pub rest: T,
}

#[derive(Debug, Clone, Copy, PartialEq, Eq)]
pub struct TxnMeta {
    pub gas_used: u64,
}

/// One item of the answer to a trace call: a transaction, or the block's witness.
#[derive(Debug, PartialEq, Eq)]
pub enum JerigonResultItem<T, W> {
    Result(TxnInfo<T>),
    BlockWitness(W),
}

/// The response from the `debug_traceBlockByNumber` RPC method.
#[derive(Debug, PartialEq, Eq)]
pub struct JerigonTraceResponse<T, W> {
    pub result: Vec<JerigonResultItem<T, W>>,
}

/// Why a trace response is no block trace.
#[derive(Debug, Clone, Copy, PartialEq, Eq)]
pub enum JerigonTraceError {
    /// There is no block witness among the items.
    BlockTraceTriePreImagesNotFound,
}

impl JerigonTraceError {
    /// The error in words.
    pub fn message(&self) -> (result: String)
        ensures
            result@ == "expected BlockTraceTriePreImages in block_witness key"@,
    {
        "expected BlockTraceTriePreImages in block_witness key".to_string()
    }
}

/// A block's transactions and its witness.
#[derive(Debug, PartialEq, Eq)]
pub struct BlockTrace<T, W> {
    pub txn_info: Vec<TxnInfo<T>>,
    pub trie_pre_images: W,
}

/// The transactions among items, in their order.
pub open spec fn transactions<T, W>(items: Seq<JerigonResultItem<T, W>>) -> Seq<TxnInfo<T>> {
    items.filter(|item: JerigonResultItem<T, W>| item is Result).map_values(
        |item: JerigonResultItem<T, W>| item->Result_0,
    )
}

/// Whether item `k` is the last witness among items.
pub open spec fn is_last_witness<T, W>(items: Seq<JerigonResultItem<T, W>>, k: int) -> bool {
    &&& 0 <= k < items.len()
    &&& items[k] is BlockWitness
    &&& forall|j: int| k < j < items.len() ==> #[trigger] items[j] is Result
}

proof fn lemma_transactions_step<T, W>(items: Seq<JerigonResultItem<T, W>>, k: int)
    requires
        0 <= k < items.len(),
    ensures
        transactions(items.take(k + 1)) == match items[k] {
            JerigonResultItem::Result(info) => transactions(items.take(k)).push(info),
            JerigonResultItem::BlockWitness(_) => transactions(items.take(k)),
        },
{
    let keep = |item: JerigonResultItem<T, W>| item is Result;
    assert(items.take(k + 1).drop_last() =~= items.take(k));
    reveal(Seq::filter);
    assert(items.take(k + 1).filter(keep) == if keep(items[k]) {
        items.take(k).filter(keep).push(items[k])
    } else {
        items.take(k).filter(keep)
    });
    match items[k] {
        JerigonResultItem::Result(info) => {
            assert(transactions(items.take(k + 1)) =~= transactions(items.take(k)).push(info));
        },
        JerigonResultItem::BlockWitness(_) => {},
    }
}

impl<T, W> BlockTrace<T, W> {
    /// The block trace that a response holds: its transactions in their order, and its last witness;
    /// an error exactly if there is no witness.
    pub fn try_from(value: JerigonTraceResponse<T, W>) -> (result: Result<Self, JerigonTraceError>)
        ensures
            match result {
                Ok(trace) => {
                    &&& trace.txn_info@ == transactions(value.result@)
                    &&& exists|k: int|
                        #![trigger value.result@[k]]
                        is_last_witness(value.result@, k) && value.result@[k]
                            == JerigonResultItem::<T, W>::BlockWitness(trace.trie_pre_images)
                },
                Err(_) => forall|k: int|
                    0 <= k < value.result@.len() ==> #[trigger] value.result@[k] is Result,
            },
    {
        let ghost items = value.result@;
        let mut txn_info: Vec<TxnInfo<T>> = Vec::new();
        let mut trie_pre_images: Option<W> = None;
        let ghost mut at: int = -1;
        assert(transactions(items.take(0)) =~= Seq::empty()) by {
            reveal(Seq::filter);
        }
        for item in it: value.result
            invariant
                it.seq() == items,
                txn_info@ == transactions(items.take(it.index() as int)),
                match trie_pre_images {
                    Some(images) => {
                        &&& is_last_witness(items.take(it.index() as int), at)
                        &&& items[at] == JerigonResultItem::<T, W>::BlockWitness(images)
                    },
                    None => forall|k: int|
                        0 <= k < it.index() ==> #[trigger] items[k] is Result,
                },
        {
            let ghost k = it.index() as int;
            proof {
                lemma_transactions_step(items, k);
                assert(items[k] == item);
            }
            match item {
                JerigonResultItem::Result(info) => {
                    txn_info.push(info);
                },
                JerigonResultItem::BlockWitness(pre_images) => {
                    trie_pre_images = Some(pre_images);
                    proof {
                        at = k;
                    }
                },
            }
            assert(forall|j: int| 0 <= j <= k ==> items.take(k + 1)[j] == items[j]);
            assert(forall|j: int| 0 <= j < k ==> items.take(k)[j] == items[j]);
        }
        assert(items.take(items.len() as int) =~= items);
        match trie_pre_images {
            Some(images) => Ok(BlockTrace { txn_info, trie_pre_images: images }),
            None => Err(JerigonTraceError::BlockTraceTriePreImagesNotFound),
        }
    }
}

impl<T, W> JerigonTraceResponse<T, W> {
    /// The call that fetches the block trace for the given block number.
    pub fn call(block_number: u64) -> (result: RpcCall)
        ensures
            is_call_of(result, "debug_traceBlockByNumber"@),
            result.params@.len() == 2,
            result.params@[0] matches RpcParam::Text(text) && text@ == block_number_hex(
                block_number,
            ),
            result.params@[1] matches RpcParam::Tracer(name) && name@ == "zeroTracer"@,
    {
        let mut params: Vec<RpcParam> = Vec::new();
        params.push(RpcParam::Text(write_block_number(block_number)));
        params.push(RpcParam::Tracer("zeroTracer".to_string()));
        call_of("debug_traceBlockByNumber", params)
    }
}

/// A block's bloom filter of logs.
#[derive(Debug, Clone, Copy, PartialEq, Eq)]
pub struct Bloom {
    pub bytes: [u8; 256],
}

#[derive(Debug, PartialEq, Eq)]
pub struct EthGetBlockByNumberResult {
    pub base_fee_per_gas: Word,
    pub difficulty: Word,
    pub gas_limit: Word,
    pub gas_used: Word,
    pub hash: BlockHash,
    pub logs_bloom: Bloom,
    pub miner: Address,
    pub mix_hash: BlockHash,
    pub number: Word,
    pub timestamp: Word,
}

/// The response from the `eth_getBlockByNumber` RPC method.
#[derive(Debug, PartialEq, Eq)]
pub struct EthGetBlockByNumberResponse {
    pub result: EthGetBlockByNumberResult,
}

impl EthGetBlockByNumberResponse {
    /// The call that fetches the block metadata for the given block number.
    pub fn call(block_number: u64) -> (result: RpcCall)
        ensures
            is_call_of(result, "eth_getBlockByNumber"@),
            result.params@.len() == 2,
            result.params@[0] matches RpcParam::Text(text) && text@ == block_number_hex(
                block_number,
            ),
            result.params@[1] == RpcParam::Flag(false),
    {
        let mut params: Vec<RpcParam> = Vec::new();
        params.push(RpcParam::Text(write_block_number(block_number)));
        params.push(RpcParam::Flag(false));
        call_of("eth_getBlockByNumber", params)
    }
}

/// The response from the `eth_chainId` RPC method.
#[derive(Debug, PartialEq, Eq)]
pub struct EthChainIdResponse {
    pub result: Word,
}

impl EthChainIdResponse {
    /// The call that fetches the chain id.
    pub fn call() -> (result: RpcCall)
        ensures
            is_call_of(result, "eth_chainId"@),
            result.params@.len() == 0,
    {
        call_of("eth_chainId", Vec::new())
    }
}

/// Product of the `eth_getBlockByNumber` and `eth_chainId` RPC methods.
///
/// Contains the necessary data to construct the [OtherBlockData].
#[derive(Debug, PartialEq, Eq)]
pub struct RpcBlockMetadata {
    pub block_by_number: EthGetBlockByNumberResponse,
    pub chain_id: EthChainIdResponse,
}

#[derive(Debug, PartialEq, Eq)]
pub struct BlockMetadata {
    pub block_beneficiary: Address,
    pub block_timestamp: Word,
    pub block_number: Word,
    pub block_difficulty: Word,
    pub block_random: BlockHash,
    pub block_gaslimit: Word,
    pub block_chain_id: Word,
    pub block_base_fee: Word,
    pub block_gas_used: Word,
    pub block_bloom: [Word; 8],
}

#[derive(Debug, PartialEq, Eq)]
pub struct BlockHashes {
    pub prev_hashes: Vec<BlockHash>,
    pub cur_hash: BlockHash,
}

#[derive(Debug, PartialEq, Eq)]
pub struct BlockLevelData {
    pub b_meta: BlockMetadata,
    pub b_hashes: BlockHashes,
}

/// What has to be known of a block besides its trace.
#[derive(Debug, PartialEq, Eq)]
pub struct OtherBlockData {
    pub b_data: BlockLevelData,
    pub genesis_state_trie_root: BlockHash,
}

/// Whether words are a bloom filter: word `i` is made of the bytes from `32 * i` on, the most
/// significant first.
pub open spec fn is_bloom_of(bloom: Bloom, words: Seq<Word>) -> bool {
    &&& words.len() == 8
    &&& forall|i: int|
        0 <= i < 8 ==> (#[trigger] words[i])@ == crate::words::big_endian_value(
            bloom.bytes@.subrange(32 * i, 32 * i + 32),
        )
}

/// Whether block data says what the node's answers say; the previous hashes and the genesis root
/// are all zero.
pub open spec fn is_data_of(metadata: RpcBlockMetadata, data: OtherBlockData) -> bool {
    let block = metadata.block_by_number.result;
    let meta = data.b_data.b_meta;
    let hashes = data.b_data.b_hashes;
    &&& meta.block_beneficiary == block.miner
    &&& meta.block_timestamp == block.timestamp
    &&& meta.block_number == block.number
    &&& meta.block_difficulty == block.difficulty
    &&& meta.block_random == block.mix_hash
    &&& meta.block_gaslimit == block.gas_limit
    &&& meta.block_chain_id == metadata.chain_id.result
    &&& meta.block_base_fee == block.base_fee_per_gas
    &&& meta.block_gas_used == block.gas_used
    &&& is_bloom_of(block.logs_bloom, meta.block_bloom@)
    &&& hashes.cur_hash == block.hash
    &&& hashes.prev_hashes@.len() == 256
    &&& forall|i: int| 0 <= i < 256 ==> (#[trigger] hashes.prev_hashes@[i]).is_zero()
    &&& data.genesis_state_trie_root.is_zero()
}

/// The bloom filter as eight words: word `i` is made of the bytes from `32 * i` on.
fn bloom_words(bloom: &Bloom) -> (result: [Word; 8])
    ensures
        is_bloom_of(*bloom, result@),
{
    let mut words: [Word; 8] = [Word::zero();8];
    let bytes: &[u8] = bloom.bytes.as_slice();
    let mut i: usize = 0;
    while i < 8
        invariant
            0 <= i <= 8,
            bytes@ == bloom.bytes@,
            bytes@.len() == 256,
            forall|j: int|
                0 <= j < i ==> (#[trigger] words@[j])@ == crate::words::big_endian_value(
                    bloom.bytes@.subrange(32 * j, 32 * j + 32),
                ),
        decreases 8 - i,
    {
        words[i] = Word::from_big_endian(vstd::slice::slice_subrange(bytes, 32 * i, 32 * i + 32));
        i = i + 1;
    }
    words
}

impl OtherBlockData {
    /// The block data that the node's answers make: the previous hashes and the genesis root are
    /// all zero.
    pub fn from(value: RpcBlockMetadata) -> (result: Self)
        ensures
            is_data_of(value, result),
    {
        let block = value.block_by_number.result;
        let block_bloom = bloom_words(&block.logs_bloom);
        let b_meta = BlockMetadata {
            block_beneficiary: block.miner,
            block_timestamp: block.timestamp,
            block_number: block.number,
            block_difficulty: block.difficulty,
            block_random: block.mix_hash,
            block_gaslimit: block.gas_limit,
            block_chain_id: value.chain_id.result,
            block_base_fee: block.base_fee_per_gas,
            block_gas_used: block.gas_used,
            block_bloom,
        };
        OtherBlockData {
            b_data: BlockLevelData {
                b_meta,
                b_hashes: BlockHashes {
                    prev_hashes: vec![BlockHash::zero(); 256],
                    cur_hash: block.hash,
                },
            },
            genesis_state_trie_root: BlockHash::zero(),
        }
    }
}

/// What the node's answers on a block make: its trace and its other data; an error exactly if the
/// trace holds no witness.
pub fn fetch_prover_input<T, W>(
    trace_result: JerigonTraceResponse<T, W>,
    rpc_block_metadata: RpcBlockMetadata,
) -> (result: Result<ProverInput<T, W>, JerigonTraceError>)
    ensures
        result is Err <==> forall|k: int|
            0 <= k < trace_result.result@.len() ==> #[trigger] trace_result.result@[k] is Result,
        result matches Ok(input) ==> {
            &&& input.block_trace.txn_info@ == transactions(trace_result.result@)
            &&& exists|k: int|
                #![trigger trace_result.result@[k]]
                is_last_witness(trace_result.result@, k) && trace_result.result@[k]
                    == JerigonResultItem::<T, W>::BlockWitness(input.block_trace.trie_pre_images)
            &&& is_data_of(rpc_block_metadata, input.other_data)
        },
{
    match BlockTrace::try_from(trace_result) {
        Ok(block_trace) => Ok(
            ProverInput { block_trace, other_data: OtherBlockData::from(rpc_block_metadata) },
        ),
        Err(error) => Err(error),
    }
}

/// A call of a method names it, the version 2.0 of the protocol, and the number 1.
pub proof fn law_calls_name_their_method(call: RpcCall, method: Seq<char>)
    ensures
        is_call_of(call, method) <==> {
            &&& call.method@ == method
            &&& call.jsonrpc@ == seq!['2', '.', '0']
            &&& call.id == 1
        },
{
    reveal_strlit("2.0");
    assert("2.0"@ =~= seq!['2', '.', '0']);
}

/// The transactions of items are those of the first items and then those of the rest; one item that is
/// a transaction gives that transaction, and one that is a witness gives none.
pub proof fn law_transactions_keep_their_order<T, W>(
    first: Seq<JerigonResultItem<T, W>>,
    rest: Seq<JerigonResultItem<T, W>>,
    info: TxnInfo<T>,
    witness: W,
)
    ensures
        transactions(first + rest) == transactions(first) + transactions(rest),
        transactions(seq![JerigonResultItem::<T, W>::Result(info)]) == seq![info],
        transactions(seq![JerigonResultItem::<T, W>::BlockWitness(witness)]) == Seq::<
            TxnInfo<T>,
        >::empty(),
        transactions(Seq::<JerigonResultItem<T, W>>::empty()) == Seq::<TxnInfo<T>>::empty(),
    decreases rest.len(),
{
    let none = Seq::<JerigonResultItem<T, W>>::empty();
    assert(transactions(none) =~= Seq::empty()) by {
        reveal(Seq::filter);
    }
    let one = seq![JerigonResultItem::<T, W>::Result(info)];
    lemma_transactions_step(one, 0);
    assert(one.take(1) =~= one);
    assert(one.take(0) =~= none);
    let other = seq![JerigonResultItem::<T, W>::BlockWitness(witness)];
    lemma_transactions_step(other, 0);
    assert(other.take(1) =~= other);
    assert(other.take(0) =~= none);
    if rest.len() == 0 {
        assert(first + rest =~= first);
        assert(rest =~= none);
        assert(transactions(first) + transactions(rest) =~= transactions(first));
    } else {
        let all = first + rest;
        let short = rest.drop_last();
        law_transactions_keep_their_order(first, short, info, witness);
        lemma_transactions_step(all, all.len() - 1);
        lemma_transactions_step(rest, rest.len() - 1);
        assert(all.take(all.len() as int) =~= all);
        assert(all.take(all.len() - 1) =~= first + short);
        assert(rest.take(rest.len() as int) =~= rest);
        assert(rest.take(rest.len() - 1) =~= short);
        assert(transactions(all) =~= transactions(first) + transactions(rest));
    }
}

/// The last witness is a witness with none behind it, and there is no more than one such place.
pub proof fn law_last_witness_is_the_last<T, W>(items: Seq<JerigonResultItem<T, W>>, k: int, j: int)
    ensures
        is_last_witness(items, k) ==> {
            &&& 0 <= k < items.len()
            &&& items[k] is BlockWitness
            &&& k < j < items.len() ==> !(items[j] is BlockWitness)
        },
        is_last_witness(items, k) && is_last_witness(items, j) ==> k == j,
        0 <= k < items.len() && items[k] is BlockWitness && (forall|i: int|
            k < i < items.len() ==> !(#[trigger] items[i] is BlockWitness)) ==> is_last_witness(
            items,
            k,
        ),
{
}

/// Block data says of the block what the node said of it, figure by figure.
pub proof fn law_block_data_says_what_the_node_said(metadata: RpcBlockMetadata, data: OtherBlockData)
    requires
        is_data_of(metadata, data),
    ensures
        data.b_data.b_meta.block_number == metadata.block_by_number.result.number,
        data.b_data.b_meta.block_timestamp == metadata.block_by_number.result.timestamp,
        data.b_data.b_meta.block_beneficiary == metadata.block_by_number.result.miner,
        data.b_data.b_meta.block_difficulty == metadata.block_by_number.result.difficulty,
        data.b_data.b_meta.block_random == metadata.block_by_number.result.mix_hash,
        data.b_data.b_meta.block_gaslimit == metadata.block_by_number.result.gas_limit,
        data.b_data.b_meta.block_gas_used == metadata.block_by_number.result.gas_used,
        data.b_data.b_meta.block_base_fee == metadata.block_by_number.result.base_fee_per_gas,
        data.b_data.b_meta.block_chain_id == metadata.chain_id.result,
        data.b_data.b_hashes.cur_hash == metadata.block_by_number.result.hash,
        data.b_data.b_hashes.prev_hashes@.len() == 256,
        forall|i: int, j: int|
            0 <= i < 256 && 0 <= j < 32 ==> #[trigger] data.b_data.b_hashes.prev_hashes@[i].bytes@[j]
                == 0,
        forall|j: int|
            0 <= j < 32 ==> #[trigger] data.genesis_state_trie_root.bytes@[j] == 0,
{
    assert forall|i: int, j: int|
        0 <= i < 256 && 0 <= j < 32 implies #[trigger] data.b_data.b_hashes.prev_hashes@[i].bytes@[j]
        == 0 by {
        assert(data.b_data.b_hashes.prev_hashes@[i].is_zero());
    }
}

/// The bloom filter of block data is that of the node, 32 bytes a word from the first byte to the
/// last, the most significant byte of a word first.
pub proof fn law_bloom_is_cut_into_words(metadata: RpcBlockMetadata, data: OtherBlockData, i: int)
    requires
        is_data_of(metadata, data),
        0 <= i < 8,
    ensures
        data.b_data.b_meta.block_bloom@.len() == 8,
        data.b_data.b_meta.block_bloom@[i]@ == crate::words::big_endian_value(
            Seq::new(
                32,
                |j: int| metadata.block_by_number.result.logs_bloom.bytes@[i * 32 + j],
            ),
        ),
{
    let bytes = metadata.block_by_number.result.logs_bloom.bytes@;
    assert(bytes.subrange(32 * i, 32 * i + 32) =~= Seq::new(32, |j: int| bytes[i * 32 + j]));
    assert(data.b_data.b_meta.block_bloom@[i]@ == crate::words::big_endian_value(
        bytes.subrange(32 * i, 32 * i + 32),
    ));
}

} // verus!
