//! Watching the latest block and its gas.

use vstd::prelude::*;

use crate::text::decimal;
use crate::words::Word;

verus! {

/// A transaction of a block.
#[derive(Debug, Clone, Copy, PartialEq, Eq)]
pub struct Transaction {
    pub gas: Word,
}

/// A block with its transactions.
#[derive(Debug, PartialEq, Eq)]
pub struct Block {
    /// The number of the block, unless it is pending.
    pub number: Option<u64>,
    pub transactions: Vec<Transaction>,
}

/// The gas of transactions, summed up.
pub open spec fn total_gas(transactions: Seq<Transaction>) -> nat
    decreases transactions.len(),
{
    if transactions.len() == 0 {
        0
    } else {
        total_gas(transactions.drop_last()) + transactions.last().gas@
    }
}

proof fn lemma_total_gas_grows(transactions: Seq<Transaction>, k: int)
    requires
        0 <= k < transactions.len(),
    ensures
        total_gas(transactions.take(k)) + transactions[k].gas@ == total_gas(
            transactions.take(k + 1),
        ),
        total_gas(transactions.take(k + 1)) <= total_gas(transactions),
    decreases transactions.len() - k,
{
    assert(transactions.take(k + 1).drop_last() =~= transactions.take(k));
    if k + 1 < transactions.len() {
        lemma_total_gas_grows(transactions, k + 1);
    } else {
        assert(transactions.take(k + 1) =~= transactions);
    }
}

/// The gas of all transactions of a block.
pub fn get_gas_used(block: &Block) -> (result: usize)
    requires
        total_gas(block.transactions@) <= usize::MAX,
    ensures
        result == total_gas(block.transactions@),
{
    let mut gas_used: usize = 0;
    let mut i: usize = 0;
    assert(block.transactions@.take(0) =~= Seq::empty());
    while i < block.transactions.len()
        invariant
            0 <= i <= block.transactions@.len(),
            total_gas(block.transactions@) <= usize::MAX,
            gas_used == total_gas(block.transactions@.take(i as int)),
        decreases block.transactions@.len() - i,
    {
        proof {
            lemma_total_gas_grows(block.transactions@, i as int);
        }
        gas_used = gas_used + block.transactions[i].gas.as_usize();
        i = i + 1;
    }
    assert(block.transactions@.take(i as int) =~= block.transactions@);
    gas_used
}

/// Whether the gas of all transactions of a block sums up to a number that fits.
pub fn gas_fits(block: &Block) -> (result: bool)
    ensures
        result == (total_gas(block.transactions@) <= usize::MAX),
{
    let mut sum: u64 = 0;
    let mut i: usize = 0;
    assert(block.transactions@.take(0) =~= Seq::empty());
    while i < block.transactions.len()
        invariant
            0 <= i <= block.transactions@.len(),
            sum <= usize::MAX,
            sum == total_gas(block.transactions@.take(i as int)),
        decreases block.transactions@.len() - i,
    {
        proof {
            lemma_total_gas_grows(block.transactions@, i as int);
        }
        match block.transactions[i].gas.to_u64() {
            Some(gas) => {
                if gas > usize::MAX as u64 - sum {
                    return false;
                }
                sum = sum + gas;
            },
            None => {
                return false;
            },
        }
        i = i + 1;
    }
    assert(block.transactions@.take(i as int) =~= block.transactions@);
    true
}

/// The number of a block that is not pending.
pub fn get_block_number(block: &Block) -> (result: u64)
    requires
        block.number is Some,
    ensures
        Some(result) == block.number,
{
    block.number.unwrap()
}

/// What is printed of a block.
pub open spec fn block_line(number: u64, gas_used: nat) -> Seq<char> {
    "Latest block number: "@ + crate::text::digits(number as nat, 10) + ", Gas used: "@
        + crate::text::digits(gas_used, 10)
}

/// What is printed of a block: its number and its gas.
pub fn print_block_info(block: &Block) -> (result: String)
    requires
        block.number is Some,
        total_gas(block.transactions@) <= usize::MAX,
    ensures
        result@ == block_line(block.number->0, total_gas(block.transactions@)),
{
    let number: u64 = get_block_number(block);
    let gas_used: u64 = get_gas_used(block) as u64;
    "Latest block number: ".to_string().concat(decimal(number).as_str()).concat(
        ", Gas used: ",
    ).concat(decimal(gas_used).as_str())
}

/// A watch over the latest block.
#[derive(Debug, Clone, Copy, PartialEq, Eq)]
pub struct Watch {
    /// The number of the block that was seen last; 0 before any was.
    pub previous_block_number: u64,
}

impl Watch {
    /// A watch that has seen no block.
    pub fn new() -> (result: Watch)
        ensures
            result.previous_block_number == 0,
    {
        Watch { previous_block_number: 0 }
    }

    /// Looks at the latest block, and says what is to be printed: something exactly if it is another
    /// block than the one seen last.
    pub fn observe(&mut self, block: &Block) -> (result: Option<String>)
        requires
            block.number is Some,
            block.number->0 != old(self).previous_block_number ==> total_gas(block.transactions@)
                <= usize::MAX,
        ensures
            final(self).previous_block_number == block.number->0,
            result is Some <==> block.number->0 != old(self).previous_block_number,
            result matches Some(line) ==> line@ == block_line(
                block.number->0,
                total_gas(block.transactions@),
            ),
    {
        let block_number: u64 = get_block_number(block);
        if block_number != self.previous_block_number {
            let line = print_block_info(block);
            self.previous_block_number = block_number;
            Some(line)
        } else {
            None
        }
    }
}

/// The gas of transactions is that of the first of them and that of the rest; that of one is its own,
/// and that of none is 0.
pub proof fn law_gas_adds_up(first: Seq<Transaction>, rest: Seq<Transaction>, one: Transaction)
    ensures
        total_gas(first + rest) == total_gas(first) + total_gas(rest),
        total_gas(seq![one]) == one.gas@,
        total_gas(Seq::<Transaction>::empty()) == 0,
    decreases rest.len(),
{
    assert(seq![one].drop_last() =~= Seq::empty());
    reveal_with_fuel(total_gas, 2);
    if rest.len() == 0 {
        assert(first + rest =~= first);
    } else {
        law_gas_adds_up(first, rest.drop_last(), one);
        assert((first + rest).drop_last() =~= first + rest.drop_last());
    }
}

/// What is printed of a block tells its number and its gas, both in decimal.
pub proof fn law_line_tells_number_and_gas(number: u64, gas_used: nat)
    ensures
        exists|told: Seq<char>, gas: Seq<char>|
            {
                &&& block_line(number, gas_used) == #[trigger] ("Latest block number: "@ + told
                    + ", Gas used: "@ + gas)
                &&& crate::text::is_written_out(told, 10)
                &&& crate::text::number_of(told, 10) == number
                &&& crate::text::is_written_out(gas, 10)
                &&& crate::text::number_of(gas, 10) == gas_used
            },
{
    let told = crate::text::digits(number as nat, 10);
    let gas = crate::text::digits(gas_used, 10);
    crate::text::law_digits_read_back(number as nat, 10);
    crate::text::law_digits_read_back(gas_used, 10);
    crate::text::law_numbers_are_written_out(number as nat, 10);
    crate::text::law_numbers_are_written_out(gas_used, 10);
    assert(block_line(number, gas_used) == "Latest block number: "@ + told + ", Gas used: "@ + gas);
}

} // verus!
