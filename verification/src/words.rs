//! Words, hashes and addresses of the chain, as plain values.

use vstd::prelude::*;

verus! {

/// A 256-bit unsigned number: four 64-bit limbs, the least significant first.
#[derive(Debug, Clone, Copy, PartialEq, Eq)]
pub struct Word {
    pub limbs: [u64; 4],
}

/// A 256-bit hash.
#[derive(Debug, Clone, Copy, PartialEq, Eq)]
pub struct BlockHash {
    pub bytes: [u8; 32],
}

/// An account address.
#[derive(Debug, Clone, Copy, PartialEq, Eq)]
pub struct Address {
    pub bytes: [u8; 20],
}

/// The number that limbs stand for.
pub open spec fn limbs_value(limbs: Seq<u64>) -> nat
    recommends
        limbs.len() == 4,
{
    (limbs[0] + 0x1_0000_0000_0000_0000 * limbs[1]
        + 0x1_0000_0000_0000_0000_0000_0000_0000_0000 * limbs[2]
        + 0x1_0000_0000_0000_0000_0000_0000_0000_0000_0000_0000_0000_0000 * limbs[3]) as nat
}

/// The number that bytes stand for, the most significant first.
pub open spec fn big_endian_value(bytes: Seq<u8>) -> nat
    decreases bytes.len(),
{
    if bytes.len() == 0 {
        0
    } else {
        big_endian_value(bytes.drop_last()) * 256 + bytes.last() as nat
    }
}

impl View for Word {
    type V = nat;

    open spec fn view(&self) -> nat {
        limbs_value(self.limbs@)
    }
}

/// `u64::try_from` on `U256` of ethereum-types: the number, if it fits 64 bits.
#[verifier::external_body]
fn u256_to_u64(limbs: [u64; 4]) -> (result: Option<u64>)
    ensures
        match result {
            Some(number) => number == limbs_value(limbs@),
            None => limbs_value(limbs@) > u64::MAX,
        },
{
    u64::try_from(ethereum_types::U256(limbs)).ok()
}

/// `U256::as_u64` of ethereum-types: the number.  It panics on a number that does not fit 64 bits.
#[verifier::external_body]
fn u256_as_u64(limbs: [u64; 4]) -> (result: u64)
    requires
        limbs_value(limbs@) <= u64::MAX,
    ensures
        result == limbs_value(limbs@),
{
    ethereum_types::U256(limbs).as_u64()
}

/// `U256::as_usize` of ethereum-types: the number.  It panics on a number that does not fit a
/// `usize`.
#[verifier::external_body]
fn u256_as_usize(limbs: [u64; 4]) -> (result: usize)
    requires
        limbs_value(limbs@) <= usize::MAX,
    ensures
        result == limbs_value(limbs@),
{
    ethereum_types::U256(limbs).as_usize()
}

/// `U256::from_big_endian` of ethereum-types: the number that the bytes stand for, the most
/// significant first.  It panics on more than 32 bytes.
#[verifier::external_body]
fn u256_from_big_endian(bytes: &[u8]) -> (result: [u64; 4])
    requires
        bytes@.len() <= 32,
    ensures
        limbs_value(result@) == big_endian_value(bytes@),
{
    ethereum_types::U256::from_big_endian(bytes).0
}

impl Word {
    /// The number as 64 bits, if it fits.
    pub fn to_u64(&self) -> (result: Option<u64>)
        ensures
            result == if self@ <= u64::MAX {
                Some(self@ as u64)
            } else {
                None
            },
    {
        u256_to_u64(self.limbs)
    }

    /// The number as 64 bits.
    pub fn as_u64(&self) -> (result: u64)
        requires
            self@ <= u64::MAX,
        ensures
            result == self@,
    {
        u256_as_u64(self.limbs)
    }

    /// The number as a `usize`.
    pub fn as_usize(&self) -> (result: usize)
        requires
            self@ <= usize::MAX,
        ensures
            result == self@,
    {
        u256_as_usize(self.limbs)
    }

    /// The number that bytes stand for, the most significant first.
    pub fn from_big_endian(bytes: &[u8]) -> (result: Word)
        requires
            bytes@.len() <= 32,
        ensures
            result@ == big_endian_value(bytes@),
    {
        Word { limbs: u256_from_big_endian(bytes) }
    }

    /// The number 0.
    pub fn zero() -> (result: Word)
        ensures
            result@ == 0,
            result.limbs@ == seq![0u64, 0, 0, 0],
    {
        let result = Word { limbs: [0, 0, 0, 0] };
        assert(result.limbs@ =~= seq![0u64, 0, 0, 0]);
        result
    }
}

impl BlockHash {
    /// Whether every byte is 0.
    pub open spec fn is_zero(self) -> bool {
        forall|i: int| 0 <= i < 32 ==> #[trigger] self.bytes@[i] == 0
    }

    /// The hash whose bytes are all 0.
    pub fn zero() -> (result: BlockHash)
        ensures
            result.is_zero(),
    {
        BlockHash { bytes: [0u8; 32] }
    }
}

/// Limbs are the digits of the number in the base 2^64, the least significant first.
pub proof fn law_limbs_are_digits(limbs: Seq<u64>)
    requires
        limbs.len() == 4,
    ensures
        limbs_value(limbs) == limbs[0] + 0x1_0000_0000_0000_0000 * (limbs[1]
            + 0x1_0000_0000_0000_0000 * (limbs[2] + 0x1_0000_0000_0000_0000 * limbs[3])),
        limbs_value(limbs) <= u64::MAX <==> limbs[1] == 0 && limbs[2] == 0 && limbs[3] == 0,
{
}

/// Bytes are the digits of the number in the base 256: no bytes stand for 0, and one more byte at the
/// end makes the number 256 times as large, and adds its own value.
pub proof fn law_bytes_are_digits(bytes: Seq<u8>, last: u8)
    ensures
        big_endian_value(Seq::<u8>::empty()) == 0,
        big_endian_value(bytes.push(last)) == 256 * big_endian_value(bytes) + last,
{
    assert(bytes.push(last).drop_last() =~= bytes);
}

/// A hash is zero exactly if each of its bytes is.
pub proof fn law_zero_hash(hash: BlockHash)
    ensures
        hash.is_zero() <==> hash.bytes@ =~= Seq::new(32, |i: int| 0u8),
{
    if hash.bytes@ =~= Seq::new(32, |i: int| 0u8) {
        assert forall|i: int| 0 <= i < 32 implies #[trigger] hash.bytes@[i] == 0 by {
            assert(hash.bytes@[i] == Seq::new(32, |i: int| 0u8)[i]);
        }
    }
}

} // verus!
