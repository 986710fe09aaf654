//! Where finished proofs are put.

use vstd::prelude::*;

use crate::text::decimal;

verus! {

/// How proofs are put out.
#[derive(Debug, PartialEq, Eq)]
pub enum ProofOutputMethod {
    /// One file per proof in a local directory.
    LocalDirectory {
        /// What each file's name starts with.
        prefix: String,
    },
}

impl ProofOutputMethod {
    /// The name of the file that the proof of a block goes to: the prefix, an underscore and the
    /// block number.
    pub open spec fn named(self, block_number: u64) -> Seq<char> {
        match self {
            ProofOutputMethod::LocalDirectory { prefix } => prefix@ + "_"@ + crate::text::digits(
                block_number as nat,
                10,
            ),
        }
    }

    /// The name of the file that the proof of a block goes to.
    pub fn file_name(&self, block_number: u64) -> (result: String)
        ensures
            result@ == self.named(block_number),
    {
        match self {
            ProofOutputMethod::LocalDirectory { prefix } => prefix.clone().concat("_").concat(
                decimal(block_number).as_str(),
            ),
        }
    }
}

/// The proofs of different blocks go to different files.
pub proof fn law_blocks_have_their_own_files(method: ProofOutputMethod, first: u64, second: u64)
    requires
        first != second,
    ensures
        method.named(first) != method.named(second),
{
    match method {
        ProofOutputMethod::LocalDirectory { prefix } => {
            let start = prefix@ + "_"@;
            crate::text::law_digits_read_back(first as nat, 10);
            crate::text::law_digits_read_back(second as nat, 10);
            assert(method.named(first).skip(start.len() as int) =~= crate::text::digits(
                first as nat,
                10,
            ));
            assert(method.named(second).skip(start.len() as int) =~= crate::text::digits(
                second as nat,
                10,
            ));
        },
    }
}

impl Clone for ProofOutputMethod {
    fn clone(&self) -> (result: Self)
        ensures
            result == *self,
    {
        match self {
            ProofOutputMethod::LocalDirectory { prefix } => ProofOutputMethod::LocalDirectory {
                prefix: prefix.clone(),
            },
        }
    }
}

/// The means of putting out proofs, once it is ready.
#[derive(Debug, PartialEq, Eq)]
pub struct ProofOutput {
    pub method: ProofOutputMethod,
}

/// Why the means of putting out proofs could not be made ready.
#[derive(Debug, PartialEq, Eq)]
pub struct ProofOutputBuildError {
    pub message: String,
}

/// Why a proof could not be put out.
#[derive(Debug, PartialEq, Eq)]
pub struct ProofOutputError {
    pub message: String,
}

/// The name of a file is the prefix, an underscore and the block number in decimal.
pub proof fn law_file_name_tells_prefix_and_block(method: ProofOutputMethod, block_number: u64)
    ensures
        ({
            let ProofOutputMethod::LocalDirectory { prefix } = method;
            let name = method.named(block_number);
            let cut = prefix@.len() as int;
            &&& name.len() > cut + 1
            &&& name.take(cut) == prefix@
            &&& name[cut] == '_'
            &&& crate::text::is_written_out(name.skip(cut + 1), 10)
            &&& crate::text::number_of(name.skip(cut + 1), 10) == block_number
        }),
{
    reveal_strlit("_");
    let ProofOutputMethod::LocalDirectory { prefix } = method;
    let name = method.named(block_number);
    let cut = prefix@.len() as int;
    crate::text::law_digits_read_back(block_number as nat, 10);
    crate::text::law_numbers_are_written_out(block_number as nat, 10);
    assert(name.take(cut) =~= prefix@);
    assert(name.skip(cut + 1) =~= crate::text::digits(block_number as nat, 10));
}

} // verus!
