//! What requests are answered.

use vstd::prelude::*;

use crate::manyprover::{ManyProver, ManyProverBuildError};

verus! {

/// An answer to a request.
#[derive(Debug, PartialEq, Eq)]
pub struct Reply {
    /// The status code.
    pub status: u16,
    pub body: String,
}

/// The status of an answer that all is well.
pub const STATUS_OK: u16 = 200;

/// The status of an answer that the work was begun.
pub const STATUS_ACCEPTED: u16 = 202;

/// The status of an answer that the work cannot be done at all.
pub const STATUS_INTERNAL_SERVER_ERROR: u16 = 500;

/// The answer to a health check: all is well.
pub fn handle_health() -> (result: Reply)
    ensures
        result.status == 200,
        result.body@ == "OK"@,
{
    Reply { status: STATUS_OK, body: "OK".to_string() }
}

/// The answer to a request to prove blocks, given whether a prover could be made for it, and the
/// prover that is to begin.
pub fn handle_post(prover: Result<ManyProver, ManyProverBuildError>) -> (result: (
    Reply,
    Option<ManyProver>,
))
    ensures
        result.0.body@.len() == 0,
        match prover {
            Ok(prover) => result.0.status == 202 && result.1 == Some(prover),
            Err(_) => result.0.status == 500 && result.1 is None,
        },
{
    match prover {
        Ok(prover) => (Reply { status: STATUS_ACCEPTED, body: String::new() }, Some(prover)),
        Err(_) => (Reply { status: STATUS_INTERNAL_SERVER_ERROR, body: String::new() }, None),
    }
}

} // verus!
