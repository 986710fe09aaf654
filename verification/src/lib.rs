//! The decision logic of a coordinator that proves many blocks.
//!
//! Everything that waits, sleeps, reads or sends stays outside; this crate is told what happened
//! and answers with what to do next.

pub mod benchmarking;
pub mod crew;
pub mod crew_laws;
pub mod fetch;
pub mod gascalc;
pub mod input;
pub mod manyprover;
pub mod parallel;
pub mod parallel_course;
pub mod parallel_laws;
pub mod proofout;
pub mod prover;
pub mod rpc;
pub mod sequential;
pub mod sequential_course;
pub mod sequential_laws;
pub mod server;
pub mod settings;
pub mod task;
pub mod text;
pub mod time;
pub mod witness;
pub mod words;
