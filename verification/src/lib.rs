//! The decisions of a prover of blocks.
//!
//! A block is executed by a guest program, and a proof is made that the guest accepted it. This
//! library holds what has to be decided on the way: which blocks are fetched and in which order,
//! what becomes of each of them, what the guest reads, how the layers of a prover are built, in which
//! form proofs leave the program, what the proof collector is told, and what is done when it cannot
//! be reached.
//!
//! Work that goes on outside (the network, files, the guest machine, the prover) is carried out by
//! the program around the library. Where such work and decisions alternate, the library offers a
//! machine: the program carries out the action that the machine asks for, and reports the event that
//! came of it.

use vstd::prelude::*;

pub mod clock;
pub mod commands;
pub mod envelope;
pub mod ethproofs;
pub mod execution;
pub mod fetcher;
pub mod inputs;
pub mod json;
pub mod oracle;
pub mod path;
pub mod retry;
pub mod run;
pub mod security;
pub mod service;
pub mod setup;
pub mod test_service;
pub mod text;
pub mod worker;

verus! {

} // verus!
