//! Proving and verifying the results of queries over committed tables.
//!
//! A query proof binds a public query result to commitments through a
//! Fiat-Shamir transcript, a sumcheck reduction and an inner-product opening.
use vstd::prelude::*;

pub mod commitment;
pub mod evaluation;
pub mod field;
pub mod query_proof;
pub mod result;
pub mod transcript;

verus! {

} // verus!
