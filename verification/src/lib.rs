//! Escrow agreements between two parties and a treasury that shares out
//! what it collected, both over an in-memory balance ledger.

pub mod agreements;
mod assoc;
pub mod currency;
pub mod founders;
pub mod primitives;
