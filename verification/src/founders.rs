//! The treasury: a bucket that collects value and is shared out among the
//! founders once per cycle.

pub mod laws;
pub mod pallet;
pub mod payout;

pub use pallet::{Error, Event, GenesisConfig, Pallet, State};
