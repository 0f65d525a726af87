//! Escrow agreements: a contractor funds an agreement, the hired party
//! signs it and puts it in review, the contractor accepts.

pub mod hashing;
pub mod index;
pub mod laws;
pub mod pallet;
pub mod record;
pub mod store;

pub use hashing::agreement_id;
pub use index::AgreementIndex;
pub use pallet::{Pallet, State};
pub use record::{Agreement, AgreementStatus, DispatchError, Error, Event, Transition};
pub use store::AgreementStore;
