//! Tiered, expirable and optionally soulbound membership tokens on Stellar,
//! kept as a verified state machine over the contract's storage.
//!
//! `NftMembershipContract` holds the storage; each of its calls either
//! refuses with a `ContractError` and changes nothing, or applies its change
//! and returns the `Effect` the host must carry out (check one address's
//! authorization, publish one event). `ContractState` is the storage as
//! the contracts see it, and `laws` proves what every call keeps.

pub mod address;
pub mod contract;
pub mod index;
pub mod laws;
pub mod state;
pub mod types;

pub use address::Address;
pub use contract::NftMembershipContract;
pub use state::{Call, ContractState};
pub use types::{ContractError, Effect, Event, MembershipTier, MembershipToken, Refusal};
