//! A deterministic ledger kernel: a claim registry, a registry of breedable
//! kitties with a deposit-backed marketplace, and the balance ledger beneath
//! them. Calls are applied one at a time to a state that the caller owns;
//! each either goes through and reports its events, or is rejected and
//! leaves the state as it was.
//!
//! Beside the kernel stand a fungible token, a store for a single number
//! with its off-chain index, and a few small utilities.

pub mod area;
pub mod bounded;
pub mod erc20;
pub mod kernel;
pub mod kitties;
pub mod ledger;
pub mod poe;
pub mod randomness;
pub mod sum;
pub mod system;
pub mod table;
pub mod template;
pub mod traffic_light;
