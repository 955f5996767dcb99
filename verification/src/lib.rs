//! The administrative core of a Soroban purchase-manager contract: admin
//! roles and their hand-over, the platform configuration, payment assets,
//! creator fee tiers, and cursor-based maintenance that keeps every one of
//! those ledger entries alive; plus the stand-in registry and token used when
//! testing the contract.
use vstd::prelude::*;

pub mod storage;
pub mod ttl;
pub mod error;
pub mod index;
pub mod auth;
pub mod assets;
pub mod tiers;
pub mod config;
pub mod material;
pub mod registry;
pub mod asset;

verus! {

} // verus!
