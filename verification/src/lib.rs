//! Verified core of the Ludex game library: title identity, launcher
//! manifest parsing, path matching for process tracking, session arithmetic
//! and the decision rules of synchronisation and the store.
use vstd::prelude::*;

pub mod emulation;
pub mod identity;
pub mod launch;
pub mod metadata;
pub mod models;
pub mod paths;
pub mod process_monitor;
pub mod product;
pub mod product_models;
pub mod host;
pub mod providers;
pub mod secrets;
pub mod sessions;
pub mod steam_account;
pub mod steam_data;
pub mod store;
pub mod updater;
pub mod vdf;
pub mod text;

verus! {

} // verus!
