//! Verified core of the GraphSync desktop synchronization client.
use vstd::prelude::*;

pub mod api;
pub mod config;
pub mod conflict;
pub mod device;
pub mod engine;
pub mod events;
pub mod filesystem;
pub mod hashing;
pub mod paths;
pub mod peer;
pub mod signaling;
pub mod state;
pub mod text;
pub mod tray;

verus! {
} // verus!
