//! Proximity peer discovery: a uniform contract for transport backends and
//! the engine that merges their sightings into one view of nearby peers.

pub mod attribution;
pub mod backend;
pub mod ble;
pub mod config;
pub mod counting;
pub mod discovery;
pub mod error;
pub mod guarantees;
pub mod history;
pub mod hub;
pub mod identity;
pub mod isolation;
pub mod lifecycle;
pub mod merge;
pub mod orchestrator;
pub mod protocol;
pub mod search;
pub mod table;
pub mod wellformed;
