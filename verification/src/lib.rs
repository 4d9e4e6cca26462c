//! A transactional game-state engine for a location-based scavenger hunt.
//!
//! Organizers create games and register ordered checkpoints ("tags");
//! players join and claim checkpoints in a strictly enforced sequence.
//! All entities live in an in-memory [`store::Store`]; every operation
//! validates its inputs, performs a bounded set of writes, and preserves
//! the store's uniqueness and cascading-consistency invariants.

pub mod claims;
pub mod codes;
pub mod entities;
pub mod laws;
pub mod lifecycle;
pub mod players;
pub mod registry;
pub mod seq_util;
pub mod store;
