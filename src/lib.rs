//! Deterministic round resolution and rollback synchronisation for a
//! two-player duel: who reloads, shields or fires, when choices lock, and how
//! a mispredicted frame is simulated again.

pub mod display;
pub mod input;
pub mod logic;
pub mod network;
pub mod rollback;
pub mod states;
