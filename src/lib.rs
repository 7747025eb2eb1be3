//! A cooperative task executor reduced to its decisions: the scheduling
//! state of one task, the run queue of a worker pool, and the blocking
//! bridge. Each operation is a verified transition from a state and an
//! event to the next state and the action the caller must perform.

pub mod cell;
pub mod executor;
pub mod laws;
pub mod bridge;
