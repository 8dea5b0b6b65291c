//! Signals of the execution layer: what the agent's tool calls show.

pub mod failure;
pub mod incremental;
pub mod loop_laws;
pub mod loops;
pub mod oscillation;
