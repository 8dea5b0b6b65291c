//! Signals of the environment layer: what stands in the agent's way.

pub mod exhaustion;
