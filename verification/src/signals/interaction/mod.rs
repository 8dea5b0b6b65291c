//! Signals of the interaction layer: what the messages themselves show.

pub mod constants;
pub mod disengagement;
pub mod messages;
pub mod misalignment;
pub mod satisfaction;
pub mod stagnation;
