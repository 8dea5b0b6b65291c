//! What is spent, and what may be.

pub mod budget_checker;
pub mod counters;
pub mod flusher;
pub mod price_calculator;
pub mod spending_laws;
