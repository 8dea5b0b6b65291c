//! What is counted about requests.

pub mod labels;
