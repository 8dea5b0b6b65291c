//! Grading of agent conversations by the signals they carry.

pub mod analyzer;
pub mod detection_laws;
pub mod environment;
pub mod equivalence;
pub mod event;
pub mod evidence_laws;
pub mod execution;
pub mod interaction;
pub mod patterns;
pub mod quality;
pub mod quality_laws;
pub mod report_laws;
pub mod schemas;
pub mod similarity_laws;
pub mod text_processing;
