//! Choosing the model that serves a request.

pub mod cache_regret;
pub mod headers;
pub mod llm;
pub mod model_capabilities;
pub mod model_metrics;
pub mod orchestrator;
pub mod orchestrator_model;
pub mod policy_provider;
pub mod preferences;
pub mod ranking_laws;
pub mod routing_laws;
pub mod session_cache;
