//! Decisions on the path of a chat request to a model.

pub mod model_selection;
pub mod prompt_caching;
pub mod session_laws;
pub mod session_router;
pub mod session_stickiness;
pub mod stickiness_laws;
