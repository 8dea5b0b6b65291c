//! What is decided between a request and its dispatch.

pub mod agent_chat_completions;
pub mod auth_check;
pub mod claude_cli;
pub mod llm;
pub mod management;
pub mod management_laws;
pub mod policy_provider;
pub mod request;
pub mod router_chat;
pub mod usage_record;
