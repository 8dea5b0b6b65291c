pub mod affinity;
pub mod assoc;
pub mod auth;
pub mod billing;
pub mod chat;
pub mod dispatch;
pub mod encoding;
pub mod expiring_map;
pub mod handlers;
pub mod json;
pub mod metrics;
pub mod natural;
pub mod pricing;
pub mod registry;
pub mod router;
pub mod session_cache;
pub mod signals;
pub mod skills;
pub mod text;
