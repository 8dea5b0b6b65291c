//! Bridge that exposes a local command-line assistant as an Anthropic
//! Messages API endpoint on a localhost port.
//!
//! - `process` — how the child process is started, and how a turn of it ends.
//! - `session` — keys long-lived processes by session id (header or hash) and
//!   enforces idle time to live and cap.
//! - `server` — which requests are served, and the event stream of a turn.

pub mod process;
pub mod server;
pub mod session;

pub use process::{ClaudeCliConfig, ProcessError};
pub use session::{SessionManager, SessionManagerConfig};
