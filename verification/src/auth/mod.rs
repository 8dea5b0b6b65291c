//! Who asks, and with which key they are served.

pub mod access_laws;
pub mod pipe_selector;
pub mod token_resolver;
