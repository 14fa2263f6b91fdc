//! The TCP server's wire protocol, configuration and per-client session logic.

pub mod config;
pub mod protocol;
pub mod session;
