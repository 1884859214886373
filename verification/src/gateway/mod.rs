//! What the gateway needs for TLS and for sessions.

pub mod certificate_manager;
pub mod session_token;
pub mod tls_config;
