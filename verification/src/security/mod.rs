//! Secrets at rest and who may reach them.

pub mod access_control;
pub mod credential_vault;
pub mod key_rotation;
pub mod security_logging;
