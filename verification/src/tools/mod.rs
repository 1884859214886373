//! Mediation of external commands: validation, classifier verdicts, audit.

pub mod command_audit;
pub mod command_validator;
pub mod llm_judge;
pub mod sandbox_monitor;
