use security_core::security::security_logging::{
    ConfigValidator, EventSeverity, SecurityEvent, SecurityEventType, SecurityLogger,
};
use security_core::time::Timestamp;
use std::path::PathBuf;

#[test]
fn test_security_event_creation() {
    let event = SecurityEvent {
        timestamp: Timestamp::now(),
        event_type: SecurityEventType::CredentialAccess,
        severity: EventSeverity::Info,
        message: "Test event".to_string(),
        source: "test".to_string(),
        details: None,
    };

    assert_eq!(event.event_type, SecurityEventType::CredentialAccess);
    assert_eq!(event.severity, EventSeverity::Info);
}

#[test]
fn test_security_logger_creation() {
    let log_path = PathBuf::from("/tmp/security_core_logs").join("security.log");

    let logger = SecurityLogger::new(log_path.clone());
    assert_eq!(logger.log_path(), &log_path);
}

#[test]
fn test_config_validator_encryption() {
    assert!(ConfigValidator::validate_encryption_enabled(true).is_ok());
    assert!(ConfigValidator::validate_encryption_enabled(false).is_err());
}

#[test]
fn test_config_validator_key_rotation() {
    assert!(ConfigValidator::validate_key_rotation_interval(90).is_ok());
    assert!(ConfigValidator::validate_key_rotation_interval(20).is_err());
    assert!(ConfigValidator::validate_key_rotation_interval(400).is_err());
}

#[test]
fn test_config_validator_rate_limit() {
    assert!(ConfigValidator::validate_rate_limit(100).is_ok());
    assert!(ConfigValidator::validate_rate_limit(0).is_err());
    assert!(ConfigValidator::validate_rate_limit(20000).is_err());
}

#[test]
fn test_config_validator_tls() {
    assert!(ConfigValidator::validate_tls_enabled(true).is_ok());
    assert!(ConfigValidator::validate_tls_enabled(false).is_err());
}

#[test]
fn test_config_validator_token_expiration() {
    assert!(ConfigValidator::validate_token_expiration(24).is_ok());
    assert!(ConfigValidator::validate_token_expiration(0).is_err());
    assert!(ConfigValidator::validate_token_expiration(1000).is_err());
}

#[test]
fn config_gates_at_their_bounds() {
    assert_eq!(ConfigValidator::validate_key_rotation_interval(30), Ok(()));
    assert_eq!(ConfigValidator::validate_key_rotation_interval(365), Ok(()));
    assert_eq!(
        ConfigValidator::validate_key_rotation_interval(29),
        Err("Key rotation interval must be at least 30 days".to_string())
    );
    assert_eq!(
        ConfigValidator::validate_key_rotation_interval(366),
        Err("Key rotation interval must not exceed 365 days".to_string())
    );
    assert_eq!(ConfigValidator::validate_rate_limit(1), Ok(()));
    assert_eq!(ConfigValidator::validate_rate_limit(10000), Ok(()));
    assert_eq!(
        ConfigValidator::validate_rate_limit(0),
        Err("Rate limit must be greater than 0".to_string())
    );
    assert_eq!(
        ConfigValidator::validate_rate_limit(10001),
        Err("Rate limit must not exceed 10000".to_string())
    );
    assert_eq!(ConfigValidator::validate_token_expiration(1), Ok(()));
    assert_eq!(ConfigValidator::validate_token_expiration(720), Ok(()));
    assert_eq!(
        ConfigValidator::validate_token_expiration(-5),
        Err("Token expiration must be at least 1 hour".to_string())
    );
    assert_eq!(
        ConfigValidator::validate_token_expiration(721),
        Err("Token expiration must not exceed 30 days".to_string())
    );
    assert_eq!(
        ConfigValidator::validate_encryption_enabled(false),
        Err("Encryption must be enabled for security".to_string())
    );
    assert_eq!(
        ConfigValidator::validate_tls_enabled(false),
        Err("TLS must be enabled for gateway".to_string())
    );
}

#[test]
fn event_builders_fill_every_field() {
    let now = Timestamp::new(1_700_000_000, 5);
    let e = SecurityLogger::credential_access_event("db_password", "alice", now);
    assert_eq!(e.timestamp, now);
    assert_eq!(e.event_type, SecurityEventType::CredentialAccess);
    assert_eq!(e.severity, EventSeverity::Info);
    assert_eq!(e.message, "Credential accessed: db_password");
    assert_eq!(e.source, "alice");
    assert_eq!(e.details, None);

    let e = SecurityLogger::unauthorized_access_event("bad tool", now);
    assert_eq!(e.event_type, SecurityEventType::UnauthorizedAccess);
    assert_eq!(e.severity, EventSeverity::Warning);
    assert_eq!(e.message, "Unauthorized access attempt");
    assert_eq!(e.source, "security");
    assert_eq!(e.details, Some("bad tool".to_string()));

    let e = SecurityLogger::encryption_failure_event("too long", now);
    assert_eq!(e.event_type, SecurityEventType::EncryptionFailure);
    assert_eq!(e.severity, EventSeverity::Error);
    assert_eq!(e.message, "Encryption operation failed");
    assert_eq!(e.source, "crypto");
    assert_eq!(e.details, Some("too long".to_string()));
}

#[test]
fn console_line_names_the_kind_of_event() {
    let now = Timestamp::new(1_700_000_000, 0);
    let event = SecurityLogger::unauthorized_access_event("bad tool", now);
    let mut logger = SecurityLogger::new(PathBuf::from("/tmp/security.log"));
    assert!(!logger.console_enabled());
    assert_eq!(logger.console_line(&event, "2023-11-14 22:13:20 UTC"), None);
    logger.enable_console();
    assert!(logger.console_enabled());
    assert_eq!(
        logger.console_line(&event, "2023-11-14 22:13:20 UTC"),
        Some("[2023-11-14 22:13:20 UTC] UnauthorizedAccess: Unauthorized access attempt".to_string())
    );
}

#[test]
fn event_kinds_and_severities_have_their_names() {
    assert_eq!(SecurityEventType::KeyRotation.name(), "KeyRotation");
    assert_eq!(SecurityEventType::RateLimitBreach.name(), "RateLimitBreach");
    assert_eq!(SecurityEventType::DecryptionFailure.name(), "DecryptionFailure");
    assert_eq!(SecurityEventType::TlsHandshake.name(), "TlsHandshake");
    assert_eq!(SecurityEventType::CertificateRotation.name(), "CertificateRotation");
    assert_eq!(EventSeverity::Info.name(), "Info");
    assert_eq!(EventSeverity::Warning.name(), "Warning");
    assert_eq!(EventSeverity::Error.name(), "Error");
    assert_eq!(EventSeverity::Critical.name(), "Critical");
}
