//! Security events and the gates on configuration.
//!
//! Events are built here and written elsewhere: one JSON object per line,
//! appended to the log file. The gates say which settings the gateway may
//! start with.

use crate::time::Timestamp;
use std::path::PathBuf;
use vstd::prelude::*;
use vstd::string::*;

verus! {

#[derive(Debug, Clone, Copy, PartialEq, Eq, Structural)]
pub enum SecurityEventType {
    CredentialAccess,
    CredentialRotation,
    KeyRotation,
    RateLimitBreach,
    UnauthorizedAccess,
    EncryptionFailure,
    DecryptionFailure,
    TokenGeneration,
    TokenRevocation,
    TokenExpiration,
    TlsHandshake,
    CertificateRotation,
}

#[derive(Debug, Clone, Copy, PartialEq, Eq, Structural)]
pub enum EventSeverity {
    Info,
    Warning,
    Error,
    Critical,
}

/// One entry of the security log.
#[derive(Debug)]
pub struct SecurityEvent {
    pub timestamp: Timestamp,
    pub event_type: SecurityEventType,
    pub severity: EventSeverity,
    pub message: String,
    pub source: String,
    pub details: Option<String>,
}

pub struct SecurityEventView {
    pub timestamp: Timestamp,
    pub event_type: SecurityEventType,
    pub severity: EventSeverity,
    pub message: Seq<char>,
    pub source: Seq<char>,
    pub details: Option<Seq<char>>,
}

impl View for SecurityEvent {
    type V = SecurityEventView;

    open spec fn view(&self) -> SecurityEventView {
        SecurityEventView {
            timestamp: self.timestamp,
            event_type: self.event_type,
            severity: self.severity,
            message: self.message@,
            source: self.source@,
            details: match self.details {
                Some(text) => Some(text@),
                None => None,
            },
        }
    }
}

impl Clone for SecurityEvent {
    fn clone(&self) -> (copy: Self)
        ensures
            copy@ == self@,
    {
        SecurityEvent {
            timestamp: self.timestamp,
            event_type: self.event_type,
            severity: self.severity,
            message: self.message.clone(),
            source: self.source.clone(),
            details: match &self.details {
                Some(text) => Some(text.clone()),
                None => None,
            },
        }
    }
}

impl SecurityEventType {
    /// The name under which the kind of event is written.
    pub open spec fn name_of(self) -> Seq<char> {
        match self {
            SecurityEventType::CredentialAccess => "CredentialAccess"@,
            SecurityEventType::CredentialRotation => "CredentialRotation"@,
            SecurityEventType::KeyRotation => "KeyRotation"@,
            SecurityEventType::RateLimitBreach => "RateLimitBreach"@,
            SecurityEventType::UnauthorizedAccess => "UnauthorizedAccess"@,
            SecurityEventType::EncryptionFailure => "EncryptionFailure"@,
            SecurityEventType::DecryptionFailure => "DecryptionFailure"@,
            SecurityEventType::TokenGeneration => "TokenGeneration"@,
            SecurityEventType::TokenRevocation => "TokenRevocation"@,
            SecurityEventType::TokenExpiration => "TokenExpiration"@,
            SecurityEventType::TlsHandshake => "TlsHandshake"@,
            SecurityEventType::CertificateRotation => "CertificateRotation"@,
        }
    }

    pub fn name(&self) -> (name: &'static str)
        ensures
            name@ == self.name_of(),
    {
        match self {
            SecurityEventType::CredentialAccess => "CredentialAccess",
            SecurityEventType::CredentialRotation => "CredentialRotation",
            SecurityEventType::KeyRotation => "KeyRotation",
            SecurityEventType::RateLimitBreach => "RateLimitBreach",
            SecurityEventType::UnauthorizedAccess => "UnauthorizedAccess",
            SecurityEventType::EncryptionFailure => "EncryptionFailure",
            SecurityEventType::DecryptionFailure => "DecryptionFailure",
            SecurityEventType::TokenGeneration => "TokenGeneration",
            SecurityEventType::TokenRevocation => "TokenRevocation",
            SecurityEventType::TokenExpiration => "TokenExpiration",
            SecurityEventType::TlsHandshake => "TlsHandshake",
            SecurityEventType::CertificateRotation => "CertificateRotation",
        }
    }
}

impl EventSeverity {
    /// The name under which the severity is written.
    pub open spec fn name_of(self) -> Seq<char> {
        match self {
            EventSeverity::Info => "Info"@,
            EventSeverity::Warning => "Warning"@,
            EventSeverity::Error => "Error"@,
            EventSeverity::Critical => "Critical"@,
        }
    }

    pub fn name(&self) -> (name: &'static str)
        ensures
            name@ == self.name_of(),
    {
        match self {
            EventSeverity::Info => "Info",
            EventSeverity::Warning => "Warning",
            EventSeverity::Error => "Error",
            EventSeverity::Critical => "Critical",
        }
    }
}

/// The event for a read of `credential_id` by `user`.
pub open spec fn credential_access(credential_id: Seq<char>, user: Seq<char>, now: Timestamp) -> SecurityEventView {
    SecurityEventView {
        timestamp: now,
        event_type: SecurityEventType::CredentialAccess,
        severity: EventSeverity::Info,
        message: "Credential accessed: "@ + credential_id,
        source: user,
        details: None,
    }
}

/// The event for an access that was refused for `reason`.
pub open spec fn unauthorized_access(reason: Seq<char>, now: Timestamp) -> SecurityEventView {
    SecurityEventView {
        timestamp: now,
        event_type: SecurityEventType::UnauthorizedAccess,
        severity: EventSeverity::Warning,
        message: "Unauthorized access attempt"@,
        source: "security"@,
        details: Some(reason),
    }
}

/// The event for an encryption that failed for `reason`.
pub open spec fn encryption_failure(reason: Seq<char>, now: Timestamp) -> SecurityEventView {
    SecurityEventView {
        timestamp: now,
        event_type: SecurityEventType::EncryptionFailure,
        severity: EventSeverity::Error,
        message: "Encryption operation failed"@,
        source: "crypto"@,
        details: Some(reason),
    }
}

/// The line that the console shows for an event whose instant reads
/// `timestamp_text`.
pub open spec fn console_text(event: SecurityEventView, timestamp_text: Seq<char>) -> Seq<char> {
    "["@ + timestamp_text + "] "@ + event.event_type.name_of() + ": "@ + event.message
}

/// Where the security log is written, and whether events are echoed.
pub struct SecurityLogger {
    log_path: PathBuf,
    enable_console: bool,
}

impl SecurityLogger {
    /// The file to which events are appended.
    pub closed spec fn path(&self) -> PathBuf {
        self.log_path
    }

    /// Whether events are echoed to the console.
    pub closed spec fn echoes(&self) -> bool {
        self.enable_console
    }

    pub fn new(log_path: PathBuf) -> (logger: Self)
        ensures
            logger.path() == log_path,
            !logger.echoes(),
    {
        Self { log_path, enable_console: false }
    }

    pub fn enable_console(&mut self)
        ensures
            final(self).echoes(),
            final(self).path() == old(self).path(),
    {
        self.enable_console = true;
    }

    pub fn log_path(&self) -> (path: &PathBuf)
        ensures
            *path == self.path(),
    {
        &self.log_path
    }

    pub fn console_enabled(&self) -> (enabled: bool)
        ensures
            enabled == self.echoes(),
    {
        self.enable_console
    }

    /// The line to echo for `event`, if events are echoed.
    pub fn console_line(&self, event: &SecurityEvent, timestamp_text: &str) -> (line: Option<String>)
        ensures
            line is Some <==> self.echoes(),
            line matches Some(text) ==> text@ == console_text(event@, timestamp_text@),
    {
        if self.enable_console {
            Some(
                "[".to_string().concat(timestamp_text).concat("] ").concat(
                    event.event_type.name(),
                ).concat(": ").concat(event.message.as_str()),
            )
        } else {
            None
        }
    }

    /// The event to log when `user` reads `credential_id` at `now`.
    pub fn credential_access_event(credential_id: &str, user: &str, now: Timestamp) -> (event:
        SecurityEvent)
        ensures
            event@ == credential_access(credential_id@, user@, now),
    {
        SecurityEvent {
            timestamp: now,
            event_type: SecurityEventType::CredentialAccess,
            severity: EventSeverity::Info,
            message: "Credential accessed: ".to_string().concat(credential_id),
            source: user.to_string(),
            details: None,
        }
    }

    /// The event to log when an access is refused for `reason` at `now`.
    pub fn unauthorized_access_event(reason: &str, now: Timestamp) -> (event: SecurityEvent)
        ensures
            event@ == unauthorized_access(reason@, now),
    {
        SecurityEvent {
            timestamp: now,
            event_type: SecurityEventType::UnauthorizedAccess,
            severity: EventSeverity::Warning,
            message: "Unauthorized access attempt".to_string(),
            source: "security".to_string(),
            details: Some(reason.to_string()),
        }
    }

    /// The event to log when an encryption fails for `reason` at `now`.
    pub fn encryption_failure_event(reason: &str, now: Timestamp) -> (event: SecurityEvent)
        ensures
            event@ == encryption_failure(reason@, now),
    {
        SecurityEvent {
            timestamp: now,
            event_type: SecurityEventType::EncryptionFailure,
            severity: EventSeverity::Error,
            message: "Encryption operation failed".to_string(),
            source: "crypto".to_string(),
            details: Some(reason.to_string()),
        }
    }
}

/// The gates that a configuration must pass before the gateway starts.
pub struct ConfigValidator;

/// Whether `got` is `want`, the error taken by its text.
pub open spec fn gate_is(got: Result<(), String>, want: Result<(), Seq<char>>) -> bool {
    match got {
        Ok(_) => want is Ok,
        Err(message) => want == Err::<(), Seq<char>>(message@),
    }
}

/// Encryption must be on.
pub open spec fn encryption_gate(enabled: bool) -> Result<(), Seq<char>> {
    if enabled {
        Ok(())
    } else {
        Err("Encryption must be enabled for security"@)
    }
}

/// Keys rotate every 30 to 365 days.
pub open spec fn key_rotation_gate(days: u32) -> Result<(), Seq<char>> {
    if days < 30 {
        Err("Key rotation interval must be at least 30 days"@)
    } else if days > 365 {
        Err("Key rotation interval must not exceed 365 days"@)
    } else {
        Ok(())
    }
}

/// The rate limit lies above 0 and at or below 10000.
pub open spec fn rate_limit_gate(limit: u32) -> Result<(), Seq<char>> {
    if limit == 0 {
        Err("Rate limit must be greater than 0"@)
    } else if limit > 10000 {
        Err("Rate limit must not exceed 10000"@)
    } else {
        Ok(())
    }
}

/// TLS must be on.
pub open spec fn tls_gate(enabled: bool) -> Result<(), Seq<char>> {
    if enabled {
        Ok(())
    } else {
        Err("TLS must be enabled for gateway"@)
    }
}

/// Tokens expire after 1 to 720 hours.
pub open spec fn token_expiration_gate(hours: i64) -> Result<(), Seq<char>> {
    if hours < 1 {
        Err("Token expiration must be at least 1 hour"@)
    } else if hours > 720 {
        Err("Token expiration must not exceed 30 days"@)
    } else {
        Ok(())
    }
}

impl ConfigValidator {
    pub fn validate_encryption_enabled(enabled: bool) -> (result: Result<(), String>)
        ensures
            gate_is(result, encryption_gate(enabled)),
            result is Ok <==> enabled,
    {
        if !enabled {
            return Err("Encryption must be enabled for security".to_string());
        }
        Ok(())
    }

    pub fn validate_key_rotation_interval(days: u32) -> (result: Result<(), String>)
        ensures
            gate_is(result, key_rotation_gate(days)),
            result is Ok <==> 30 <= days <= 365,
    {
        if days < 30 {
            return Err("Key rotation interval must be at least 30 days".to_string());
        }
        if days > 365 {
            return Err("Key rotation interval must not exceed 365 days".to_string());
        }
        Ok(())
    }

    pub fn validate_rate_limit(limit: u32) -> (result: Result<(), String>)
        ensures
            gate_is(result, rate_limit_gate(limit)),
            result is Ok <==> 0 < limit <= 10000,
    {
        if limit == 0 {
            return Err("Rate limit must be greater than 0".to_string());
        }
        if limit > 10000 {
            return Err("Rate limit must not exceed 10000".to_string());
        }
        Ok(())
    }

    pub fn validate_tls_enabled(enabled: bool) -> (result: Result<(), String>)
        ensures
            gate_is(result, tls_gate(enabled)),
            result is Ok <==> enabled,
    {
        if !enabled {
            return Err("TLS must be enabled for gateway".to_string());
        }
        Ok(())
    }

    pub fn validate_token_expiration(hours: i64) -> (result: Result<(), String>)
        ensures
            gate_is(result, token_expiration_gate(hours)),
            result is Ok <==> 1 <= hours <= 720,
    {
        if hours < 1 {
            return Err("Token expiration must be at least 1 hour".to_string());
        }
        if hours > 720 {
            return Err("Token expiration must not exceed 30 days".to_string());
        }
        Ok(())
    }
}

} // verus!
