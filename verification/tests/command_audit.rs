use security_core::time::Timestamp;
use security_core::tools::command_audit::{CommandAuditEntry, CommandAuditLog};
use std::path::PathBuf;

#[test]
fn test_audit_log_creation() {
    let log_path = PathBuf::from("/tmp/security_core_logs").join("audit.log");
    let log = CommandAuditLog::new(log_path);

    assert_eq!(log.get_entries().len(), 0);
}

#[test]
fn test_log_command_entry() {
    let log_path = PathBuf::from("/tmp/security_core_logs").join("audit.log");
    let mut log = CommandAuditLog::new(log_path);

    let entry = CommandAuditEntry {
        timestamp: Timestamp::now(),
        command: "ls -la".to_string(),
        user: "user1".to_string(),
        exit_code: Some(0),
        output_truncated: false,
        sandbox_used: true,
    };

    assert!(log.log_command(entry, Ok(())).is_ok());
    assert_eq!(log.get_entries().len(), 1);
}

#[test]
fn test_get_entries_for_user() {
    let log_path = PathBuf::from("/tmp/security_core_logs").join("audit.log");
    let mut log = CommandAuditLog::new(log_path);

    for i in 0..3 {
        let entry = CommandAuditEntry {
            timestamp: Timestamp::now(),
            command: format!("cmd{}", i),
            user: if i == 0 { "user1".to_string() } else { "user2".to_string() },
            exit_code: Some(0),
            output_truncated: false,
            sandbox_used: true,
        };
        let _ = log.log_command(entry, Ok(()));
    }

    let user1_entries = log.get_entries_for_user("user1");
    assert_eq!(user1_entries.len(), 1);
}

fn entry(command: &str, user: &str) -> CommandAuditEntry {
    CommandAuditEntry {
        timestamp: Timestamp::new(3, 0),
        command: command.to_string(),
        user: user.to_string(),
        exit_code: None,
        output_truncated: true,
        sandbox_used: false,
    }
}

#[test]
fn an_entry_that_was_not_written_is_not_kept() {
    let path = PathBuf::from("/tmp/audit.log");
    let mut log = CommandAuditLog::new(path.clone());
    assert_eq!(log.log_path(), &path);
    assert_eq!(
        log.log_command(entry("ls", "u"), Err("Failed to open log file: denied".to_string())),
        Err("Failed to open log file: denied".to_string())
    );
    assert_eq!(log.get_entries().len(), 0);
    assert_eq!(log.log_command(entry("ls", "u"), Ok(())), Ok(()));
    assert_eq!(log.get_entries().len(), 1);
    assert_eq!(log.get_entries()[0].command, "ls");
    log.clear();
    assert_eq!(log.get_entries().len(), 0);
}

#[test]
fn entries_of_a_user_keep_their_order() {
    let mut log = CommandAuditLog::new(PathBuf::from("/tmp/audit.log"));
    for (command, user) in [("a", "alice"), ("b", "bob"), ("c", "alice"), ("d", "carol"), ("e", "alice")] {
        log.log_command(entry(command, user), Ok(())).unwrap();
    }
    let found = log.get_entries_for_user("alice");
    let commands: Vec<&str> = found.iter().map(|e| e.command.as_str()).collect();
    assert_eq!(commands, vec!["a", "c", "e"]);
    assert!(found.iter().all(|e| e.output_truncated && !e.sandbox_used && e.exit_code.is_none()));
    assert_eq!(log.get_entries_for_user("bob").len(), 1);
    assert_eq!(log.get_entries_for_user("dave").len(), 0);
    assert_eq!(log.get_entries_for_user("ali").len(), 0);
    assert_eq!(log.get_entries().len(), 5);
}
