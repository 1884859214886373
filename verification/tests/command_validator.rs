use security_core::tools::command_validator::CommandValidator;

#[test]
fn test_blacklist_detection() {
    let validator = CommandValidator::new();
    let result = validator.validate("rm -rf /");
    assert!(!result.is_valid);
}

#[test]
fn test_injection_detection() {
    let validator = CommandValidator::new();
    let result = validator.validate("ls; cat /etc/passwd");
    assert!(result.requires_judgment);
}

#[test]
fn test_safe_command() {
    let validator = CommandValidator::new();
    let result = validator.validate("ls -la");
    assert!(result.is_valid);
    assert!(!result.requires_judgment);
}

#[test]
fn command_validator_test_symlink_escape_detection() {
    let validator = CommandValidator::new();
    assert!(validator.detect_symlink_escape("../../../etc/passwd"));
    assert!(!validator.detect_symlink_escape("/home/user/file"));
}

#[test]
fn test_whitelist_enforcement() {
    let mut validator = CommandValidator::new();
    validator.add_whitelist("git".to_string());

    let result = validator.validate("npm install");
    assert!(result.requires_judgment);
}

#[test]
fn command_validator_classification() {
    let validator = CommandValidator::new();

    let denied = validator.validate("rm -rf /");
    assert!(!denied.is_valid);
    assert!(!denied.requires_judgment);
    assert_eq!(denied.reason, Some("Command 'rm' is blacklisted".to_string()));

    let injected = validator.validate("ls; cat /etc/passwd");
    assert!(injected.is_valid);
    assert!(injected.requires_judgment);
    assert_eq!(injected.reason, None);

    let safe = validator.validate("ls -la");
    assert!(safe.is_valid);
    assert!(!safe.requires_judgment);
    assert_eq!(safe.reason, None);
}

#[test]
fn every_denied_head_is_invalid() {
    let validator = CommandValidator::new();
    for head in ["rm", "dd", "mkfs", "fdisk", "shutdown", "reboot"] {
        for rest in ["", " -x", " ; echo hi", "\t/dev/sda"] {
            let command = format!("  {}{}", head, rest);
            let result = validator.validate(&command);
            assert!(!result.is_valid);
            assert!(!result.requires_judgment);
            assert_eq!(result.reason, Some(format!("Command '{}' is blacklisted", head)));
        }
    }
    // only the first word counts, and only as a whole
    assert!(validator.validate("rmdir x").is_valid);
    assert!(validator.validate("echo rm").is_valid);
    assert!(validator.validate("/bin/rm x").is_valid);
}

#[test]
fn every_injection_pattern_asks_for_judgment() {
    let validator = CommandValidator::new();
    let suspicious = [
        "ls; id",
        "a && b",
        "a | b",
        "echo `id`",
        "echo $HOME",
        "echo (x",
        "echo x)",
        "echo hi > /dev/null",
        "echo hi >/dev/sda",
        "echo hi >   /dev/sda",
        "diff <(a) b",
        "cat < (x",
    ];
    for command in suspicious {
        let result = validator.validate(command);
        assert!(result.is_valid);
        assert!(result.requires_judgment);
    }
    let harmless = ["ls -la", "echo hi > out.txt", "cat < in.txt", "echo /dev/null", ""];
    for command in harmless {
        let result = validator.validate(command);
        assert!(result.is_valid);
        assert!(!result.requires_judgment);
    }
}

#[test]
fn allow_list_only_counts_when_not_empty() {
    let mut validator = CommandValidator::new();
    assert!(!validator.validate("npm install").requires_judgment);
    validator.add_whitelist("git".to_string());
    validator.add_whitelist("git".to_string());
    assert!(validator.validate("npm install").requires_judgment);
    assert!(!validator.validate("git status").requires_judgment);
    assert!(validator.validate("git status; id").requires_judgment);
    // the deny-list comes first
    validator.add_whitelist("rm".to_string());
    assert!(!validator.validate("rm x").is_valid);
    // an empty command has the empty first word
    assert!(validator.validate("").requires_judgment);
}

#[test]
fn classify_takes_the_answer_of_the_patterns() {
    let validator = CommandValidator::new();
    let r = validator.classify("ls", true);
    assert!(r.is_valid && r.requires_judgment);
    let r = validator.classify("ls", false);
    assert!(r.is_valid && !r.requires_judgment);
    let r = validator.classify("dd", true);
    assert!(!r.is_valid && !r.requires_judgment);
    assert_eq!(r.reason, Some("Command 'dd' is blacklisted".to_string()));
}

#[test]
fn symlink_escape_looks_for_dots_and_tilde() {
    let validator = CommandValidator::new();
    assert!(validator.detect_symlink_escape("~/secrets"));
    assert!(validator.detect_symlink_escape("a/..b"));
    assert!(validator.detect_symlink_escape(".."));
    assert!(!validator.detect_symlink_escape("a/./b"));
    assert!(!validator.detect_symlink_escape(""));
    assert!(!validator.detect_symlink_escape("."));
}
