use security_core::time::Timestamp;
use security_core::tools::sandbox_monitor::{
    SandboxMonitor, SandboxViolation, SandboxViolationType,
};

#[test]
fn test_sandbox_monitor_creation() {
    let monitor = SandboxMonitor::new(100);
    assert_eq!(monitor.get_violations().len(), 0);
}

#[test]
fn test_privilege_escalation_detection() {
    let mut monitor = SandboxMonitor::new(100);
    assert!(monitor.detect_privilege_escalation("sudo rm -rf /"));
    assert_eq!(monitor.get_violations().len(), 1);
}

#[test]
fn sandbox_monitor_test_symlink_escape_detection() {
    let mut monitor = SandboxMonitor::new(100);
    assert!(monitor.detect_symlink_escape("../../../etc/passwd"));
    assert_eq!(monitor.get_violations().len(), 1);
}

#[test]
fn test_violation_eviction() {
    let mut monitor = SandboxMonitor::new(2);

    for i in 0..3 {
        monitor.record_violation(SandboxViolation {
            violation_type: SandboxViolationType::FileSystemAccess,
            timestamp: Timestamp::now(),
            details: format!("Violation {}", i),
        });
    }

    assert_eq!(monitor.get_violations().len(), 2);
}

#[test]
fn eviction_drops_the_oldest_violation() {
    let mut monitor = SandboxMonitor::new(2);
    for i in 0..4 {
        monitor.record_violation(SandboxViolation {
            violation_type: SandboxViolationType::NetworkAccess,
            timestamp: Timestamp::new(i, 0),
            details: format!("Violation {}", i),
        });
    }
    let kept = monitor.get_violations();
    assert_eq!(kept.len(), 2);
    assert_eq!(kept[0].details, "Violation 2");
    assert_eq!(kept[1].details, "Violation 3");
    assert_eq!(kept[1].timestamp, Timestamp::new(3, 0));
    monitor.clear_violations();
    assert_eq!(monitor.get_violations().len(), 0);
}

#[test]
fn monitor_of_capacity_zero_keeps_the_last_violation() {
    let mut monitor = SandboxMonitor::new(0);
    for i in 0..3 {
        monitor.record_violation(SandboxViolation {
            violation_type: SandboxViolationType::ProcessAccess,
            timestamp: Timestamp::new(i, 0),
            details: format!("Violation {}", i),
        });
    }
    let kept = monitor.get_violations();
    assert_eq!(kept.len(), 1);
    assert_eq!(kept[0].details, "Violation 2");
}

#[test]
fn detection_records_exactly_one_violation() {
    let mut monitor = SandboxMonitor::new(10);
    let t = Timestamp::new(5, 0);
    assert!(monitor.detect_privilege_escalation_at("sudo su -", t));
    assert!(monitor.detect_privilege_escalation_at("su root", t));
    assert!(!monitor.detect_privilege_escalation_at("ls", t));
    assert!(!monitor.detect_privilege_escalation_at("su", t));
    assert!(!monitor.detect_privilege_escalation_at("", t));
    assert!(monitor.detect_privilege_escalation_at("visudo", t));
    assert!(monitor.detect_symlink_escape_at("a/../b", t));
    assert!(!monitor.detect_symlink_escape_at("~/x", t));
    assert!(!monitor.detect_symlink_escape_at("a/./b", t));
    let kept = monitor.get_violations();
    assert_eq!(kept.len(), 4);
    assert_eq!(kept[0].violation_type, SandboxViolationType::PrivilegeEscalation);
    assert_eq!(kept[0].details, "Privilege escalation attempt: sudo su -");
    assert_eq!(kept[0].timestamp, t);
    assert_eq!(kept[1].details, "Privilege escalation attempt: su root");
    assert_eq!(kept[3].violation_type, SandboxViolationType::SymlinkEscape);
    assert_eq!(kept[3].details, "Symlink escape attempt: a/../b");
}
