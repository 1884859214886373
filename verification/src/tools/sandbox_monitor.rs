//! A bounded record of what a sandboxed command tried to do.
//!
//! The monitor keeps the latest violations, up to a fixed number; when it
//! is full the oldest one leaves. It records and reports; it enforces
//! nothing.

use crate::text::{contains, is_substring};
use crate::time::Timestamp;
use std::collections::VecDeque;
use vstd::prelude::*;
use vstd::string::*;

verus! {

#[derive(Debug, Clone, Copy, PartialEq, Eq, Structural)]
pub enum SandboxViolationType {
    PrivilegeEscalation,
    SymlinkEscape,
    NetworkAccess,
    FileSystemAccess,
    ProcessAccess,
}

#[derive(Debug)]
pub struct SandboxViolation {
    pub violation_type: SandboxViolationType,
    pub timestamp: Timestamp,
    pub details: String,
}

pub struct SandboxViolationView {
    pub violation_type: SandboxViolationType,
    pub timestamp: Timestamp,
    pub details: Seq<char>,
}

impl View for SandboxViolation {
    type V = SandboxViolationView;

    open spec fn view(&self) -> SandboxViolationView {
        SandboxViolationView {
            violation_type: self.violation_type,
            timestamp: self.timestamp,
            details: self.details@,
        }
    }
}

impl Clone for SandboxViolation {
    fn clone(&self) -> (copy: Self)
        ensures
            copy == *self,
    {
        SandboxViolation {
            violation_type: self.violation_type,
            timestamp: self.timestamp,
            details: self.details.clone(),
        }
    }
}

pub struct SandboxMonitor {
    violations: VecDeque<SandboxViolation>,
    max_violations: usize,
}

pub struct SandboxMonitorView {
    /// The recorded violations, oldest first.
    pub violations: Seq<SandboxViolationView>,
    pub max_violations: usize,
}

/// The views of a sequence of violations.
pub open spec fn violation_views(violations: Seq<SandboxViolation>) -> Seq<SandboxViolationView> {
    violations.map_values(|v: SandboxViolation| v@)
}

/// Whether `command` asks for more privileges: it holds `sudo` or `su `.
pub open spec fn escalates_privileges(command: Seq<char>) -> bool {
    is_substring("sudo"@, command) || is_substring("su "@, command)
}

/// Whether `path` climbs out of its directory: it holds `..`.
pub open spec fn climbs_out(path: Seq<char>) -> bool {
    is_substring(".."@, path)
}

impl SandboxMonitorView {
    /// The monitor after `violation` is recorded: a full monitor loses its
    /// oldest violation first.
    pub open spec fn recorded(self, violation: SandboxViolationView) -> SandboxMonitorView {
        SandboxMonitorView {
            violations: if self.violations.len() >= self.max_violations && self.violations.len()
                > 0 {
                self.violations.drop_first().push(violation)
            } else {
                self.violations.push(violation)
            },
            max_violations: self.max_violations,
        }
    }

    /// The monitor after a command was looked at, at `now`.
    pub open spec fn after_command(self, command: Seq<char>, now: Timestamp) -> SandboxMonitorView {
        if escalates_privileges(command) {
            self.recorded(
                SandboxViolationView {
                    violation_type: SandboxViolationType::PrivilegeEscalation,
                    timestamp: now,
                    details: "Privilege escalation attempt: "@ + command,
                },
            )
        } else {
            self
        }
    }

    /// The monitor after a path was looked at, at `now`.
    pub open spec fn after_path(self, path: Seq<char>, now: Timestamp) -> SandboxMonitorView {
        if climbs_out(path) {
            self.recorded(
                SandboxViolationView {
                    violation_type: SandboxViolationType::SymlinkEscape,
                    timestamp: now,
                    details: "Symlink escape attempt: "@ + path,
                },
            )
        } else {
            self
        }
    }

    /// The monitor holds no more than `max_violations` violations (one,
    /// where `max_violations` is 0: room is made before a violation joins).
    pub open spec fn well_formed(self) -> bool {
        self.violations.len() <= self.max_violations || self.violations.len() <= 1
    }
}

impl View for SandboxMonitor {
    type V = SandboxMonitorView;

    closed spec fn view(&self) -> SandboxMonitorView {
        SandboxMonitorView {
            violations: violation_views(self.violations@),
            max_violations: self.max_violations,
        }
    }
}

/// Recording into a monitor within its bound leaves it within its bound,
/// puts the new violation last, and drops nothing but the oldest one, and
/// that only where the monitor was full.
pub proof fn lemma_record_drops_oldest(monitor: SandboxMonitorView, violation: SandboxViolationView)
    requires
        monitor.well_formed(),
    ensures
        monitor.recorded(violation).well_formed(),
        monitor.recorded(violation).violations.last() == violation,
        monitor.max_violations >= 1 ==> monitor.recorded(violation).violations.len()
            <= monitor.max_violations,
        monitor.violations.len() < monitor.max_violations ==> monitor.recorded(
            violation,
        ).violations.drop_last() == monitor.violations,
        monitor.violations.len() >= monitor.max_violations && monitor.violations.len() > 0
            ==> monitor.recorded(violation).violations.drop_last() == monitor.violations.drop_first(),
{
    let after = monitor.recorded(violation).violations;
    if monitor.violations.len() >= monitor.max_violations && monitor.violations.len() > 0 {
        assert(after.drop_last() =~= monitor.violations.drop_first());
    } else {
        assert(after.drop_last() =~= monitor.violations);
    }
}

impl SandboxMonitor {
    /// The monitor stays within its bound.
    #[verifier::type_invariant]
    closed spec fn bounded(&self) -> bool {
        self@.well_formed()
    }

    pub fn new(max_violations: usize) -> (monitor: Self)
        ensures
            monitor@.violations.len() == 0,
            monitor@.max_violations == max_violations,
            monitor@.well_formed(),
    {
        Self { violations: VecDeque::new(), max_violations }
    }

    /// Records `violation`. A full monitor loses its oldest violation. The
    /// monitor stays within its bound: with a `max_violations` of at least
    /// 1 it never holds more than `max_violations` violations.
    pub fn record_violation(&mut self, violation: SandboxViolation)
        ensures
            final(self)@ == old(self)@.recorded(violation@),
            old(self)@.well_formed(),
            final(self)@.well_formed(),
            final(self)@.max_violations >= 1 ==> final(self)@.violations.len()
                <= final(self)@.max_violations,
    {
        proof {
            use_type_invariant(&*self);
            lemma_record_drops_oldest(self@, violation@);
        }
        let mut kept: VecDeque<SandboxViolation> = VecDeque::new();
        core::mem::swap(&mut self.violations, &mut kept);
        if kept.len() >= self.max_violations {
            let ghost before = violation_views(kept@);
            kept.pop_front();
            proof {
                if before.len() > 0 {
                    assert(violation_views(kept@) =~= before.drop_first());
                } else {
                    assert(violation_views(kept@) =~= before);
                }
            }
        }
        let ghost before = violation_views(kept@);
        kept.push_back(violation);
        assert(violation_views(kept@) =~= before.push(violation@));
        core::mem::swap(&mut self.violations, &mut kept);
    }

    /// Looks at `command` at `now`. Where it asks for more privileges, one
    /// violation is recorded and the answer is true.
    pub fn detect_privilege_escalation_at(&mut self, command: &str, now: Timestamp) -> (found: bool)
        ensures
            found == escalates_privileges(command@),
            final(self)@ == old(self)@.after_command(command@, now),
    {
        if contains(command, "sudo") || contains(command, "su ") {
            self.record_violation(
                SandboxViolation {
                    violation_type: SandboxViolationType::PrivilegeEscalation,
                    timestamp: now,
                    details: "Privilege escalation attempt: ".to_string().concat(command),
                },
            );
            return true;
        }
        false
    }

    /// Looks at `command` at the instant of the system clock.
    pub fn detect_privilege_escalation(&mut self, command: &str) -> (found: bool)
        ensures
            found == escalates_privileges(command@),
            exists|now: Timestamp|
                now.within_clock_range() && final(self)@ == #[trigger] old(self)@.after_command(
                    command@,
                    now,
                ),
    {
        let now = Timestamp::now();
        let found = self.detect_privilege_escalation_at(command, now);
        assert(self@ == old(self)@.after_command(command@, now));
        found
    }

    /// Looks at `path` at `now`. Where it climbs out of its directory, one
    /// violation is recorded and the answer is true.
    pub fn detect_symlink_escape_at(&mut self, path: &str, now: Timestamp) -> (found: bool)
        ensures
            found == climbs_out(path@),
            final(self)@ == old(self)@.after_path(path@, now),
    {
        if contains(path, "..") {
            self.record_violation(
                SandboxViolation {
                    violation_type: SandboxViolationType::SymlinkEscape,
                    timestamp: now,
                    details: "Symlink escape attempt: ".to_string().concat(path),
                },
            );
            return true;
        }
        false
    }

    /// Looks at `path` at the instant of the system clock.
    pub fn detect_symlink_escape(&mut self, path: &str) -> (found: bool)
        ensures
            found == climbs_out(path@),
            exists|now: Timestamp|
                now.within_clock_range() && final(self)@ == #[trigger] old(self)@.after_path(
                    path@,
                    now,
                ),
    {
        let now = Timestamp::now();
        let found = self.detect_symlink_escape_at(path, now);
        assert(self@ == old(self)@.after_path(path@, now));
        found
    }

    /// The recorded violations, oldest first.
    pub fn get_violations(&self) -> (violations: Vec<SandboxViolation>)
        ensures
            violation_views(violations@) == self@.violations,
            self@.well_formed(),
            violations@.len() <= self@.max_violations || violations@.len() <= 1,
    {
        proof {
            use_type_invariant(self);
        }
        let mut copies: Vec<SandboxViolation> = Vec::new();
        let mut i: usize = 0;
        while i < self.violations.len()
            invariant
                i <= self.violations@.len(),
                copies@ == self.violations@.take(i as int),
            decreases self.violations@.len() - i,
        {
            copies.push(self.violations[i].clone());
            i = i + 1;
            assert(copies@ =~= self.violations@.take(i as int));
        }
        assert(copies@ =~= self.violations@);
        copies
    }

    pub fn clear_violations(&mut self)
        ensures
            final(self)@.violations.len() == 0,
            final(self)@.max_violations == old(self)@.max_violations,
            final(self)@.well_formed(),
    {
        let mut kept: VecDeque<SandboxViolation> = VecDeque::new();
        core::mem::swap(&mut self.violations, &mut kept);
    }
}

} // verus!
