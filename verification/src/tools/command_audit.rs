//! The audit trail of executed commands.
//!
//! Each command is written as one line to the audit file and, once that
//! has succeeded, kept in memory. Writing the line is not done here: the
//! log is told how it went.

use crate::text::str_eq;
use std::path::PathBuf;
use vstd::prelude::*;
use vstd::string::*;

verus! {

#[derive(Debug)]
pub struct CommandAuditEntry {
    pub timestamp: crate::time::Timestamp,
    pub command: String,
    pub user: String,
    pub exit_code: Option<i32>,
    pub output_truncated: bool,
    pub sandbox_used: bool,
}

pub struct CommandAuditEntryView {
    pub timestamp: crate::time::Timestamp,
    pub command: Seq<char>,
    pub user: Seq<char>,
    pub exit_code: Option<i32>,
    pub output_truncated: bool,
    pub sandbox_used: bool,
}

impl View for CommandAuditEntry {
    type V = CommandAuditEntryView;

    open spec fn view(&self) -> CommandAuditEntryView {
        CommandAuditEntryView {
            timestamp: self.timestamp,
            command: self.command@,
            user: self.user@,
            exit_code: self.exit_code,
            output_truncated: self.output_truncated,
            sandbox_used: self.sandbox_used,
        }
    }
}

impl Clone for CommandAuditEntry {
    fn clone(&self) -> (copy: Self)
        ensures
            copy == *self,
    {
        CommandAuditEntry {
            timestamp: self.timestamp,
            command: self.command.clone(),
            user: self.user.clone(),
            exit_code: self.exit_code,
            output_truncated: self.output_truncated,
            sandbox_used: self.sandbox_used,
        }
    }
}

pub struct CommandAuditLog {
    log_path: PathBuf,
    entries: Vec<CommandAuditEntry>,
}

/// The views of a sequence of entries.
pub open spec fn entry_views(entries: Seq<CommandAuditEntry>) -> Seq<CommandAuditEntryView> {
    entries.map_values(|e: CommandAuditEntry| e@)
}

/// The entries of `user` among `entries`, in their order.
pub open spec fn entries_of(entries: Seq<CommandAuditEntryView>, user: Seq<char>) -> Seq<
    CommandAuditEntryView,
>
    decreases entries.len(),
{
    if entries.len() == 0 {
        entries
    } else if entries.last().user == user {
        entries_of(entries.drop_last(), user).push(entries.last())
    } else {
        entries_of(entries.drop_last(), user)
    }
}

/// Every entry of `entries_of` is an entry of `user`, and there are no more
/// of them than entries at all.
pub proof fn lemma_entries_of(entries: Seq<CommandAuditEntryView>, user: Seq<char>)
    ensures
        entries_of(entries, user).len() <= entries.len(),
        forall|i: int|
            0 <= i < entries_of(entries, user).len() ==> (#[trigger] entries_of(entries, user)[i]).user
                == user && entries.contains(entries_of(entries, user)[i]),
        forall|i: int|
            0 <= i < entries.len() && (#[trigger] entries[i]).user == user ==> entries_of(
                entries,
                user,
            ).contains(entries[i]),
    decreases entries.len(),
{
    if entries.len() > 0 {
        let front = entries.drop_last();
        lemma_entries_of(front, user);
        let found = entries_of(entries, user);
        let before = entries_of(front, user);
        assert forall|i: int| 0 <= i < found.len() implies (#[trigger] found[i]).user == user
            && entries.contains(found[i]) by {
            if i < before.len() {
                assert(found[i] == before[i]);
                let k = choose|k: int| 0 <= k < front.len() && front[k] == before[i];
                assert(entries[k] == found[i]);
            } else {
                assert(found[i] == entries.last());
                assert(entries[entries.len() - 1] == found[i]);
            }
        }
        assert forall|i: int| 0 <= i < entries.len() && (#[trigger] entries[i]).user
            == user implies found.contains(entries[i]) by {
            if i < front.len() {
                assert(front[i] == entries[i]);
                let k = choose|k: int| 0 <= k < before.len() && before[k] == front[i];
                assert(found[k] == entries[i]);
            } else {
                assert(found[found.len() - 1] == entries[i]);
            }
        }
    }
}

pub struct CommandAuditLogView {
    /// The file to which entries are appended.
    pub log_path: PathBuf,
    /// The entries kept in memory, oldest first.
    pub entries: Seq<CommandAuditEntryView>,
}

impl View for CommandAuditLog {
    type V = CommandAuditLogView;

    closed spec fn view(&self) -> CommandAuditLogView {
        CommandAuditLogView { log_path: self.log_path, entries: entry_views(self.entries@) }
    }
}

impl CommandAuditLog {
    pub fn new(log_path: PathBuf) -> (log: Self)
        ensures
            log@.log_path == log_path,
            log@.entries.len() == 0,
    {
        Self { log_path, entries: Vec::new() }
    }

    pub fn log_path(&self) -> (path: &PathBuf)
        ensures
            *path == self@.log_path,
    {
        &self.log_path
    }

    /// Keeps `entry` once its line has been written. `written` is the
    /// outcome of appending the line to the audit file: after a failure the
    /// entry is not kept, and the failure is handed on.
    pub fn log_command(&mut self, entry: CommandAuditEntry, written: Result<(), String>) -> (result:
        Result<(), String>)
        ensures
            result is Ok <==> written is Ok,
            result matches Err(message) ==> written == Err::<(), String>(message),
            final(self)@ == if written is Ok {
                CommandAuditLogView { entries: old(self)@.entries.push(entry@), ..old(self)@ }
            } else {
                old(self)@
            },
    {
        match written {
            Ok(_) => {
                self.entries.push(entry);
                assert(self@.entries =~= old(self)@.entries.push(entry@));
                Ok(())
            },
            Err(message) => Err(message),
        }
    }

    /// The entries kept in memory, oldest first.
    pub fn get_entries(&self) -> (entries: &[CommandAuditEntry])
        ensures
            entry_views(entries@) == self@.entries,
    {
        self.entries.as_slice()
    }

    /// The entries of `user`, in the order in which they were kept.
    pub fn get_entries_for_user(&self, user: &str) -> (found: Vec<CommandAuditEntry>)
        ensures
            entry_views(found@) == entries_of(self@.entries, user@),
            found@.len() <= self@.entries.len(),
            forall|i: int| 0 <= i < found@.len() ==> (#[trigger] found@[i]).user@ == user@,
    {
        proof {
            lemma_entries_of(self@.entries, user@);
        }
        let ghost all = self@.entries;
        let mut found: Vec<CommandAuditEntry> = Vec::new();
        let mut i: usize = 0;
        assert(all.take(0) =~= Seq::empty());
        assert(entry_views(found@) =~= Seq::empty());
        while i < self.entries.len()
            invariant
                i <= self.entries@.len(),
                all == self@.entries,
                entry_views(found@) == entries_of(all.take(i as int), user@),
            decreases self.entries@.len() - i,
        {
            let ghost before = entry_views(found@);
            assert(all.take(i + 1).drop_last() =~= all.take(i as int));
            assert(all.take(i + 1).last() == self.entries@[i as int]@);
            if str_eq(self.entries[i].user.as_str(), user) {
                found.push(self.entries[i].clone());
                assert(entry_views(found@) =~= before.push(self.entries@[i as int]@));
            }
            i = i + 1;
        }
        assert(all.take(i as int) =~= all);
        assert(entry_views(found@).len() == found@.len());
        assert forall|i: int| 0 <= i < found@.len() implies (#[trigger] found@[i]).user@
            == user@ by {
            assert(entry_views(found@)[i].user == found@[i].user@);
        }
        found
    }

    pub fn clear(&mut self)
        ensures
            final(self)@.log_path == old(self)@.log_path,
            final(self)@.entries.len() == 0,
    {
        self.entries.clear();
    }
}

} // verus!
