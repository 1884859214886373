//! Validation of a command line before it runs.
//!
//! Three checks in order: the deny-list on the first word, the injection
//! patterns on the whole line, the allow-list on the first word. Only the
//! deny-list refuses; the other two ask for a judgment.

use crate::text::{contains, first_word, first_word_of, is_substring, list_contains, views};
use vstd::prelude::*;
use vstd::string::*;

verus! {

/// The outcome of validating one command.
#[derive(Debug)]
pub struct CommandValidationResult {
    pub is_valid: bool,
    pub reason: Option<String>,
    pub requires_judgment: bool,
}

pub struct CommandValidationResultView {
    pub is_valid: bool,
    pub reason: Option<Seq<char>>,
    pub requires_judgment: bool,
}

impl View for CommandValidationResult {
    type V = CommandValidationResultView;

    open spec fn view(&self) -> CommandValidationResultView {
        CommandValidationResultView {
            is_valid: self.is_valid,
            reason: match self.reason {
                Some(text) => Some(text@),
                None => None,
            },
            requires_judgment: self.requires_judgment,
        }
    }
}

impl Clone for CommandValidationResult {
    fn clone(&self) -> (copy: Self)
        ensures
            copy@ == self@,
    {
        CommandValidationResult {
            is_valid: self.is_valid,
            reason: match &self.reason {
                Some(text) => Some(text.clone()),
                None => None,
            },
            requires_judgment: self.requires_judgment,
        }
    }
}

pub struct CommandValidator {
    whitelist: Vec<String>,
    blacklist: Vec<String>,
    injection_patterns: Vec<String>,
}

pub struct CommandValidatorView {
    /// The commands that pass without a judgment; every command where empty.
    pub whitelist: Set<Seq<char>>,
    /// The commands that are refused.
    pub blacklist: Set<Seq<char>>,
    /// The regular expressions that mark an attempt at injection.
    pub injection_patterns: Seq<Seq<char>>,
}

/// The commands that are always refused.
pub open spec fn deny_list() -> Seq<Seq<char>> {
    seq!["rm"@, "dd"@, "mkfs"@, "fdisk"@, "shutdown"@, "reboot"@]
}

/// The injection patterns: a shell metacharacter, a redirection into a
/// device, the opening of a process substitution.
pub open spec fn default_patterns() -> Seq<Seq<char>> {
    seq!["[;&|`$()]"@, ">\\s*/dev/"@, "<\\s*\\("@]
}

/// Whether the regular expression `pattern`, as the `regex` crate reads it,
/// matches somewhere in `text`; `None` where `pattern` does not compile.
pub uninterp spec fn regex_search(pattern: Seq<char>, text: Seq<char>) -> Option<bool>;

/// One of `patterns` matches somewhere in `text`.
pub open spec fn matches_any(patterns: Seq<Seq<char>>, text: Seq<char>) -> bool {
    exists|i: int| 0 <= i < patterns.len() && regex_search(#[trigger] patterns[i], text) == Some(true)
}

/// The reason given for a refused command.
pub open spec fn blacklisted_reason(head: Seq<char>) -> Seq<char> {
    "Command '"@ + head + "' is blacklisted"@
}

impl CommandValidatorView {
    /// The verdict on a command whose first word is `head` and in which an
    /// injection pattern was found or not.
    pub open spec fn verdict(self, head: Seq<char>, injected: bool) -> CommandValidationResultView {
        if self.blacklist.contains(head) {
            CommandValidationResultView {
                is_valid: false,
                reason: Some(blacklisted_reason(head)),
                requires_judgment: false,
            }
        } else if injected {
            CommandValidationResultView { is_valid: true, reason: None, requires_judgment: true }
        } else if !self.whitelist.is_empty() && !self.whitelist.contains(head) {
            CommandValidationResultView { is_valid: true, reason: None, requires_judgment: true }
        } else {
            CommandValidationResultView { is_valid: true, reason: None, requires_judgment: false }
        }
    }

    /// The verdict on the command line `command`.
    pub open spec fn verdict_on(self, command: Seq<char>) -> CommandValidationResultView {
        self.verdict(first_word(command), matches_any(self.injection_patterns, command))
    }
}

impl View for CommandValidator {
    type V = CommandValidatorView;

    closed spec fn view(&self) -> CommandValidatorView {
        CommandValidatorView {
            whitelist: views(self.whitelist@).to_set(),
            blacklist: views(self.blacklist@).to_set(),
            injection_patterns: views(self.injection_patterns@),
        }
    }
}

/// A command whose first word is on the deny-list is not valid, whatever
/// else holds of it.
pub proof fn lemma_denied_head_is_invalid(validator: CommandValidatorView, command: Seq<char>)
    requires
        validator.blacklist.contains(first_word(command)),
    ensures
        !validator.verdict_on(command).is_valid,
{
}

/// A command in which an injection pattern matches, and whose first word
/// is not on the deny-list, is valid and requires a judgment.
pub proof fn lemma_injection_requires_judgment(validator: CommandValidatorView, command: Seq<char>)
    requires
        matches_any(validator.injection_patterns, command),
        !validator.blacklist.contains(first_word(command)),
    ensures
        validator.verdict_on(command).requires_judgment,
        validator.verdict_on(command).is_valid,
{
}

/// Compiles `pattern` with `regex::Regex::new` and asks `Regex::is_match`
/// whether it matches somewhere in `text`. The result is `regex_search`:
/// `None` where the pattern is refused.
#[verifier::external_body]
fn regex_is_match(pattern: &str, text: &str) -> (found: Option<bool>)
    ensures
        found == regex_search(pattern@, text@),
{
    match regex::Regex::new(pattern) {
        Ok(re) => Some(re.is_match(text)),
        Err(_) => None,
    }
}

impl CommandValidator {
    /// The deny-list and the injection patterns are the fixed ones.
    #[verifier::type_invariant]
    closed spec fn fixed_rules(&self) -> bool {
        &&& views(self.blacklist@) == deny_list()
        &&& views(self.injection_patterns@) == default_patterns()
    }

    /// A validator with the fixed deny-list, the three injection patterns
    /// and an empty allow-list.
    pub fn new() -> (validator: Self)
        ensures
            validator@.whitelist == Set::<Seq<char>>::empty(),
            validator@.blacklist == deny_list().to_set(),
            validator@.injection_patterns == default_patterns(),
    {
        let mut blacklist: Vec<String> = Vec::new();
        blacklist.push("rm".to_string());
        blacklist.push("dd".to_string());
        blacklist.push("mkfs".to_string());
        blacklist.push("fdisk".to_string());
        blacklist.push("shutdown".to_string());
        blacklist.push("reboot".to_string());
        let mut injection_patterns: Vec<String> = Vec::new();
        injection_patterns.push("[;&|`$()]".to_string());
        injection_patterns.push(">\\s*/dev/".to_string());
        injection_patterns.push("<\\s*\\(".to_string());
        assert(views(blacklist@) =~= deny_list());
        assert(views(injection_patterns@) =~= default_patterns());
        let validator = Self { whitelist: Vec::new(), blacklist, injection_patterns };
        assert(validator@.whitelist =~= Set::<Seq<char>>::empty());
        validator
    }

    /// Puts `command` on the allow-list.
    pub fn add_whitelist(&mut self, command: String)
        ensures
            final(self)@ == (CommandValidatorView {
                whitelist: old(self)@.whitelist.insert(command@),
                ..old(self)@
            }),
    {
        proof {
            use_type_invariant(&*self);
        }
        if !list_contains(&self.whitelist, command.as_str()) {
            let ghost before = views(self.whitelist@);
            let mut list: Vec<String> = Vec::new();
            core::mem::swap(&mut self.whitelist, &mut list);
            list.push(command);
            core::mem::swap(&mut self.whitelist, &mut list);
            assert(views(self.whitelist@) =~= before.push(command@));
            assert forall|w: Seq<char>| before.push(command@).contains(w) <==> (w == command@
                || before.contains(w)) by {
                let pushed = before.push(command@);
                if before.contains(w) {
                    let i = choose|i: int| 0 <= i < before.len() && before[i] == w;
                    assert(pushed[i] == w);
                }
                if w == command@ {
                    assert(pushed[pushed.len() - 1] == w);
                }
            }
        }
        assert(self@.whitelist =~= old(self)@.whitelist.insert(command@));
    }

    /// Whether one of the injection patterns matches somewhere in `command`.
    fn injection_found(&self, command: &str) -> (found: bool)
        ensures
            found == matches_any(self@.injection_patterns, command@),
    {
        let mut i: usize = 0;
        while i < self.injection_patterns.len()
            invariant
                i <= self.injection_patterns@.len(),
                forall|j: int|
                    0 <= j < i ==> regex_search(
                        #[trigger] views(self.injection_patterns@)[j],
                        command@,
                    ) != Some(true),
            decreases self.injection_patterns@.len() - i,
        {
            match regex_is_match(self.injection_patterns[i].as_str(), command) {
                Some(true) => {
                    assert(regex_search(views(self.injection_patterns@)[i as int], command@) == Some(true));
                    return true;
                },
                _ => {},
            }
            i = i + 1;
        }
        false
    }

    /// The verdict on a command whose first word is `head`, given whether an
    /// injection pattern was found in it.
    pub fn classify(&self, head: &str, injected: bool) -> (result: CommandValidationResult)
        ensures
            result@ == self@.verdict(head@, injected),
    {
        if list_contains(&self.blacklist, head) {
            return CommandValidationResult {
                is_valid: false,
                reason: Some("Command '".to_string().concat(head).concat("' is blacklisted")),
                requires_judgment: false,
            };
        }
        if injected {
            return CommandValidationResult { is_valid: true, reason: None, requires_judgment: true };
        }
        proof {
            if self.whitelist@.len() > 0 {
                assert(views(self.whitelist@)[0] == self.whitelist@[0]@);
                assert(self@.whitelist.contains(views(self.whitelist@)[0]));
            }
        }
        if self.whitelist.len() > 0 && !list_contains(&self.whitelist, head) {
            return CommandValidationResult { is_valid: true, reason: None, requires_judgment: true };
        }
        CommandValidationResult { is_valid: true, reason: None, requires_judgment: false }
    }

    /// The verdict on the command line `command`.
    pub fn validate(&self, command: &str) -> (result: CommandValidationResult)
        ensures
            result@ == self@.verdict_on(command@),
            self@.blacklist == deny_list().to_set(),
            self@.injection_patterns == default_patterns(),
            deny_list().contains(first_word(command@)) ==> !result.is_valid,
            matches_any(default_patterns(), command@) && !deny_list().contains(
                first_word(command@),
            ) ==> result.is_valid && result.requires_judgment,
    {
        proof {
            use_type_invariant(self);
        }
        let head = first_word_of(command);
        if list_contains(&self.blacklist, head.as_str()) {
            return self.classify(head.as_str(), false);
        }
        let injected = self.injection_found(command);
        self.classify(head.as_str(), injected)
    }

    /// Whether `path` may leave its directory: it holds `..` or `~`. This
    /// is a coarse hint, not a boundary.
    pub fn detect_symlink_escape(&self, path: &str) -> (suspicious: bool)
        ensures
            suspicious == (is_substring(".."@, path@) || is_substring("~"@, path@)),
    {
        contains(path, "..") || contains(path, "~")
    }
}

} // verus!
