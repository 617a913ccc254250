//! The decisions behind maintaining the rule table and the activity log
//! when the user recategorises or removes an item.

use vstd::prelude::*;
use crate::text::{str_eq, trim_text, trimmed};

verus! {

/// A pattern is usable when something other than whitespace is left of it;
/// an empty pattern would match every logged window.
pub open spec fn pattern_usable(pattern: Seq<char>) -> bool {
    trimmed(pattern).len() > 0
}

/// Whether `pattern` may be used to change rules and logs; blank patterns
/// leave both untouched.
pub fn is_usable_pattern(pattern: &str) -> (usable: bool)
    ensures
        usable == pattern_usable(pattern@),
{
    let t = trim_text(pattern);
    !t.is_empty()
}

/// The logged windows that a pattern reaches.
#[derive(Debug, Clone, Copy, PartialEq, Eq, Structural)]
pub enum LogScope {
    /// Entries whose title or process name contains the pattern.
    Containing,
    /// Entries whose title or process name equals the pattern.
    Equal,
    /// No entries (an unknown match type).
    Untouched,
}

/// The scope of a match type: `"CONTAINS"`, `"EQUALS"`, anything else.
pub open spec fn scope_of(match_type: Seq<char>) -> LogScope {
    if match_type == "CONTAINS"@ {
        LogScope::Containing
    } else if match_type == "EQUALS"@ {
        LogScope::Equal
    } else {
        LogScope::Untouched
    }
}

/// Which log entries a rule with this match type is applied to, when past
/// entries are recategorised or deleted.
pub fn log_scope(match_type: &str) -> (scope: LogScope)
    ensures
        scope == scope_of(match_type@),
{
    if str_eq(match_type, "CONTAINS") {
        LogScope::Containing
    } else if str_eq(match_type, "EQUALS") {
        LogScope::Equal
    } else {
        LogScope::Untouched
    }
}

/// How the rule for a pattern is stored.
#[derive(Debug, Clone, Copy, PartialEq, Eq, Structural)]
pub enum RuleWrite {
    /// Overwrite the existing rule `id` for the same pattern.
    Update { id: i32 },
    /// Add a new rule.
    Insert,
}

/// A pattern has at most one rule: an existing rule for it (its id) is
/// overwritten, otherwise a rule is added.
pub fn rule_write(existing_id: Option<i32>) -> (write: RuleWrite)
    ensures
        match existing_id {
            Some(id) => write == RuleWrite::Update { id },
            None => write == RuleWrite::Insert,
        },
{
    match existing_id {
        Some(id) => RuleWrite::Update { id },
        None => RuleWrite::Insert,
    }
}

} // verus!
