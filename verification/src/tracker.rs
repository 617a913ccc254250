//! The decisions of the activity tracker: which windows are recorded, under
//! which category, and how a recording changes the log.

use vstd::prelude::*;
use crate::rules::{
    category_of_label, classify, label_of, lemma_label_round_trip, spec_classify, Category, Rule,
};
use crate::text::{has_infix, lowercase, str_contains, to_lower};

verus! {

/// Browsers are recognised by their process name, ignoring case.
pub open spec fn is_browser_name(process: Seq<char>) -> bool {
    let p = lowercase(process);
    has_infix(p, "chrome"@) || has_infix(p, "edge"@) || has_infix(p, "msedge"@) || has_infix(
        p,
        "brave"@,
    ) || has_infix(p, "firefox"@) || has_infix(p, "opera"@) || has_infix(p, "whale"@)
}

/// Whether the focused process is a web browser, the only kind of window
/// the tracker records.
pub fn is_browser_process(process_name: &str) -> (browser: bool)
    ensures
        browser == is_browser_name(process_name@),
{
    let process_lower = to_lower(process_name);
    let p = process_lower.as_str();
    str_contains(p, "chrome") || str_contains(p, "edge") || str_contains(p, "msedge")
        || str_contains(p, "brave") || str_contains(p, "firefox") || str_contains(p, "opera")
        || str_contains(p, "whale")
}

/// The label a recorded window is logged under: `None` for windows that are
/// not browsers or that the rules ignore.
pub open spec fn tick_label(title: Seq<char>, process: Seq<char>, rules: Seq<Rule>) -> Option<
    Seq<char>,
> {
    if !is_browser_name(process) {
        None
    } else {
        match spec_classify(title, process, rules) {
            Category::Ignore => None,
            Category::Productive => Some("PRODUCTIVE"@),
            Category::Unproductive => Some("UNPRODUCTIVE"@),
            Category::Neutral => Some("NEUTRAL"@),
        }
    }
}

/// What one second of focus on a window is logged as, if anything.
pub fn tick_category_label(window_title: &str, process_name: &str, rules: &[Rule]) -> (label:
    Option<&'static str>)
    ensures
        match label {
            Some(l) => tick_label(window_title@, process_name@, rules@) == Some(l@),
            None => tick_label(window_title@, process_name@, rules@) is None,
        },
{
    if !is_browser_process(process_name) {
        return None;
    }
    match classify(window_title, process_name, rules) {
        Category::Ignore => None,
        Category::Productive => Some("PRODUCTIVE"),
        Category::Unproductive => Some("UNPRODUCTIVE"),
        Category::Neutral => Some("NEUTRAL"),
    }
}

/// How recording time changes the log.
#[derive(Debug, Clone, Copy, PartialEq, Eq, Structural)]
pub enum LogWrite {
    /// Set the duration of the existing entry `id` to `duration_sec`.
    Update { id: i32, duration_sec: i32 },
    /// Add a new entry with `duration_sec`.
    Insert { duration_sec: i32 },
}

/// Today's entry for the same process, title, category and project tag (its
/// id and duration) receives the added time; without one a new entry starts.
pub open spec fn log_write_for(existing: Option<(i32, i32)>, duration_sec: i32) -> LogWrite {
    match existing {
        Some((id, current)) => LogWrite::Update { id, duration_sec: (current + duration_sec) as i32 },
        None => LogWrite::Insert { duration_sec },
    }
}

/// The log change that records `duration_sec` more seconds, given today's
/// matching entry if there is one.
pub fn plan_log_write(existing: Option<(i32, i32)>, duration_sec: i32) -> (write: LogWrite)
    requires
        existing matches Some((_, current)) ==> i32::MIN <= current + duration_sec <= i32::MAX,
    ensures
        write == log_write_for(existing, duration_sec),
{
    match existing {
        Some((id, current)) => LogWrite::Update { id, duration_sec: current + duration_sec },
        None => LogWrite::Insert { duration_sec },
    }
}

/// Recording the same window twice adds up: the first recording creates the
/// entry, the second one sets it to the sum.
pub proof fn lemma_recordings_accumulate(id: i32, first: i32, second: i32)
    requires
        i32::MIN <= first + second <= i32::MAX,
    ensures
        log_write_for(None, first) == (LogWrite::Insert { duration_sec: first }),
        log_write_for(Some((id, first)), second) == (LogWrite::Update {
            id,
            duration_sec: (first + second) as i32,
        }),
        (first + second) as i32 == first + second,
{
}

/// The names that mark a browser process.
pub open spec fn browser_names() -> Seq<Seq<char>> {
    seq!["chrome"@, "edge"@, "msedge"@, "brave"@, "firefox"@, "opera"@, "whale"@]
}

/// A process is a browser exactly when its lowercased name contains one of
/// the browser names.
pub proof fn lemma_browser_by_name(process: Seq<char>)
    ensures
        is_browser_name(process) <==> exists|i: int|
            0 <= i < browser_names().len() && has_infix(
                lowercase(process),
                #[trigger] browser_names()[i],
            ),
        forall|i: int|
            0 <= i < browser_names().len() && has_infix(
                lowercase(process),
                #[trigger] browser_names()[i],
            ) ==> is_browser_name(process),
{
    let names = browser_names();
    let p = lowercase(process);
    assert(names.len() == 7);
    assert(names[0] == "chrome"@ && names[1] == "edge"@ && names[2] == "msedge"@ && names[3]
        == "brave"@ && names[4] == "firefox"@ && names[5] == "opera"@ && names[6] == "whale"@);
    if is_browser_name(process) {
        if has_infix(p, "chrome"@) {
            assert(has_infix(p, names[0]));
        } else if has_infix(p, "edge"@) {
            assert(has_infix(p, names[1]));
        } else if has_infix(p, "msedge"@) {
            assert(has_infix(p, names[2]));
        } else if has_infix(p, "brave"@) {
            assert(has_infix(p, names[3]));
        } else if has_infix(p, "firefox"@) {
            assert(has_infix(p, names[4]));
        } else if has_infix(p, "opera"@) {
            assert(has_infix(p, names[5]));
        } else {
            assert(has_infix(p, names[6]));
        }
    }
}

/// Only browser windows that the rules do not ignore are recorded, and the
/// label they are recorded under names their category.
pub proof fn lemma_recorded_label_names_category(title: Seq<char>, process: Seq<char>, rules: Seq<
    Rule,
>)
    ensures
        tick_label(title, process, rules) is None <==> (!is_browser_name(process) || spec_classify(
            title,
            process,
            rules,
        ) == Category::Ignore),
        tick_label(title, process, rules) matches Some(l) ==> category_of_label(l)
            == spec_classify(title, process, rules) && l == label_of(spec_classify(title, process, rules)),
{
    lemma_label_round_trip(spec_classify(title, process, rules));
}

} // verus!
