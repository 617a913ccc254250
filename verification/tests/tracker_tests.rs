use focus_tracker::database::{is_usable_pattern, log_scope, rule_write, LogScope, RuleWrite};
use focus_tracker::frontend::{active_category_response, no_window_response};
use focus_tracker::rules::{Category, Rule};
use focus_tracker::tracker::{is_browser_process, plan_log_write, tick_category_label, LogWrite};

fn rules() -> Vec<Rule> {
    vec![
        Rule {
            id: None,
            pattern: "YouTube".to_string(),
            match_type: "CONTAINS".to_string(),
            category: Category::Unproductive,
        },
        Rule {
            id: None,
            pattern: "Focus Tracker".to_string(),
            match_type: "CONTAINS".to_string(),
            category: Category::Ignore,
        },
    ]
}

#[test]
fn browsers_are_recognised() {
    assert!(is_browser_process("chrome.exe"));
    assert!(is_browser_process("Google Chrome"));
    assert!(is_browser_process("MSEDGE.EXE"));
    assert!(is_browser_process("Firefox"));
    assert!(is_browser_process("whale"));
    assert!(!is_browser_process("notepad.exe"));
    assert!(!is_browser_process(""));
}

#[test]
fn ticks_record_browser_windows_unless_ignored() {
    let rules = rules();
    assert_eq!(tick_category_label("YouTube", "chrome.exe", &rules), Some("UNPRODUCTIVE"));
    assert_eq!(tick_category_label("Docs", "chrome.exe", &rules), Some("NEUTRAL"));
    assert_eq!(tick_category_label("Focus Tracker", "chrome.exe", &rules), None);
    assert_eq!(tick_category_label("YouTube", "vlc.exe", &rules), None);
}

#[test]
fn log_writes_accumulate() {
    assert_eq!(plan_log_write(None, 10), LogWrite::Insert { duration_sec: 10 });
    assert_eq!(
        plan_log_write(Some((4, 10)), 5),
        LogWrite::Update { id: 4, duration_sec: 15 }
    );
}

#[test]
fn blank_patterns_are_refused() {
    assert!(!is_usable_pattern(""));
    assert!(!is_usable_pattern(" \t\n"));
    assert!(is_usable_pattern(" YouTube "));
}

#[test]
fn match_types_select_log_scopes() {
    assert_eq!(log_scope("CONTAINS"), LogScope::Containing);
    assert_eq!(log_scope("EQUALS"), LogScope::Equal);
    assert_eq!(log_scope("contains"), LogScope::Untouched);
    assert_eq!(rule_write(Some(3)), RuleWrite::Update { id: 3 });
    assert_eq!(rule_write(None), RuleWrite::Insert);
}

#[test]
fn live_category_of_the_focused_window() {
    let r = active_category_response("YouTube - Chrome".to_string(), "chrome.exe".to_string(), &rules());
    assert_eq!(r.category, "UNPRODUCTIVE");
    assert_eq!(r.process_name, "chrome.exe");
    assert_eq!(r.window_title, "YouTube - Chrome");
    let r = active_category_response("Focus Tracker".to_string(), "app.exe".to_string(), &rules());
    assert_eq!(r.category, "IGNORE");
    let r = no_window_response();
    assert_eq!(r.category, "NEUTRAL");
    assert_eq!(r.process_name, "");
    assert_eq!(r.window_title, "");
}
