use focus_tracker::rules::{
    category_from_label, category_label, classify, rule_from_row, Category, Rule,
};

#[test]
fn test_classify_matching_rules() {
    let rules = vec![
        Rule {
            id: Some(1),
            pattern: "YouTube".to_string(),
            match_type: "CONTAINS".to_string(),
            category: Category::Unproductive,
        },
        Rule {
            id: Some(2),
            pattern: "AI Studio".to_string(),
            match_type: "CONTAINS".to_string(),
            category: Category::Productive,
        },
        Rule {
            id: Some(3),
            pattern: "notepad.exe".to_string(),
            match_type: "EQUALS".to_string(),
            category: Category::Productive,
        },
        Rule {
            id: Some(4),
            pattern: "Focus Tracker".to_string(),
            match_type: "CONTAINS".to_string(),
            category: Category::Ignore,
        },
    ];

    assert_eq!(
        classify("YouTube - Google Chrome", "chrome.exe", &rules),
        Category::Unproductive
    );
    assert_eq!(
        classify("Google AI Studio - Brave", "brave.exe", &rules),
        Category::Productive
    );
    assert_eq!(
        classify("Untitled - Notepad", "notepad.exe", &rules),
        Category::Productive
    );
    assert_eq!(
        classify("Focus Tracker Dashboard", "focus_tracker.exe", &rules),
        Category::Ignore
    );
    assert_eq!(
        classify("My confidential document", "word.exe", &rules),
        Category::Neutral
    );
}

fn rule(pattern: &str, match_type: &str, category: Category) -> Rule {
    Rule {
        id: None,
        pattern: pattern.to_string(),
        match_type: match_type.to_string(),
        category,
    }
}

#[test]
fn classify_ignores_case() {
    let rules = vec![rule("YOUTUBE", "CONTAINS", Category::Unproductive)];
    assert_eq!(classify("watching youtube", "x.exe", &rules), Category::Unproductive);
    let rules = vec![rule("Notepad.EXE", "EQUALS", Category::Productive)];
    assert_eq!(classify("doc", "NOTEPAD.exe", &rules), Category::Productive);
}

#[test]
fn classify_first_matching_rule_wins() {
    let rules = vec![
        rule("tube", "CONTAINS", Category::Productive),
        rule("YouTube", "CONTAINS", Category::Unproductive),
    ];
    assert_eq!(classify("YouTube", "chrome.exe", &rules), Category::Productive);
}

#[test]
fn classify_equals_needs_whole_text() {
    let rules = vec![rule("notepad", "EQUALS", Category::Productive)];
    assert_eq!(classify("notepad - file", "notepad.exe", &rules), Category::Neutral);
}

#[test]
fn classify_skips_unknown_match_types() {
    let rules = vec![
        rule("YouTube", "REGEX", Category::Productive),
        rule("YouTube", "CONTAINS", Category::Unproductive),
    ];
    assert_eq!(classify("YouTube", "chrome.exe", &rules), Category::Unproductive);
}

#[test]
fn classify_without_rules_is_neutral() {
    assert_eq!(classify("anything", "any.exe", &[]), Category::Neutral);
}

#[test]
fn labels_round_trip() {
    for c in [
        Category::Productive,
        Category::Unproductive,
        Category::Neutral,
        Category::Ignore,
    ] {
        assert_eq!(category_from_label(category_label(c)), c);
    }
    assert_eq!(category_label(Category::Ignore), "IGNORE");
    assert_eq!(category_from_label("SOMETHING"), Category::Neutral);
    assert_eq!(category_from_label("productive"), Category::Neutral);
}

#[test]
fn rule_rows_become_rules() {
    let r = rule_from_row("Codex".to_string(), "CONTAINS".to_string(), "PRODUCTIVE");
    assert_eq!(r.id, None);
    assert_eq!(r.pattern, "Codex");
    assert_eq!(r.match_type, "CONTAINS");
    assert_eq!(r.category, Category::Productive);
    let r = rule_from_row("x".to_string(), "EQUALS".to_string(), "??");
    assert_eq!(r.category, Category::Neutral);
}
