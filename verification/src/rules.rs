//! Classification of the focused window by the user's rules.

use vstd::prelude::*;
use crate::text::{has_infix, lowercase, str_contains, str_eq, to_lower};

verus! {

/// How time spent in a window is counted.
#[derive(Debug, Clone, Copy, PartialEq, Eq, Structural)]
pub enum Category {
    Productive,
    Unproductive,
    Neutral,
    /// Windows that are not recorded at all.
    Ignore,
}

/// A classification rule: `match_type` is `"CONTAINS"` or `"EQUALS"`;
/// rules of any other match type never match.
#[derive(Debug, Clone)]
pub struct Rule {
    pub id: Option<i32>,
    pub pattern: String,
    pub match_type: String,
    pub category: Category,
}

/// Whether `rule` matches a window, comparing lowercased text: a
/// `"CONTAINS"` rule matches when its pattern occurs in the title or in the
/// process name, an `"EQUALS"` rule when it equals one of them.
pub open spec fn rule_matches(title: Seq<char>, process: Seq<char>, rule: Rule) -> bool {
    let pattern = lowercase(rule.pattern@);
    let t = lowercase(title);
    let p = lowercase(process);
    if rule.match_type@ == "CONTAINS"@ {
        has_infix(t, pattern) || has_infix(p, pattern)
    } else if rule.match_type@ == "EQUALS"@ {
        t == pattern || p == pattern
    } else {
        false
    }
}

/// The category of the first rule that matches, or `Neutral` when none does.
pub open spec fn spec_classify(title: Seq<char>, process: Seq<char>, rules: Seq<Rule>) -> Category
    decreases rules.len(),
{
    if rules.len() == 0 {
        Category::Neutral
    } else if rule_matches(title, process, rules[0]) {
        rules[0].category
    } else {
        spec_classify(title, process, rules.drop_first())
    }
}

/// Classifies a window by its title and process name: the category of the
/// first matching rule, `Neutral` when no rule matches.
pub fn classify(window_title: &str, process_name: &str, rules: &[Rule]) -> (category: Category)
    ensures
        category == spec_classify(window_title@, process_name@, rules@),
{
    let mut i: usize = 0;
    assert(rules@.skip(0) =~= rules@);
    while i < rules.len()
        invariant
            0 <= i <= rules@.len(),
            spec_classify(window_title@, process_name@, rules@) == spec_classify(
                window_title@,
                process_name@,
                rules@.skip(i as int),
            ),
        decreases rules@.len() - i,
    {
        let rule = &rules[i];
        let title_lower = to_lower(window_title);
        let proc_lower = to_lower(process_name);
        let pattern_lower = to_lower(rule.pattern.as_str());
        assert(rules@.skip(i as int)[0] == rules@[i as int]);
        if str_eq(rule.match_type.as_str(), "CONTAINS") {
            if str_contains(title_lower.as_str(), pattern_lower.as_str()) || str_contains(
                proc_lower.as_str(),
                pattern_lower.as_str(),
            ) {
                return rule.category;
            }
        } else if str_eq(rule.match_type.as_str(), "EQUALS") {
            if str_eq(title_lower.as_str(), pattern_lower.as_str()) || str_eq(
                proc_lower.as_str(),
                pattern_lower.as_str(),
            ) {
                return rule.category;
            }
        }
        assert(rules@.skip(i as int).drop_first() =~= rules@.skip(i + 1));
        i += 1;
    }
    assert(rules@.skip(i as int) =~= Seq::<Rule>::empty());
    Category::Neutral
}

/// The label under which a category is stored and shown.
pub open spec fn label_of(category: Category) -> Seq<char> {
    match category {
        Category::Productive => "PRODUCTIVE"@,
        Category::Unproductive => "UNPRODUCTIVE"@,
        Category::Neutral => "NEUTRAL"@,
        Category::Ignore => "IGNORE"@,
    }
}

/// The category a stored label names; any other label counts as `Neutral`.
pub open spec fn category_of_label(label: Seq<char>) -> Category {
    if label == "PRODUCTIVE"@ {
        Category::Productive
    } else if label == "UNPRODUCTIVE"@ {
        Category::Unproductive
    } else if label == "IGNORE"@ {
        Category::Ignore
    } else {
        Category::Neutral
    }
}

/// The label of a category.
pub fn category_label(category: Category) -> (label: &'static str)
    ensures
        label@ == label_of(category),
{
    match category {
        Category::Productive => "PRODUCTIVE",
        Category::Unproductive => "UNPRODUCTIVE",
        Category::Neutral => "NEUTRAL",
        Category::Ignore => "IGNORE",
    }
}

/// The category named by a stored label.
pub fn category_from_label(label: &str) -> (category: Category)
    ensures
        category == category_of_label(label@),
{
    if str_eq(label, "PRODUCTIVE") {
        Category::Productive
    } else if str_eq(label, "UNPRODUCTIVE") {
        Category::Unproductive
    } else if str_eq(label, "IGNORE") {
        Category::Ignore
    } else {
        Category::Neutral
    }
}

/// A rule read from storage, where it has no id of its own yet and its
/// category is kept as a label.
pub fn rule_from_row(pattern: String, match_type: String, category: &str) -> (rule: Rule)
    ensures
        rule.id is None,
        rule.pattern@ == pattern@,
        rule.match_type@ == match_type@,
        rule.category == category_of_label(category@),
{
    Rule { id: None, pattern, match_type, category: category_from_label(category) }
}

/// Reading a label back gives the category it was written for.
pub proof fn lemma_label_round_trip(category: Category)
    ensures
        category_of_label(label_of(category)) == category,
{
    reveal_strlit("PRODUCTIVE");
    reveal_strlit("UNPRODUCTIVE");
    reveal_strlit("NEUTRAL");
    reveal_strlit("IGNORE");
    // the four labels have different lengths
    assert("PRODUCTIVE"@.len() == 10);
    assert("UNPRODUCTIVE"@.len() == 12);
    assert("NEUTRAL"@.len() == 7);
    assert("IGNORE"@.len() == 6);
}

/// The first matching rule decides the category; the rules after it do not
/// matter.
pub proof fn lemma_first_match_decides(
    title: Seq<char>,
    process: Seq<char>,
    rules: Seq<Rule>,
    i: int,
)
    requires
        0 <= i < rules.len(),
        rule_matches(title, process, rules[i]),
        forall|j: int| 0 <= j < i ==> !rule_matches(title, process, #[trigger] rules[j]),
    ensures
        spec_classify(title, process, rules) == rules[i].category,
    decreases i,
{
    if i > 0 {
        assert(!rule_matches(title, process, rules[0]));
        let rest = rules.drop_first();
        assert forall|j: int| 0 <= j < i - 1 implies !rule_matches(
            title,
            process,
            #[trigger] rest[j],
        ) by {
            assert(rest[j] == rules[j + 1]);
        }
        lemma_first_match_decides(title, process, rest, i - 1);
    }
}

/// When no rule matches, the window is `Neutral`.
pub proof fn lemma_no_match_is_neutral(title: Seq<char>, process: Seq<char>, rules: Seq<Rule>)
    requires
        forall|j: int| 0 <= j < rules.len() ==> !rule_matches(title, process, #[trigger] rules[j]),
    ensures
        spec_classify(title, process, rules) == Category::Neutral,
    decreases rules.len(),
{
    if rules.len() > 0 {
        assert(!rule_matches(title, process, rules[0]));
        let rest = rules.drop_first();
        assert forall|j: int| 0 <= j < rest.len() implies !rule_matches(
            title,
            process,
            #[trigger] rest[j],
        ) by {
            assert(rest[j] == rules[j + 1]);
        }
        lemma_no_match_is_neutral(title, process, rest);
    }
}

/// A rule whose match type is neither `"CONTAINS"` nor `"EQUALS"` never
/// matches, so adding it anywhere changes no classification.
pub proof fn lemma_unknown_match_type_is_inert(
    title: Seq<char>,
    process: Seq<char>,
    rules: Seq<Rule>,
    i: int,
    rule: Rule,
)
    requires
        0 <= i <= rules.len(),
        rule.match_type@ != "CONTAINS"@,
        rule.match_type@ != "EQUALS"@,
    ensures
        spec_classify(title, process, rules.insert(i, rule)) == spec_classify(title, process, rules),
    decreases i,
{
    if i == 0 {
        assert(rules.insert(0, rule).drop_first() =~= rules);
    } else {
        assert(rules.insert(i, rule)[0] == rules[0]);
        assert(rules.insert(i, rule).drop_first() =~= rules.drop_first().insert(i - 1, rule));
        lemma_unknown_match_type_is_inert(title, process, rules.drop_first(), i - 1, rule);
    }
}

/// Classification ignores case: windows whose titles and process names
/// have the same lowercase forms fall in the same category.
pub proof fn lemma_classify_ignores_case(
    title1: Seq<char>,
    process1: Seq<char>,
    title2: Seq<char>,
    process2: Seq<char>,
    rules: Seq<Rule>,
)
    requires
        lowercase(title1) == lowercase(title2),
        lowercase(process1) == lowercase(process2),
    ensures
        spec_classify(title1, process1, rules) == spec_classify(title2, process2, rules),
    decreases rules.len(),
{
    if rules.len() > 0 {
        assert(rule_matches(title1, process1, rules[0]) == rule_matches(title2, process2, rules[0]));
        lemma_classify_ignores_case(title1, process1, title2, process2, rules.drop_first());
    }
}

/// A rule at the front of the list decides the window's category as soon as
/// it applies, whatever follows: a `"CONTAINS"` rule applies when its
/// lowercased pattern occurs in the lowercased title or in the lowercased
/// process name, an `"EQUALS"` rule when it equals one of them. A front rule
/// that does not apply (or has another match type) is passed over.
pub proof fn lemma_front_rule(title: Seq<char>, process: Seq<char>, rule: Rule, rest: Seq<Rule>)
    ensures
        rule.match_type@ == "CONTAINS"@ && (has_infix(lowercase(title), lowercase(rule.pattern@))
            || has_infix(lowercase(process), lowercase(rule.pattern@))) ==> spec_classify(
            title,
            process,
            seq![rule] + rest,
        ) == rule.category,
        rule.match_type@ == "EQUALS"@ && (lowercase(title) == lowercase(rule.pattern@)
            || lowercase(process) == lowercase(rule.pattern@)) ==> spec_classify(
            title,
            process,
            seq![rule] + rest,
        ) == rule.category,
        !(rule.match_type@ == "CONTAINS"@ && (has_infix(lowercase(title), lowercase(rule.pattern@))
            || has_infix(lowercase(process), lowercase(rule.pattern@)))) && !(rule.match_type@
            == "EQUALS"@ && (lowercase(title) == lowercase(rule.pattern@) || lowercase(process)
            == lowercase(rule.pattern@))) ==> spec_classify(title, process, seq![rule] + rest)
            == spec_classify(title, process, rest),
{
    let rules = seq![rule] + rest;
    reveal_strlit("CONTAINS");
    reveal_strlit("EQUALS");
    assert("CONTAINS"@.len() == 8 && "EQUALS"@.len() == 6);
    assert(rules[0] == rule);
    assert(rules.drop_first() =~= rest);
}

/// A `"CONTAINS"` rule whose lowercased pattern occurs in the lowercased
/// process name decides the category whatever the title is, once no earlier
/// rule applies.
pub proof fn lemma_contains_in_process_decides(
    title: Seq<char>,
    process: Seq<char>,
    rules: Seq<Rule>,
    i: int,
)
    requires
        0 <= i < rules.len(),
        rules[i].match_type@ == "CONTAINS"@,
        has_infix(lowercase(process), lowercase(rules[i].pattern@)),
        forall|j: int| 0 <= j < i ==> !rule_matches(title, process, #[trigger] rules[j]),
    ensures
        spec_classify(title, process, rules) == rules[i].category,
{
    lemma_first_match_decides(title, process, rules, i);
}

} // verus!
