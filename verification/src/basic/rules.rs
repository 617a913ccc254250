//! Classification of a window by its title.

use vstd::prelude::*;
use crate::text::{has_infix, lowercase, str_contains, str_eq, to_lower};

verus! {

/// How time spent in a window is counted.
#[derive(Debug, Clone, Copy, PartialEq, Eq, Structural)]
pub enum Category {
    Productive,
    Unproductive,
    Neutral,
}

/// A rule: `match_type` is `"CONTAINS"` or `"EQUALS"`; rules of any other
/// match type never match.
pub struct Rule {
    pub pattern: String,
    pub match_type: String,
    pub category: Category,
}

/// Whether `rule` matches a title, comparing lowercased text.
pub open spec fn title_matches(title: Seq<char>, rule: Rule) -> bool {
    let pattern = lowercase(rule.pattern@);
    let t = lowercase(title);
    if rule.match_type@ == "CONTAINS"@ {
        has_infix(t, pattern)
    } else if rule.match_type@ == "EQUALS"@ {
        t == pattern
    } else {
        false
    }
}

/// The category of the first rule matching the title, `Neutral` if none.
pub open spec fn spec_classify_title(title: Seq<char>, rules: Seq<Rule>) -> Category
    decreases rules.len(),
{
    if rules.len() == 0 {
        Category::Neutral
    } else if title_matches(title, rules[0]) {
        rules[0].category
    } else {
        spec_classify_title(title, rules.drop_first())
    }
}

/// Classifies a window by its title against the rules: the first matching
/// rule decides, and a title no rule matches is `Neutral`.
pub fn classify(title: &str, rules: &[Rule]) -> (category: Category)
    ensures
        category == spec_classify_title(title@, rules@),
{
    let title_lower = to_lower(title);
    let mut i: usize = 0;
    assert(rules@.skip(0) =~= rules@);
    while i < rules.len()
        invariant
            0 <= i <= rules@.len(),
            title_lower@ == lowercase(title@),
            spec_classify_title(title@, rules@) == spec_classify_title(title@, rules@.skip(i as int)),
        decreases rules@.len() - i,
    {
        let rule = &rules[i];
        let pattern_lower = to_lower(rule.pattern.as_str());
        assert(rules@.skip(i as int)[0] == rules@[i as int]);
        if str_eq(rule.match_type.as_str(), "CONTAINS") {
            if str_contains(title_lower.as_str(), pattern_lower.as_str()) {
                return rule.category;
            }
        } else if str_eq(rule.match_type.as_str(), "EQUALS") {
            if str_eq(title_lower.as_str(), pattern_lower.as_str()) {
                return rule.category;
            }
        }
        assert(rules@.skip(i as int).drop_first() =~= rules@.skip(i + 1));
        i += 1;
    }
    assert(rules@.skip(i as int) =~= Seq::<Rule>::empty());
    Category::Neutral
}

} // verus!
