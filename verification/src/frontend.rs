//! Values exchanged with the dashboard, and the shared application state.

use vstd::prelude::*;
use std::sync::Mutex;
use crate::rules::{category_label, classify, label_of, spec_classify, Rule};

verus! {

/// Declares `std::sync::Mutex` so that the shared state can hold one.
#[verifier::external_type_specification]
#[verifier::external_body]
#[verifier::reject_recursive_types(T)]
pub struct ExMutex<T: ?Sized>(Mutex<T>);

/// Location of the SQLite database file.
pub struct DbPath(pub String);

/// The project tag that new activity is recorded under, if any.
pub struct CurrentProject(pub Mutex<Option<String>>);

/// A stored rule as the dashboard lists it.
pub struct RuleFrontend {
    pub id: Option<i32>,
    pub pattern: String,
    pub match_type: String,
    pub category: String,
}

/// One line of the dashboard report.
pub struct ReportFrontend {
    pub process_name: String,
    pub window_title: String,
    pub category: String,
    pub total_duration_sec: i32,
    pub project_tag: Option<String>,
}

/// Time spent in one category during one hour of today.
pub struct TimelineItem {
    pub hour: i32,
    pub category: String,
    pub duration: i32,
}

/// The category of the focused window, as the dashboard shows it live.
pub struct ActiveCategoryResponse {
    pub category: String,
    pub process_name: String,
    pub window_title: String,
}

/// The live category of the focused window: the label of its
/// classification, with its process name and title.
pub fn active_category_response(window_title: String, process_name: String, rules: &[Rule]) -> (response: ActiveCategoryResponse)
    ensures
        response.category@ == label_of(spec_classify(window_title@, process_name@, rules@)),
        response.process_name@ == process_name@,
        response.window_title@ == window_title@,
{
    let category = classify(window_title.as_str(), process_name.as_str(), rules);
    ActiveCategoryResponse {
        category: category_label(category).to_owned(),
        process_name,
        window_title,
    }
}

/// The live category when no window has the focus: neutral, with no
/// process and no title.
pub fn no_window_response() -> (response: ActiveCategoryResponse)
    ensures
        response.category@ == "NEUTRAL"@,
        response.process_name@.len() == 0,
        response.window_title@.len() == 0,
{
    ActiveCategoryResponse {
        category: "NEUTRAL".to_owned(),
        process_name: String::new(),
        window_title: String::new(),
    }
}

} // verus!
