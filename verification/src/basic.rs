//! The compact interface: classification by window title alone and a
//! plain CSV of aggregated usage.

pub mod rules;
pub mod report;
