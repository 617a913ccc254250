//! Focus tracking: window classification, activity reports and the
//! decisions behind recording and maintaining the activity log.

pub mod text;
pub mod rules;
pub mod ratio;
pub mod report;
pub mod url;
pub mod tracker;
pub mod database;
pub mod coach;
pub mod frontend;
pub mod basic;
