//! Estimates the hours of work in a repository's history.
//!
//! The pipeline decodes a commit log into commits, keeps those of the selected
//! authors, bounds each commit's workload estimate by the time until the next
//! recorded commit, and sums the estimates per calendar day.
pub mod commit;
pub mod counter;
pub mod days;
pub mod decoder;
pub mod laws;
pub mod pipeline;
pub mod query;
pub mod timestamp;

pub use commit::{Commit, ParseLineResult, parse_line};
pub use counter::Counter;
pub use days::{DayTotal, HoursReport, tally_days};
pub use decoder::CommitIterator;
pub use pipeline::report_hours;
pub use query::CommitQuery;
pub use timestamp::Timestamp;
