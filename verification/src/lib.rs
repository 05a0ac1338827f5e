//! Inventory of a directory of mod archives: tolerant metadata extraction,
//! snapshots, the difference between two snapshots and its textual report.

pub mod clock;
pub mod diff;
pub mod lang;
pub mod metadata;
pub mod naming;
pub mod order;
pub mod pattern;
pub mod properties;
pub mod report;
pub mod sanitize;
pub mod scan;
pub mod snapshot;
pub mod text;
