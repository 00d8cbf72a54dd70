//! Automated triage for experimental timed-lyrics submissions.
//!
//! Issues on a tracker carry a free-text body with labelled sections; this
//! library extracts the submission parameters, decides whether an issue is
//! actionable, orders parsed lyric lines, builds the texts reported back to
//! the submitter, and drives the whole per-issue flow as a state machine.
//! All I/O (the tracker, the document download) is performed by a driver
//! outside this crate, which feeds results back as events.

pub mod text;
pub mod numbers;
pub mod order;
pub mod fields;
pub mod params;
pub mod report;
pub mod flow;
pub mod engine;



