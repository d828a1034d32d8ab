//! Capture of log records for tests: an ordered, per-thread record of what
//! was logged, with queries over it and a reset.

mod capture;
mod record;

pub use capture::{enabled, CapLog};
pub use record::CapRecord;
