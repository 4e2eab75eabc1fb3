//! Tools for sinks.

pub mod fork;
pub mod null;

pub use fork::{Fork, Handoff, Progress, Routed};
pub use null::Null;
