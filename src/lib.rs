//! Pod debugging helpers around `kubectl`: resolving pods by name, tagging and
//! merging their log streams, building `kubectl` argument lists, and the state
//! of a small pod dashboard.
pub mod age;
pub mod aggregate;
pub mod commands;
pub mod dash;
pub mod follow;
pub mod kubectl;
pub mod metrics;
pub mod pods;
pub mod text;
