//! Collectors, readiness and the collection schedule.

pub mod collectors;
pub mod executor;
pub mod readiness;
