//! Verified parsing and bookkeeping core of a Linux system-metrics agent:
//! the readers of `/proc` and `/sys` text, the collector registry, the
//! readiness states, the decisions of the collection loop, the
//! configuration model and the choice of log outputs.

pub mod config;
pub mod logger;
pub mod agent;
pub mod display;
pub mod text;
