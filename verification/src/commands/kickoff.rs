//! Launching agents that implement a feature.

pub mod container;
pub mod conventions;
pub mod criteria;
pub mod hints;
pub mod launch;
pub mod naming;
pub mod observe;
pub mod options;
pub mod platform;
pub mod prompt;
pub mod report;
pub mod watchdog;
