//! Decision logic of the crosslink issue tracker and agent launcher.
//!
//! The library holds what crosslink decides and computes: parsing design
//! documents, building prompts and reports, walking through the configuration,
//! checking the hub for inconsistencies. It touches neither files nor processes:
//! the program around it reads and writes, and hands plain values in.

pub mod agent_flags;
pub mod agent_requests;
pub mod assistant;
pub mod chainlink;
pub mod checkpoint;
pub mod clock_skew;
pub mod commands;
pub mod identity;
pub mod json;
pub mod json_object;
pub mod order;
pub mod paths;
pub mod text;
pub mod time;
pub mod uuids;
