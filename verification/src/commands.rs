//! The commands of the program, one module for each.

pub mod agent;
pub mod compact;
pub mod config;
pub mod config_file;
pub mod config_registry;
pub mod context;
pub mod cpitd;
pub mod create;
pub mod design_cmd;
pub mod design_doc;
pub mod export;
pub mod external_issues;
pub mod external_knowledge;
pub mod init;
pub mod integrity_cmd;
pub mod intervene;
pub mod kickoff;
