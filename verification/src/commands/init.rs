//! Setting up a repository.

pub mod manifest;
pub mod python;
pub mod screens;
pub mod servers;
pub mod setup;
pub mod signing;
pub mod walkthrough;
