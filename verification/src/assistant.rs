//! The coding assistant that agents run.
//!
//! The library launches an assistant, looks for its files and tells users how to get
//! it. What the assistant is called comes in from outside.

use vstd::prelude::*;

verus! {

/// What an assistant is called.
#[derive(Debug, Clone, Copy)]
pub struct Assistant<'a> {
    /// The command that starts it.
    pub program: &'a str,
    /// Its name in texts.
    pub title: &'a str,
    /// Its package for Homebrew.
    pub brew_package: &'a str,
    /// Its package for npm.
    pub npm_package: &'a str,
    /// The environment variable that is set inside its sessions.
    pub session_variable: &'a str,
    /// The directory of its settings, in a project and in the user's home.
    pub dir: &'a str,
    /// The file of a project's instructions for it.
    pub guide: &'a str,
}

} // verus!
