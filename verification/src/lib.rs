//! Per-contributor pull request counters computed from repository events.

use vstd::prelude::*;

pub mod aggregate;
pub mod coordinator;
pub mod github_events;
pub mod json;
pub mod report;
pub mod text;

pub use crate::aggregate::{events_per_author, AuthorAggregate, AuthorEvents};
pub use crate::report::{print_events_per_author, print_pull_request_events_per_author};

verus! {

/// What to report on: the repositories, and the credential that their
/// fetches share.
#[derive(Debug, PartialEq, Eq)]
pub struct Config {
    pub repos: Vec<String>,
    pub token: Option<String>,
}

/// Why a configuration is refused.
#[derive(Clone, Copy, Debug, PartialEq, Eq, Structural)]
pub enum ConfigError {
    /// No repository was named.
    NoRepository,
}

impl Config {
    /// Makes a configuration. At least one repository must be named.
    pub fn new(repos: Vec<String>, token: Option<String>) -> (r: Result<Config, ConfigError>)
        ensures
            repos@.len() == 0 ==> r == Err::<Config, ConfigError>(ConfigError::NoRepository),
            repos@.len() > 0 ==> r == Ok::<Config, ConfigError>(Config { repos, token }),
    {
        if repos.len() == 0 {
            Err(ConfigError::NoRepository)
        } else {
            Ok(Config { repos, token })
        }
    }
}

} // verus!
