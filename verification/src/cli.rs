//! The options of the command line.

use vstd::prelude::*;

verus! {

/// What the command line asks for.
#[derive(Clone, Debug)]
pub struct Cli {
    /// Override the config file path.
    pub config: Option<String>,
    /// Override the Docker endpoint, for example unix:///var/run/docker.sock.
    pub host: Option<String>,
    /// Force stopped containers visible at startup, even if config hides them.
    pub all: bool,
    /// Apply an initial Compose project filter.
    pub project: Option<String>,
    /// Focus a specific container by name prefix or full id on startup.
    pub container: Option<String>,
    /// Override the configured theme.
    pub theme: Option<String>,
}

} // verus!
