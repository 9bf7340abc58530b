//! The serving configuration.
//!
//! The HTTP layer itself lives outside the library; here are the
//! configuration the server is started with and the mode it runs in.

use vstd::prelude::*;

verus! {

/// How built pages are served: pre-rendered files, or rendered on
/// demand.
#[derive(Debug, PartialEq, Eq, Structural, Clone, Copy)]
pub enum RunningType {
    SSG,
    SSR,
}

/// What the server is started with.
#[derive(Debug)]
pub struct ServerConfigs {
    pub port: u16,
    pub enable_http_logging: bool,
    pub root_path: String,
    pub running_type: RunningType,
}

/// A configured server, waiting to be run.
#[derive(Debug)]
pub struct Server {
    pub configs: ServerConfigs,
}

impl Server {
    /// Wraps the configuration.
    pub fn new(configs: ServerConfigs) -> (s: Self)
        ensures
            s.configs == configs,
    {
        Server { configs }
    }
}

} // verus!
