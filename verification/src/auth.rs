//! The authentication server: its configuration and the state kept across
//! configuration reloads.

use vstd::prelude::*;

verus! {

/// Command-line arguments of the authentication server that can override
/// configuration options. None do yet.
#[derive(Debug, Clone, Copy, PartialEq, Eq, Structural)]
pub struct Args {}

/// Configuration of the authentication server. It holds no option yet.
#[derive(Debug, Clone, Copy, PartialEq, Eq, Structural)]
pub struct Config {}

impl Config {
    /// Apply the command-line arguments that override configuration
    /// options: none do yet, so the configuration is unchanged.
    pub fn apply_cli(&mut self, args: &Args)
        ensures
            *final(self) == *old(self),
    {
    }
}

/// What is set up once and preserved if the configuration is reloaded.
#[derive(Debug, Clone, Copy, PartialEq, Eq, Structural)]
pub struct PersistSoftReset {}

/// The data that proprietary extensions get access to.
#[derive(Debug, Clone, Copy, PartialEq, Eq, Structural)]
pub struct ForProprietary {}

} // verus!
