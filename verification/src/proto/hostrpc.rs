//! Administration methods of the game host.

use vstd::prelude::*;

verus! {

/// RPC method: forcefully terminate a game session.
#[derive(Debug, Clone, Copy, PartialEq, Eq, Structural)]
pub struct KillSession {
    /// The session id to terminate.
    pub session_id: u64,
}

/// Why a session could not be killed.
#[derive(Debug, Clone, Copy, PartialEq, Eq, Structural)]
pub enum KillSessionError {
    UnknownSession,
}

impl KillSessionError {
    /// The message that explains the error.
    pub fn message(&self) -> (r: &'static str)
        ensures
            r@ == "No such session exists."@,
    {
        "No such session exists."
    }
}

/// RPC method: reload the server's configuration.
#[derive(Debug, Clone)]
pub struct ReloadConfig {
    /// If set, load this file instead of the default.
    pub path: Option<String>,
}

/// Why the configuration could not be reloaded.
#[derive(Debug, Clone)]
pub enum ReloadConfigError {
    Reason(String),
}

impl ReloadConfigError {
    /// The message that explains the error: the reason itself.
    pub fn message(&self) -> (r: String)
        ensures
            match self {
                ReloadConfigError::Reason(s) => r@ == s@,
            },
    {
        match self {
            ReloadConfigError::Reason(s) => s.clone(),
        }
    }
}

} // verus!
