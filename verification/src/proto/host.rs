//! The handshake between a game client and a game host.

use vstd::prelude::*;
use crate::plid::PlayerId;

verus! {

/// The first packet sent by a game client, to identify itself to the host.
#[derive(Debug, Clone)]
pub struct ConnectHandshake {
    /// How should we be known to other players?
    pub display_name: String,
    /// Any "session token", if the server wants one.
    pub token: Vec<u8>,
    /// What session id do we want to join? If None, let the server choose for us.
    pub session_id: Option<u64>,
    /// What PlayerId do we want to play as?
    /// If Neutral, that means we want to join as a spectator.
    /// If None, let the server pick for us.
    pub want_plid: Option<PlayerId>,
    /// If enabled, disable all social interaction with other players.
    /// Their names/profiles will be anonymized and communications will be disabled.
    pub antisocial_mode: bool,
}

/// The host's answer to an accepted handshake.
#[derive(Debug, Clone, Copy, PartialEq, Eq, Structural)]
pub struct HandshakeSuccess {
    pub plid: PlayerId,
}

/// The host's answer to a refused handshake.
#[derive(Debug, Clone, Copy, PartialEq, Eq, Structural)]
pub enum HandshakeError {
    Invalid,
    Unsupported,
    Forbidden,
    Banned,
    Full,
}

impl HandshakeError {
    /// The message that explains the error to the user.
    pub fn message(&self) -> (r: &'static str)
        ensures
            r@ == match self {
                HandshakeError::Invalid => "Your request is invalid."@,
                HandshakeError::Unsupported => "You requested something unsupported or disabled."@,
                HandshakeError::Forbidden => "You are not allowed to join the session as you requested."@,
                HandshakeError::Banned => "You are banned from this server."@,
                HandshakeError::Full => "Session full. There is no space for you."@,
            },
    {
        match self {
            HandshakeError::Invalid => "Your request is invalid.",
            HandshakeError::Unsupported => "You requested something unsupported or disabled.",
            HandshakeError::Forbidden => "You are not allowed to join the session as you requested.",
            HandshakeError::Banned => "You are banned from this server.",
            HandshakeError::Full => "Session full. There is no space for you.",
        }
    }
}

/// Client protocol state: nothing sent yet.
#[derive(Debug, Clone, Copy, PartialEq, Eq, Structural)]
pub struct ProtoStart;

/// Client protocol state: the handshake is done.
#[derive(Debug, Clone, Copy, PartialEq, Eq, Structural)]
pub struct HandshakeComplete;

} // verus!
