//! Messages of the game host protocols: the client handshake and the host
//! administration RPC methods.

pub mod host;
pub mod hostrpc;
