//! MineWars core library: player ids, grid coordinates, game event codecs,
//! the replay/stream data format and server-side abuse detection.

pub mod algo;
pub mod search;
pub mod plid;
pub mod time;
pub mod grid;
pub mod game;
pub mod deps;
pub mod msg;
pub mod abuse;
pub mod dataformat;
pub mod gfx3d;
pub mod net;
pub mod proto;
pub mod auth;
