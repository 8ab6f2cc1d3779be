//! The MineWars file and stream format: headers, the replay decoder, and
//! readers for files, initialization sequences and frames.

pub mod header;
pub mod format;
pub mod dec;
pub mod read;
pub mod opt;
