//! Working with individual Game Update Messages: the binary encoding used
//! in streams and files, and a human-readable "assembly" text encoding.

pub mod bin;
pub mod bin_enc;
pub mod bin_laws;
pub mod bin_stream;
pub mod text;
pub mod assembly;
pub mod assembly_enc;
pub mod repr;
pub mod assembly_laws;
pub mod disasm;
