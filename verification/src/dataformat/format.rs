//! The headers of the replay file layout read by the replay decoder: all
//! multi-byte fields big-endian.

use vstd::prelude::*;
use super::header::{format_version, format_version_exec, get_be16, get_be64};
use super::dec::DecodeError;

verus! {

/// Flags of the initialization sequence (all bits reserved).
#[derive(Debug, Clone, Copy, PartialEq, Eq, Structural)]
pub struct InitSeqFlags(pub u8);

/// Game parameters.
#[derive(Debug, Clone, Copy, PartialEq, Eq, Structural)]
pub struct GameParams {
    pub res_base: u8,
    pub res_land: u8,
    pub res_fertile: u8,
    pub res_mtn: u8,
    pub radii: u16,
    pub cost_road: u16,
    pub cost_mine: u16,
    pub cost_decoy: u16,
}

/// The header of the initialization sequence (24 bytes).
#[derive(Debug, Clone, Copy, PartialEq, Eq, Structural)]
pub struct InitSeqHeader {
    pub flags: InitSeqFlags,
    pub version: u8,
    pub tickrate: u8,
    pub map_size: u8,
    pub n_players: u8,
    pub n_cities: u8,
    pub playernames_len: u16,
    pub mapdata_len_compressed: u16,
    pub mapdata_len_uncompressed: u16,
    pub game_params: GameParams,
}

/// The header of a replay file (28 bytes).
#[derive(Debug, Clone, Copy, PartialEq, Eq, Structural)]
pub struct FileHeader {
    pub checksum_header: u64,
    pub checksum_initseq_data: u64,
    pub checksum_frames: u64,
    pub frames_len_compressed: u16,
    pub frames_len_uncompressed: u16,
}

/// The header of a frame.
#[derive(Debug, Clone, Copy, PartialEq, Eq, Structural)]
pub struct FrameHeader {
    pub delta: u16,
    pub data_len: u8,
    pub plids: u8,
}

/// Whether a frame carries one stream per view or one stream for all.
#[derive(Debug, Clone, Copy, PartialEq, Eq, Structural)]
pub enum FrameKind {
    Hetero,
    Homo,
}

/// The initialization sequence header that 24 bytes starting at `i` hold.
pub open spec fn init_seq_header_of(b: Seq<u8>, i: int) -> InitSeqHeader {
    InitSeqHeader {
        flags: InitSeqFlags(b[i]),
        version: b[i + 1],
        tickrate: b[i + 2],
        map_size: b[i + 3],
        n_players: b[i + 4],
        n_cities: b[i + 5],
        playernames_len: get_be16(b, i + 6),
        mapdata_len_compressed: get_be16(b, i + 8),
        mapdata_len_uncompressed: get_be16(b, i + 10),
        game_params: GameParams {
            res_base: b[i + 12],
            res_land: b[i + 13],
            res_fertile: b[i + 14],
            res_mtn: b[i + 15],
            radii: get_be16(b, i + 16),
            cost_road: get_be16(b, i + 18),
            cost_mine: get_be16(b, i + 20),
            cost_decoy: get_be16(b, i + 22),
        },
    }
}

/// The file header that 28 bytes starting at `i` hold.
pub open spec fn file_header_old_of(b: Seq<u8>, i: int) -> FileHeader {
    FileHeader {
        checksum_header: get_be64(b, i),
        checksum_initseq_data: get_be64(b, i + 8),
        checksum_frames: get_be64(b, i + 16),
        frames_len_compressed: get_be16(b, i + 24),
        frames_len_uncompressed: get_be16(b, i + 26),
    }
}

/// The length of the data of an initialization sequence: player names,
/// two bytes per city, and the stored map data.
pub open spec fn initseq_data_len_of(h: InitSeqHeader) -> int {
    h.playernames_len + h.n_cities * 2 + h.mapdata_len_compressed
}

/// Whether an initialization sequence header is acceptable: the version
/// byte matches the major format version, the tick rate is set, there are
/// 1 to 16 cities and 1 to 6 players, and the stored map data is no longer
/// than the raw map data.
pub open spec fn init_seq_header_ok(h: InitSeqHeader) -> Result<(), DecodeError> {
    if h.version != format_version().0 {
        Err(DecodeError::Version)
    } else if h.tickrate == 0 || h.n_cities == 0 || h.n_cities > 16 || h.n_players == 0 || h.n_players > 6
        || h.mapdata_len_compressed > h.mapdata_len_uncompressed {
        Err(DecodeError::Format)
    } else {
        Ok(())
    }
}

fn read_be16_at(b: &[u8], i: usize) -> (v: u16)
    requires
        i + 1 < b.len(),
    ensures
        v == get_be16(b@, i as int),
{
    b[i] as u16 * 256 + b[i + 1] as u16
}

fn read_be64_at(b: &[u8], i: usize) -> (v: u64)
    requires
        i + 7 < b.len(),
    ensures
        v == get_be64(b@, i as int),
{
    let hi = (read_be16_at(b, i) as u32 * 0x10000 + read_be16_at(b, i + 2) as u32) as u64;
    let lo = (read_be16_at(b, i + 4) as u32 * 0x10000 + read_be16_at(b, i + 6) as u32) as u64;
    hi * 0x1_0000_0000 + lo
}

impl InitSeqHeader {
    /// The size of the header, in bytes.
    pub fn len() -> (r: usize)
        ensures
            r == 24,
    {
        24
    }

    /// The header held by the 24 bytes at `i` of `b`.
    pub fn read_at(b: &[u8], i: usize) -> (r: Self)
        requires
            i + 24 <= b.len(),
        ensures
            r == init_seq_header_of(b@, i as int),
    {
        InitSeqHeader {
            flags: InitSeqFlags(b[i]),
            version: b[i + 1],
            tickrate: b[i + 2],
            map_size: b[i + 3],
            n_players: b[i + 4],
            n_cities: b[i + 5],
            playernames_len: read_be16_at(b, i + 6),
            mapdata_len_compressed: read_be16_at(b, i + 8),
            mapdata_len_uncompressed: read_be16_at(b, i + 10),
            game_params: GameParams {
                res_base: b[i + 12],
                res_land: b[i + 13],
                res_fertile: b[i + 14],
                res_mtn: b[i + 15],
                radii: read_be16_at(b, i + 16),
                cost_road: read_be16_at(b, i + 18),
                cost_mine: read_be16_at(b, i + 20),
                cost_decoy: read_be16_at(b, i + 22),
            },
        }
    }

    /// The length of the data of the initialization sequence.
    pub fn initseq_data_len(&self) -> (r: usize)
        ensures
            r == initseq_data_len_of(*self),
    {
        self.playernames_len as usize + self.n_cities as usize * 2 + self.mapdata_len_compressed as usize
    }

    /// Check that the header is acceptable (see `init_seq_header_ok`).
    pub fn validate(&self) -> (r: Result<(), DecodeError>)
        ensures
            r == init_seq_header_ok(*self),
    {
        if self.version != format_version_exec().0 {
            return Err(DecodeError::Version);
        }
        if self.tickrate == 0 || self.n_cities == 0 || self.n_cities > 16 || self.n_players == 0 || self.n_players > 6
            || self.mapdata_len_compressed > self.mapdata_len_uncompressed {
            return Err(DecodeError::Format);
        }
        Ok(())
    }
}

impl FileHeader {
    /// The size of the header, in bytes.
    pub fn len() -> (r: usize)
        ensures
            r == 28,
    {
        28
    }

    /// The header held by the 28 bytes at `i` of `b`.
    pub fn read_at(b: &[u8], i: usize) -> (r: Self)
        requires
            i + 28 <= b.len(),
        ensures
            r == file_header_old_of(b@, i as int),
    {
        FileHeader {
            checksum_header: read_be64_at(b, i),
            checksum_initseq_data: read_be64_at(b, i + 8),
            checksum_frames: read_be64_at(b, i + 16),
            frames_len_compressed: read_be16_at(b, i + 24),
            frames_len_uncompressed: read_be16_at(b, i + 26),
        }
    }

    /// Check that the stored frame data is no longer than the raw frame data.
    pub fn validate(&self) -> (r: Result<(), DecodeError>)
        ensures
            r == if self.frames_len_compressed > self.frames_len_uncompressed {
                Err(DecodeError::Format)
            } else {
                Ok(())
            },
    {
        if self.frames_len_compressed > self.frames_len_uncompressed {
            return Err(DecodeError::Format);
        }
        Ok(())
    }
}

impl FrameHeader {
    /// The kind of the frame: homogenous when the top bit of `plids` is set.
    pub fn kind(&self) -> (r: FrameKind)
        ensures
            r == if self.plids >= 0x80 { FrameKind::Homo } else { FrameKind::Hetero },
    {
        let p = self.plids;
        assert(p & 0x80u8 != 0 <==> p >= 0x80) by (bit_vector);
        if p & 0b10000000 != 0 {
            FrameKind::Homo
        } else {
            FrameKind::Hetero
        }
    }
}

} // verus!
