//! The replay decoder: checks a loaded replay file before it is read.

use vstd::prelude::*;
use vstd::slice::slice_subrange;
use crate::deps::{seahash, seahash_of};
use super::format::{FileHeader, InitSeqHeader, file_header_old_of, init_seq_header_of, initseq_data_len_of, init_seq_header_ok};

verus! {

/// Why a replay could not be decoded.
#[derive(Debug, Clone, Copy, PartialEq, Eq, Structural)]
pub enum DecodeError {
    /// The decoder flags are set to an invalid value.
    BadFlags,
    /// The data is of a different format version.
    Version,
    /// A checksum does not match (likely data corruption).
    Checksum,
    /// The data could not be decompressed.
    Compression,
    /// A header holds values that the format does not allow.
    Format,
    /// The data is shorter than its headers say.
    DataLength,
    /// Reserved fields are used.
    Reserved,
    /// A malformed update message.
    OpCode,
}

/// Settings for the decoder: a set of bits.
#[derive(Debug, Clone, Copy, PartialEq, Eq, Structural)]
pub struct DecodeFlags {
    pub bits: u32,
}

impl DecodeFlags {
    /// Ignore invalid checksums (dangerous).
    pub fn no_checksums() -> (r: Self)
        ensures
            r.bits == 0b0001,
    {
        DecodeFlags { bits: 0b0001 }
    }

    /// Ignore usage of reserved fields.
    pub fn allow_reserved() -> (r: Self)
        ensures
            r.bits == 0b0010,
    {
        DecodeFlags { bits: 0b0010 }
    }

    /// Only decode the map data, no update frames.
    pub fn map_only() -> (r: Self)
        ensures
            r.bits == 0b0100,
    {
        DecodeFlags { bits: 0b0100 }
    }

    /// Only decode metadata.
    pub fn metadata() -> (r: Self)
        ensures
            r.bits == 0b1000,
    {
        DecodeFlags { bits: 0b1000 }
    }

    /// Only the header metadata; no frames.
    pub fn header_only() -> (r: Self)
        ensures
            r.bits == 0b1100,
    {
        DecodeFlags { bits: 0b1100 }
    }

    /// The flags of the known bits of `bits`.
    pub fn from_bits_truncate(bits: u32) -> (r: Self)
        ensures
            r.bits == bits & 0b1111,
    {
        DecodeFlags { bits: bits & 0b1111 }
    }

    /// No flags set.
    pub fn default() -> (r: Self)
        ensures
            r.bits == 0,
    {
        DecodeFlags { bits: 0 }
    }

    /// Whether all flags of `other` are set.
    pub fn contains(&self, other: Self) -> (r: bool)
        ensures
            r == (self.bits & other.bits == other.bits),
    {
        self.bits & other.bits == other.bits
    }
}

/// Whether all the given bits are set.
pub open spec fn has_bits(flags: DecodeFlags, bits: u32) -> bool {
    flags.bits & bits == bits
}

/// A decoder for a single view: a stream of player protocol messages.
pub struct ViewDecoder {
    pub flags: DecodeFlags,
    pub data: Vec<u8>,
}

/// A decoder for a frame: multiplexed views.
pub struct FrameDecoder {
    pub flags: DecodeFlags,
    pub data: Vec<u8>,
}

/// A decoder for a spectator stream.
pub struct SpectDecoder {
    pub flags: DecodeFlags,
    pub data: Vec<u8>,
}

/// Where the data of the initialization sequence starts: after both headers.
pub open spec fn initseq_data_start() -> int {
    52int
}

/// Whether `data` is long enough for the checksums to be computed with
/// `flags`: the headers, then the initialization sequence data unless only
/// the header is wanted, then the frame data unless only the map is wanted.
pub open spec fn checksummable(flags: DecodeFlags, data: Seq<u8>) -> bool {
    let fh = file_header_old_of(data, 0);
    let ih = init_seq_header_of(data, 28);
    let frames_start = initseq_data_start() + initseq_data_len_of(ih);
    &&& data.len() >= initseq_data_start()
    &&& !has_bits(flags, 0b1100) ==> frames_start <= data.len()
    &&& !has_bits(flags, 0b0100) ==> frames_start + fh.frames_len_compressed <= data.len()
}

/// The outcome of checking the checksums of a replay: the header checksum
/// covers both headers but the first checksum itself; the next, the data
/// of the initialization sequence; the last, the stored frame data.
pub open spec fn replay_checksums(flags: DecodeFlags, data: Seq<u8>) -> Result<(), DecodeError> {
    let fh = file_header_old_of(data, 0);
    let ih = init_seq_header_of(data, 28);
    let frames_start = initseq_data_start() + initseq_data_len_of(ih);
    if seahash_of(data.subrange(8, initseq_data_start())) != fh.checksum_header {
        Err(DecodeError::Checksum)
    } else if has_bits(flags, 0b1100) {
        Ok(())
    } else if seahash_of(data.subrange(initseq_data_start(), frames_start)) != fh.checksum_initseq_data {
        Err(DecodeError::Checksum)
    } else if has_bits(flags, 0b0100) {
        Ok(())
    } else if seahash_of(data.subrange(frames_start, frames_start + fh.frames_len_compressed)) != fh.checksum_frames {
        Err(DecodeError::Checksum)
    } else {
        Ok(())
    }
}

/// The outcome of checking a replay before decoding it: long enough for its
/// headers, headers acceptable, long enough for all the data of the
/// initialization sequence (player names, city data and stored map data;
/// unless only the header is wanted) and the frame data (unless only the map
/// is wanted), and, unless checksums are to be ignored, the checksums.
pub open spec fn replay_validation(flags: DecodeFlags, data: Seq<u8>) -> Result<(), DecodeError> {
    let fh = file_header_old_of(data, 0);
    let ih = init_seq_header_of(data, 28);
    let expected = initseq_data_start()
        + (if !has_bits(flags, 0b1100) { initseq_data_len_of(ih) } else { 0 })
        + (if !has_bits(flags, 0b0100) { fh.frames_len_compressed as int } else { 0 });
    if data.len() < initseq_data_start() {
        Err(DecodeError::DataLength)
    } else if fh.frames_len_compressed > fh.frames_len_uncompressed {
        Err(DecodeError::Format)
    } else if init_seq_header_ok(ih) is Err {
        init_seq_header_ok(ih)
    } else if data.len() < expected {
        Err(DecodeError::DataLength)
    } else if !has_bits(flags, 0b0001) {
        replay_checksums(flags, data)
    } else {
        Ok(())
    }
}

/// A loaded replay file, checked and ready to be decoded. Handles what is
/// specific to the file format, like decompression and checksums.
pub struct ReplayDecoder {
    flags: DecodeFlags,
    data: Vec<u8>,
}

impl ReplayDecoder {
    /// The decoder's settings.
    pub closed spec fn flags_view(&self) -> DecodeFlags {
        self.flags
    }

    /// The replay's bytes.
    pub closed spec fn data_view(&self) -> Seq<u8> {
        self.data@
    }

    /// Check a replay with default settings (see `from_bytes_with_flags`).
    pub fn from_bytes(data: Vec<u8>) -> (r: Result<Self, DecodeError>)
        ensures
            match replay_validation(DecodeFlags { bits: 0 }, data@) {
                Ok(()) => r matches Ok(d) && d.flags_view() == (DecodeFlags { bits: 0 }) && d.data_view() == data@,
                Err(e) => r matches Err(e2) && e2 == e,
            },
    {
        Self::from_bytes_with_flags(DecodeFlags::default(), data)
    }

    /// Check a replay (see `replay_validation`) and keep it for decoding.
    pub fn from_bytes_with_flags(flags: DecodeFlags, data: Vec<u8>) -> (r: Result<Self, DecodeError>)
        ensures
            match replay_validation(flags, data@) {
                Ok(()) => r matches Ok(d) && d.flags_view() == flags && d.data_view() == data@,
                Err(e) => r matches Err(e2) && e2 == e,
            },
    {
        let r = ReplayDecoder { flags, data };
        match r.validate() {
            Ok(()) => Ok(r),
            Err(e) => Err(e),
        }
    }

    /// Check the checksums (see `replay_checksums`). This can be called
    /// even when the decoder was made to ignore checksums.
    pub fn verify_checksums(&self) -> (r: Result<(), DecodeError>)
        requires
            checksummable(self.flags_view(), self.data_view()),
        ensures
            r == replay_checksums(self.flags_view(), self.data_view()),
    {
        let file_header = self.file_header();
        let initseq_data_start: usize = FileHeader::len() + InitSeqHeader::len();
        let header_data = slice_subrange(self.data.as_slice(), 8, initseq_data_start);
        if seahash(header_data) != file_header.checksum_header {
            return Err(DecodeError::Checksum);
        }
        if self.flags.contains(DecodeFlags::header_only()) {
            return Ok(());
        }
        let initseq_header = self.initseq_header();
        let frames_start = initseq_data_start + initseq_header.initseq_data_len();
        let initseq_data = slice_subrange(self.data.as_slice(), initseq_data_start, frames_start);
        if seahash(initseq_data) != file_header.checksum_initseq_data {
            return Err(DecodeError::Checksum);
        }
        if self.flags.contains(DecodeFlags::map_only()) {
            return Ok(());
        }
        let frames_len = file_header.frames_len_compressed as usize;
        let frames_data = slice_subrange(self.data.as_slice(), frames_start, frames_start + frames_len);
        if seahash(frames_data) != file_header.checksum_frames {
            return Err(DecodeError::Checksum);
        }
        Ok(())
    }

    fn validate(&self) -> (r: Result<(), DecodeError>)
        ensures
            r == replay_validation(self.flags, self.data@),
    {
        let mut expected_len: usize = FileHeader::len() + InitSeqHeader::len();
        if self.data.len() < expected_len {
            return Err(DecodeError::DataLength);
        }
        let file_header = self.file_header();
        file_header.validate()?;
        let initseq_header = self.initseq_header();
        initseq_header.validate()?;
        if !self.flags.contains(DecodeFlags::header_only()) {
            expected_len = expected_len + initseq_header.initseq_data_len();
        }
        if !self.flags.contains(DecodeFlags::map_only()) {
            expected_len = expected_len + file_header.frames_len_compressed as usize;
        }
        if self.data.len() < expected_len {
            return Err(DecodeError::DataLength);
        }
        if !self.flags.contains(DecodeFlags::no_checksums()) {
            let fb = self.flags.bits;
            assert(fb & 0b1100u32 == 0b1100u32 ==> fb & 0b0100u32 == 0b0100u32) by (bit_vector);
            assert(checksummable(self.flags, self.data@));
            self.verify_checksums()?;
        }
        Ok(())
    }

    fn file_header(&self) -> (r: FileHeader)
        requires
            self.data@.len() >= 28,
        ensures
            r == file_header_old_of(self.data@, 0),
    {
        FileHeader::read_at(self.data.as_slice(), 0)
    }

    fn initseq_header(&self) -> (r: InitSeqHeader)
        requires
            self.data@.len() >= initseq_data_start(),
        ensures
            r == init_seq_header_of(self.data@, 28),
    {
        InitSeqHeader::read_at(self.data.as_slice(), FileHeader::len())
    }
}

} // verus!
