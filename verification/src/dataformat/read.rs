//! Reading MineWars files and streams held in memory: the headers, the
//! checksums, the Initialization Sequence, and the frames.

use vstd::prelude::*;
use vstd::slice::slice_subrange;
use crate::deps::{seahash, seahash_of, lz4_decompress_into, lz4_block_decoded, has_ff_run, ff_run_at, LZ4_FF_RUN_LIMIT};
use crate::grid::Topology;
use crate::grid::pos::Pos;
use super::header::{ISHeader, MwFileHeader, Version, format_version, format_version_exec,
    is_header_bytes, is_header_of, file_header_bytes, file_header_of, file_header_tail_bytes, topology_of_flags, map_area_of};

verus! {

/// Which checksum did not match.
#[derive(Debug, Clone, Copy, PartialEq, Eq, Structural)]
pub enum ChecksumError {
    /// Corrupted headers.
    BadHeader,
    /// Corrupted Initialization Sequence data (map/city/player info/rules).
    BadIS,
    /// Corrupted frame data (gameplay messages).
    BadFrames,
}

/// Why reading failed.
#[derive(Debug, Clone, Copy, PartialEq, Eq, Structural)]
pub enum MwReaderError {
    /// The data ended before what was to be read.
    Io,
    /// The format version is incompatible.
    VersionIncompatible,
    /// A checksum is invalid.
    Checksum(ChecksumError),
    /// Compressed data was to be read as uncompressed.
    DataIsCompressed,
    /// The data could not be decompressed.
    Compression,
    /// The map is of another grid topology.
    WrongTopology,
}

/// The sum of the lengths in an Initialization Sequence header.
pub open spec fn is_data_len(h: ISHeader) -> int {
    h.len_mapdata_compressed + 2 * h.n_regions + h.len_citdata_names + h.len_playerdata + h.len_rules
}

/// The sizes of the parts of a file fit in a `u64`, and the headers' sums
/// in a `usize`.
pub open spec fn file_sizes_fit(fh: MwFileHeader, ih: ISHeader) -> bool {
    &&& 52 + is_data_len(ih) + fh.len_framedata_raw + fh.len_framedata_compressed <= usize::MAX
}

/// The checksum of the headers: of both serialized headers but the first
/// checksum.
pub open spec fn header_checksum(fh: MwFileHeader, ih: ISHeader) -> u64 {
    seahash_of((file_header_bytes(fh) + is_header_bytes(ih)).subrange(8, 52))
}

/// The checksum of the Initialization Sequence data, if the file holds it all.
pub open spec fn is_checksum(data: Seq<u8>, ih: ISHeader) -> Option<u64> {
    if 52 + is_data_len(ih) <= data.len() {
        Some(seahash_of(data.subrange(52, 52 + is_data_len(ih))))
    } else {
        None
    }
}

/// Where the frame data starts in a file.
pub open spec fn frames_offset(ih: ISHeader) -> int {
    32 + 20 + is_data_len(ih)
}

/// The checksum of the stored frame data, if the file holds it all.
pub open spec fn frames_checksum(data: Seq<u8>, fh: MwFileHeader, ih: ISHeader) -> Option<u64> {
    if frames_offset(ih) + fh.len_framedata_compressed <= data.len() {
        Some(seahash_of(data.subrange(frames_offset(ih), frames_offset(ih) + fh.len_framedata_compressed)))
    } else {
        None
    }
}

/// The outcome of checking all three checksums, in order.
pub open spec fn checksums_outcome(data: Seq<u8>, fh: MwFileHeader, ih: ISHeader) -> Result<(), MwReaderError> {
    if header_checksum(fh, ih) != fh.checksum_header {
        Err(MwReaderError::Checksum(ChecksumError::BadHeader))
    } else if is_checksum(data, ih) is None {
        Err(MwReaderError::Io)
    } else if is_checksum(data, ih) != Some(fh.checksum_is) {
        Err(MwReaderError::Checksum(ChecksumError::BadIS))
    } else if frames_checksum(data, fh, ih) is None {
        Err(MwReaderError::Io)
    } else if frames_checksum(data, fh, ih) != Some(fh.checksum_framedata) {
        Err(MwReaderError::Checksum(ChecksumError::BadFrames))
    } else {
        Ok(())
    }
}

/// A reader of a whole MineWars file held in memory.
pub struct MwFileReader {
    data: Vec<u8>,
    file_header: MwFileHeader,
    is_header: ISHeader,
}

/// Marks that a file reader went on to its Initialization Sequence.
pub struct MwFileReaderAwaitsIS {
    _a: (),
}

impl MwFileReader {
    /// The file's bytes.
    pub closed spec fn data_view(&self) -> Seq<u8> {
        self.data@
    }

    /// The file header in use.
    pub closed spec fn file_header_view(&self) -> MwFileHeader {
        self.file_header
    }

    /// The Initialization Sequence header.
    pub closed spec fn is_header_view(&self) -> ISHeader {
        self.is_header
    }

    /// Read the headers of a file: it must hold both, and its version must
    /// be compatible with this library's.
    pub fn new(data: Vec<u8>) -> (r: Result<Self, MwReaderError>)
        ensures
            data@.len() < 52 ==> r == Err::<Self, MwReaderError>(MwReaderError::Io),
            data@.len() >= 52 ==> {
                let fh = file_header_of(data@.subrange(0, 32));
                let ih = is_header_of(data@.subrange(32, 52));
                if ih.version.0 == format_version().0 && ih.version.1 == format_version().1 && ih.version.2 == format_version().2 {
                    r matches Ok(f) && f.data_view() == data@ && f.file_header_view() == fh && f.is_header_view() == ih
                } else {
                    r == Err::<Self, MwReaderError>(MwReaderError::VersionIncompatible)
                }
            },
    {
        if data.len() < 32 {
            return Err(MwReaderError::Io);
        }
        let file_header = MwFileHeader::deserialize(slice_subrange(data.as_slice(), 0, 32));
        if data.len() < 52 {
            return Err(MwReaderError::Io);
        }
        let is_header = ISHeader::deserialize(slice_subrange(data.as_slice(), 32, 52));
        if !is_header.version_is_compatible(format_version_exec()) {
            return Err(MwReaderError::VersionIncompatible);
        }
        Ok(MwFileReader { data, file_header, is_header })
    }

    /// The file's bytes.
    pub fn into_inner(self) -> (r: Vec<u8>)
        ensures
            r@ == self.data_view(),
    {
        self.data
    }

    /// The file header in use.
    pub fn file_header(&self) -> (r: MwFileHeader)
        ensures
            r == self.file_header_view(),
    {
        self.file_header
    }

    /// The Initialization Sequence header.
    pub fn is_header(&self) -> (r: ISHeader)
        ensures
            r == self.is_header_view(),
    {
        self.is_header
    }

    /// Go on to the Initialization Sequence, which starts after both headers.
    pub fn read_is(self) -> (r: (MwFileReaderAwaitsIS, MwISReader))
        ensures
            r.1.data_view() == self.data_view(),
            r.1.off_data_view() == 52,
            r.1.header_view() == self.is_header_view(),
    {
        (MwFileReaderAwaitsIS { _a: () }, MwISReader { data: self.data, off_data: 52, is_header: self.is_header })
    }

    /// Whether the frame data is stored compressed.
    pub fn is_framedata_compressed(&self) -> (r: bool)
        ensures
            r == (self.file_header_view().len_framedata_compressed != self.file_header_view().len_framedata_raw),
    {
        self.file_header.is_framedata_compressed()
    }

    /// The checksum of the headers as they are now.
    pub fn compute_new_checksum_header(&self) -> (r: u64)
        ensures
            r == header_checksum(self.file_header_view(), self.is_header_view()),
    {
        let mut buf: Vec<u8> = Vec::new();
        self.file_header.serialize(&mut buf);
        self.is_header.serialize(&mut buf);
        proof {
            super::header::lemma_is_header_roundtrip(self.is_header);
            super::header::lemma_file_header_roundtrip(self.file_header);
            assert(buf@ =~= file_header_bytes(self.file_header) + is_header_bytes(self.is_header));
        }
        let skip = MwFileHeader::checksummable_start_offset();
        seahash(slice_subrange(buf.as_slice(), skip, buf.len()))
    }

    /// The checksum of the Initialization Sequence data.
    pub fn compute_new_checksum_isdata(&self) -> (r: Result<u64, MwReaderError>)
        requires
            file_sizes_fit(self.file_header_view(), self.is_header_view()),
        ensures
            match is_checksum(self.data_view(), self.is_header_view()) {
                Some(c) => r == Ok::<u64, MwReaderError>(c),
                None => r == Err::<u64, MwReaderError>(MwReaderError::Io),
            },
    {
        let start: usize = 52;
        let len = self.is_header.len_total_data();
        if self.data.len() < start || self.data.len() - start < len {
            return Err(MwReaderError::Io);
        }
        Ok(seahash(slice_subrange(self.data.as_slice(), start, start + len)))
    }

    /// The checksum of the stored frame data.
    pub fn compute_new_checksum_framedata(&self) -> (r: Result<u64, MwReaderError>)
        requires
            file_sizes_fit(self.file_header_view(), self.is_header_view()),
        ensures
            match frames_checksum(self.data_view(), self.file_header_view(), self.is_header_view()) {
                Some(c) => r == Ok::<u64, MwReaderError>(c),
                None => r == Err::<u64, MwReaderError>(MwReaderError::Io),
            },
    {
        let start = 32 + self.is_header.len_total_is();
        let len = self.file_header.len_framedata_compressed();
        if self.data.len() < start || self.data.len() - start < len {
            return Err(MwReaderError::Io);
        }
        Ok(seahash(slice_subrange(self.data.as_slice(), start, start + len)))
    }

    /// Check the header checksum.
    pub fn verify_checksum_header(&self) -> (r: Result<(), MwReaderError>)
        ensures
            r is Ok <==> header_checksum(self.file_header_view(), self.is_header_view()) == self.file_header_view().checksum_header,
            r is Err ==> r == Err::<(), MwReaderError>(MwReaderError::Checksum(ChecksumError::BadHeader)),
    {
        if self.compute_new_checksum_header() != self.file_header.checksum_header {
            return Err(MwReaderError::Checksum(ChecksumError::BadHeader));
        }
        Ok(())
    }

    /// Check the Initialization Sequence data checksum.
    pub fn verify_checksum_isdata(&self) -> (r: Result<(), MwReaderError>)
        requires
            file_sizes_fit(self.file_header_view(), self.is_header_view()),
        ensures
            r == match is_checksum(self.data_view(), self.is_header_view()) {
                None => Err(MwReaderError::Io),
                Some(c) => if c == self.file_header_view().checksum_is {
                    Ok(())
                } else {
                    Err(MwReaderError::Checksum(ChecksumError::BadIS))
                },
            },
    {
        if self.compute_new_checksum_isdata()? != self.file_header.checksum_is {
            return Err(MwReaderError::Checksum(ChecksumError::BadIS));
        }
        Ok(())
    }

    /// Check the frame data checksum.
    pub fn verify_checksum_framedata(&self) -> (r: Result<(), MwReaderError>)
        requires
            file_sizes_fit(self.file_header_view(), self.is_header_view()),
        ensures
            r == match frames_checksum(self.data_view(), self.file_header_view(), self.is_header_view()) {
                None => Err(MwReaderError::Io),
                Some(c) => if c == self.file_header_view().checksum_framedata {
                    Ok(())
                } else {
                    Err(MwReaderError::Checksum(ChecksumError::BadFrames))
                },
            },
    {
        if self.compute_new_checksum_framedata()? != self.file_header.checksum_framedata {
            return Err(MwReaderError::Checksum(ChecksumError::BadFrames));
        }
        Ok(())
    }

    /// Check all three checksums (see `checksums_outcome`).
    pub fn verify_checksums(&self) -> (r: Result<(), MwReaderError>)
        requires
            file_sizes_fit(self.file_header_view(), self.is_header_view()),
        ensures
            r == checksums_outcome(self.data_view(), self.file_header_view(), self.is_header_view()),
    {
        self.verify_checksum_header()?;
        self.verify_checksum_isdata()?;
        self.verify_checksum_framedata()?;
        Ok(())
    }

    /// Recompute all three checksums and store them in the file header: the
    /// frame data's, then the Initialization Sequence's, then the headers'
    /// (which covers the other two).
    pub fn compute_and_force_update_checksums(&mut self) -> (r: Result<(), MwReaderError>)
        requires
            file_sizes_fit(old(self).file_header_view(), old(self).is_header_view()),
        ensures
            final(self).data_view() == old(self).data_view(),
            final(self).is_header_view() == old(self).is_header_view(),
            frames_checksum(old(self).data_view(), old(self).file_header_view(), old(self).is_header_view()) is None
                ==> r == Err::<(), MwReaderError>(MwReaderError::Io) && *final(self) == *old(self),
            frames_checksum(old(self).data_view(), old(self).file_header_view(), old(self).is_header_view()) is Some
                && is_checksum(old(self).data_view(), old(self).is_header_view()) is None
                ==> r == Err::<(), MwReaderError>(MwReaderError::Io)
                && final(self).file_header_view() == (MwFileHeader {
                    checksum_framedata: frames_checksum(old(self).data_view(), old(self).file_header_view(), old(self).is_header_view())->Some_0,
                    ..old(self).file_header_view()
                }),
            r is Ok <==> frames_checksum(old(self).data_view(), old(self).file_header_view(), old(self).is_header_view()) is Some
                && is_checksum(old(self).data_view(), old(self).is_header_view()) is Some,
            r is Ok ==> ({
                let fh1 = MwFileHeader {
                    checksum_framedata: frames_checksum(old(self).data_view(), old(self).file_header_view(), old(self).is_header_view())->Some_0,
                    checksum_is: is_checksum(old(self).data_view(), old(self).is_header_view())->Some_0,
                    ..old(self).file_header_view()
                };
                final(self).file_header_view() == (MwFileHeader {
                    checksum_header: header_checksum(fh1, old(self).is_header_view()),
                    ..fh1
                })
            }),
            r is Ok ==> checksums_outcome(final(self).data_view(), final(self).file_header_view(),
                final(self).is_header_view()) == Ok::<(), MwReaderError>(()),
    {
        let c_frames = self.compute_new_checksum_framedata()?;
        self.file_header.checksum_framedata = c_frames;
        let c_is = self.compute_new_checksum_isdata()?;
        self.file_header.checksum_is = c_is;
        let c_header = self.compute_new_checksum_header();
        self.file_header.checksum_header = c_header;
        proof {
            lemma_updated_checksums_verify(old(self).data_view(), old(self).file_header_view(), old(self).is_header_view());
        }
        Ok(())
    }
}

/// After the checksums were recomputed, checking them succeeds.
pub proof fn lemma_updated_checksums_verify(data: Seq<u8>, fh: MwFileHeader, ih: ISHeader)
    requires
        frames_checksum(data, fh, ih) is Some,
        is_checksum(data, ih) is Some,
    ensures
        ({
            let fh1 = MwFileHeader {
                checksum_framedata: frames_checksum(data, fh, ih)->Some_0,
                checksum_is: is_checksum(data, ih)->Some_0,
                ..fh
            };
            let fh2 = MwFileHeader { checksum_header: header_checksum(fh1, ih), ..fh1 };
            checksums_outcome(data, fh2, ih) == Ok::<(), MwReaderError>(())
        }),
{
    let fh1 = MwFileHeader {
        checksum_framedata: frames_checksum(data, fh, ih)->Some_0,
        checksum_is: is_checksum(data, ih)->Some_0,
        ..fh
    };
    let fh2 = MwFileHeader { checksum_header: header_checksum(fh1, ih), ..fh1 };
    // the header checksum skips the field it is stored in
    super::header::lemma_file_header_split(fh1);
    super::header::lemma_file_header_split(fh2);
    super::header::lemma_is_header_roundtrip(ih);
    assert(file_header_tail_bytes(fh1) == file_header_tail_bytes(fh2));
    assert((file_header_bytes(fh2) + is_header_bytes(ih)).subrange(8, 52) =~= file_header_tail_bytes(fh2) + is_header_bytes(ih));
    assert((file_header_bytes(fh1) + is_header_bytes(ih)).subrange(8, 52) =~= file_header_tail_bytes(fh1) + is_header_bytes(ih));
}

/// A reader of a bare Initialization Sequence held in memory.
pub struct MwISReader {
    data: Vec<u8>,
    off_data: u32,
    is_header: ISHeader,
}

impl MwISReader {
    /// The bytes.
    pub closed spec fn data_view(&self) -> Seq<u8> {
        self.data@
    }

    /// Where the data after the header starts.
    pub closed spec fn off_data_view(&self) -> int {
        self.off_data as int
    }

    /// The header.
    pub closed spec fn header_view(&self) -> ISHeader {
        self.is_header
    }

    /// Read the header at the start of `data`; the data follows it.
    pub fn new(data: Vec<u8>) -> (r: Result<Self, MwReaderError>)
        ensures
            data@.len() < 20 ==> r == Err::<Self, MwReaderError>(MwReaderError::Io),
            data@.len() >= 20 ==> (r matches Ok(s) && s.data_view() == data@ && s.off_data_view() == 20
                && s.header_view() == is_header_of(data@.subrange(0, 20))),
    {
        if data.len() < 20 {
            return Err(MwReaderError::Io);
        }
        let is_header = ISHeader::deserialize(slice_subrange(data.as_slice(), 0, 20));
        Ok(MwISReader { data, off_data: 20, is_header })
    }

    /// The bytes.
    pub fn into_inner(self) -> (r: Vec<u8>)
        ensures
            r@ == self.data_view(),
    {
        self.data
    }

    /// The header.
    pub fn header(&self) -> (r: ISHeader)
        ensures
            r == self.header_view(),
    {
        self.is_header
    }

    /// The highest player id.
    pub fn max_plid(&self) -> (r: u8)
        ensures
            r == self.header_view().n_players,
    {
        self.is_header.max_plid()
    }

    /// The highest sub-player id (see `ISHeader::max_sub_plid`).
    pub fn max_sub_plid(&self) -> (r: u8)
        ensures
            r == 14,
    {
        self.is_header.max_sub_plid()
    }

    /// The number of regions (cities).
    pub fn n_regions(&self) -> (r: u8)
        ensures
            r == self.header_view().n_regions,
    {
        self.is_header.n_regions
    }

    /// The radius of the map.
    pub fn map_size(&self) -> (r: u8)
        ensures
            r == self.header_view().map_size,
    {
        self.is_header.map_size
    }

    /// The topology of the map.
    pub fn map_topology(&self) -> (r: Topology)
        ensures
            r == topology_of_flags(self.header_view().flags),
    {
        self.is_header.map_topology()
    }

    /// Whether the map data is stored compressed.
    pub fn is_mapdata_compressed(&self) -> (r: bool)
        requires
            topology_of_flags(self.header_view().flags) == Topology::Hex ==> self.header_view().map_size >= 1,
        ensures
            r == (self.header_view().len_mapdata_compressed as int
                != 2 * map_area_of(topology_of_flags(self.header_view().flags), self.header_view().map_size)),
    {
        self.is_header.is_mapdata_compressed()
    }

    /// The positions of the cities: two bytes each (y, then x).
    pub fn read_cits_pos(&self) -> (r: Result<Vec<Pos>, MwReaderError>)
        requires
            self.off_data_view() + is_data_len(self.header_view()) + 20 <= usize::MAX,
        ensures
            ({
                let start = self.off_data_view() + self.header_view().len_mapdata_compressed;
                let n = self.header_view().n_regions as int;
                if start + 2 * n <= self.data_view().len() {
                    r matches Ok(v) && v@.len() == n && forall|i: int| 0 <= i < n ==> #[trigger] v@[i]
                        == Pos(self.data_view()[start + 2 * i] as i8, self.data_view()[start + 2 * i + 1] as i8)
                } else {
                    r == Err::<Vec<Pos>, MwReaderError>(MwReaderError::Io)
                }
            }),
    {
        let start = self.off_data as usize + self.is_header.offset_citdata_pos();
        let len = self.is_header.len_citdata_pos();
        if self.data.len() < start || self.data.len() - start < len {
            return Err(MwReaderError::Io);
        }
        let n = self.is_header.n_regions as usize;
        let mut out: Vec<Pos> = Vec::new();
        let mut i: usize = 0;
        while i < n
            invariant
                i <= n,
                n == self.header_view().n_regions,
                start + 2 * n <= self.data@.len(),
                self.data@.len() <= usize::MAX,
                out@.len() == i,
                forall|k: int| 0 <= k < i ==> #[trigger] out@[k]
                    == Pos(self.data@[start + 2 * k] as i8, self.data@[start + 2 * k + 1] as i8),
            decreases n - i,
        {
            assert(start + 2 * i + 1 < self.data@.len());
            out.push(Pos(self.data[start + 2 * i] as i8, self.data[start + 2 * i + 1] as i8));
            i = i + 1;
        }
        Ok(out)
    }

    /// The names of the cities: an iterator over their bytes.
    pub fn read_cits_names(&self) -> (r: Result<CitNamesIter, MwReaderError>)
        requires
            self.off_data_view() + is_data_len(self.header_view()) + 20 <= usize::MAX,
        ensures
            ({
                let start = self.off_data_view() + self.header_view().len_mapdata_compressed + 2 * self.header_view().n_regions;
                let len = self.header_view().len_citdata_names as int;
                if start + len <= self.data_view().len() {
                    r matches Ok(it) && it.buf_view() == self.data_view().subrange(start, start + len)
                        && it.current_view() == 0 && it.total_view() == self.header_view().n_regions
                } else {
                    r == Err::<CitNamesIter, MwReaderError>(MwReaderError::Io)
                }
            }),
    {
        let start = self.off_data as usize + self.is_header.offset_citdata_names();
        let len = self.is_header.len_citdata_names();
        if self.data.len() < start || self.data.len() - start < len {
            return Err(MwReaderError::Io);
        }
        let mut buf: Vec<u8> = Vec::new();
        let mut i: usize = 0;
        while i < len
            invariant
                i <= len,
                start + len <= self.data@.len(),
                self.data@.len() <= usize::MAX,
                buf@ == self.data@.subrange(start as int, start + i),
            decreases len - i,
        {
            buf.push(self.data[start + i]);
            i = i + 1;
            assert(buf@ =~= self.data@.subrange(start as int, start + i));
        }
        Ok(CitNamesIter { current_cit: 0, total_cits: self.is_header.n_regions, buf })
    }
}

/// The name of the next city and the bytes after it: a length byte, then at
/// most that many bytes (fewer where the data ends). An empty buffer gives
/// an empty name.
pub open spec fn next_name(buf: Seq<u8>) -> (Seq<u8>, Seq<u8>) {
    if buf.len() == 0 {
        (seq![], buf)
    } else {
        let n = if buf[0] < buf.len() - 1 { buf[0] as int } else { buf.len() - 1 };
        (buf.subrange(1, 1 + n), buf.subrange(1 + n, buf.len() as int))
    }
}

/// An iterator over the names of the cities, as bytes.
pub struct CitNamesIter {
    current_cit: u8,
    total_cits: u8,
    buf: Vec<u8>,
}

impl CitNamesIter {
    /// The bytes not yet read.
    pub closed spec fn buf_view(&self) -> Seq<u8> {
        self.buf@
    }

    /// How many names were read.
    pub closed spec fn current_view(&self) -> u8 {
        self.current_cit
    }

    /// How many names there are.
    pub closed spec fn total_view(&self) -> u8 {
        self.total_cits
    }

    /// The next name, while there are names left.
    pub fn next(&mut self) -> (r: Option<Vec<u8>>)
        ensures
            old(self).current_view() >= old(self).total_view() ==> r is None && *final(self) == *old(self),
            old(self).current_view() < old(self).total_view() ==> {
                &&& r matches Some(name) && name@ == next_name(old(self).buf_view()).0
                &&& final(self).buf_view() == next_name(old(self).buf_view()).1
                &&& final(self).current_view() == old(self).current_view() + 1
                &&& final(self).total_view() == old(self).total_view()
            },
    {
        if self.current_cit >= self.total_cits {
            return None;
        }
        self.current_cit = self.current_cit + 1;
        if self.buf.len() == 0 {
            return Some(Vec::new());
        }
        let strlen: usize = if (self.buf[0] as usize) < self.buf.len() - 1 { self.buf[0] as usize } else { self.buf.len() - 1 };
        let ghost b = self.buf@;
        let mut out: Vec<u8> = Vec::new();
        let mut i: usize = 1;
        while i <= strlen
            invariant
                1 <= i <= strlen + 1,
                strlen < b.len(),
                b.len() <= usize::MAX,
                b == self.buf@,
                out@ == b.subrange(1, i as int),
            decreases strlen + 1 - i,
        {
            out.push(self.buf[i]);
            i = i + 1;
            assert(out@ =~= b.subrange(1, i as int));
        }
        let mut rest: Vec<u8> = Vec::new();
        while i < self.buf.len()
            invariant
                strlen + 1 <= i <= b.len(),
                b == self.buf@,
                rest@ == b.subrange(strlen + 1, i as int),
            decreases b.len() - i,
        {
            rest.push(self.buf[i]);
            i = i + 1;
            assert(rest@ =~= b.subrange(strlen + 1, i as int));
        }
        self.buf = rest;
        Some(out)
    }

    /// How many names are left.
    pub fn len(&self) -> (r: usize)
        ensures
            r == if self.total_view() >= self.current_view() { self.total_view() - self.current_view() } else { 0 },
    {
        if self.total_cits >= self.current_cit {
            (self.total_cits - self.current_cit) as usize
        } else {
            0
        }
    }
}

/// What a frame is.
#[derive(Debug, Clone, Copy, PartialEq, Eq, Hash, Structural)]
pub enum FrameKind {
    /// No frame was read yet.
    Unknown,
    /// A frame that only advances the time.
    Keepalive,
    /// A frame with a stream for each view in it.
    Heterogenous,
    /// A frame with one stream for all views in it.
    Homogenous,
}

/// The number of set bits of a byte.
pub open spec fn ones(b: u8) -> nat
    decreases b,
{
    if b == 0 { 0 } else { (b % 2) as nat + ones(b / 2) }
}

/// Whether bit `bit` of `b` is set.
pub open spec fn bit_set(b: u8, bit: int) -> bool {
    (b as int / pow2_8(bit)) % 2 == 1
}

/// 2 to the power of a bit index below 8.
pub open spec fn pow2_8(bit: int) -> int {
    if bit <= 0 { 1 } else if bit == 1 { 2 } else if bit == 2 { 4 } else if bit == 3 { 8 }
    else if bit == 4 { 16 } else if bit == 5 { 32 } else if bit == 6 { 64 } else { 128 }
}

/// The length of the mask of views of a frame, for players up to `max_plid`.
pub open spec fn len_mask(max_plid: u8) -> int {
    (max_plid + 1) / 8 + 1
}

/// The state of a frame reader.
pub struct FrameState {
    /// Where the current frame starts.
    pub off: u64,
    /// The time of the current frame, in milliseconds.
    pub time: u64,
    /// The number of views in a heterogenous frame.
    pub n_views: u8,
    /// What the current frame is.
    pub kind: FrameKind,
    /// The frame's bytes after its time delta that were read.
    pub buf: Seq<u8>,
}

/// The sum of the stream lengths stored at `from` onwards in `buf`.
pub open spec fn sum_lens(buf: Seq<u8>, from: int, n: int) -> int
    decreases n,
{
    if n <= 0 { 0 } else { sum_lens(buf, from, n - 1) + buf[from + n - 1] + 1 }
}

/// The size of the current frame.
pub open spec fn frame_size(st: FrameState, lm: int) -> int {
    match st.kind {
        FrameKind::Unknown => 0,
        FrameKind::Keepalive => 2,
        FrameKind::Heterogenous => 2 + lm + st.n_views + sum_lens(st.buf, lm, st.n_views as int),
        FrameKind::Homogenous => 3 + lm + st.buf[lm] + 1,
    }
}

/// Whether the frame size can be computed from what was read.
pub open spec fn frame_size_readable(st: FrameState, lm: int) -> bool {
    match st.kind {
        FrameKind::Heterogenous => lm + st.n_views <= st.buf.len(),
        FrameKind::Homogenous => lm < st.buf.len(),
        _ => true,
    }
}

/// The number of views of a heterogenous frame: the set bits of its mask
/// (of one or two bytes).
pub open spec fn mask_views(mask: Seq<u8>) -> nat {
    if mask.len() == 1 { ones(mask[0]) } else { ones(mask[0]) + ones(mask[1]) }
}

/// The state after reading the next frame of `data`, or the error.
pub open spec fn advance(data: Seq<u8>, st: FrameState, max_plid: u8) -> Result<FrameState, MwReaderError> {
    let lm = len_mask(max_plid);
    let off = st.off + frame_size(st, lm);
    if off + 2 > data.len() {
        Err(MwReaderError::Io)
    } else {
        let h = data[off] * 256 + data[off + 1];
        let delta = h % 0x8000;
        if delta == 0x7FFF {
            Ok(FrameState { off: off as u64, time: (st.time + 0x8000) as u64, kind: FrameKind::Keepalive, n_views: st.n_views,
                buf: data.subrange(off, off + 2) })
        } else if h >= 0x8000 {
            if off + 2 + lm + 1 > data.len() || off + 2 + lm + 1 + data[off + 2 + lm] + 1 > data.len() {
                Err(MwReaderError::Io)
            } else {
                Ok(FrameState { off: off as u64, time: (st.time + delta) as u64, kind: FrameKind::Homogenous, n_views: 0,
                    buf: data.subrange(off + 2, off + 2 + lm + 1 + data[off + 2 + lm] + 1) })
            }
        } else {
            if off + 2 + lm > data.len() {
                Err(MwReaderError::Io)
            } else {
                let nv = mask_views(data.subrange(off + 2, off + 2 + lm));
                if off + 2 + lm + nv > data.len() {
                    Err(MwReaderError::Io)
                } else {
                    Ok(FrameState { off: off as u64, time: (st.time + delta) as u64, kind: FrameKind::Heterogenous, n_views: nv as u8,
                        buf: data.subrange(off + 2, off + 2 + lm + nv) })
                }
            }
        }
    }
}

/// The replay clock never goes backwards: moving to the next frame adds the
/// delta of that frame's two header bytes (their low 15 bits; 32768 for a
/// keepalive) to the current time.
pub proof fn lemma_advance_time_monotone(data: Seq<u8>, st: FrameState, max_plid: u8)
    requires
        st.time + 0x8000 <= u64::MAX,
    ensures
        advance(data, st, max_plid) matches Ok(nx) ==> {
            let off = st.off + frame_size(st, len_mask(max_plid));
            let h = data[off] * 256 + data[off + 1];
            &&& nx.time >= st.time
            &&& nx.time == st.time + if h % 0x8000 == 0x7FFF { 0x8000 } else { h % 0x8000 }
        },
{
}

/// Whether the frame after the current one is a heterogenous frame: its
/// two header bytes are there and hold neither the keepalive value nor the
/// homogenous bit.
pub open spec fn next_frame_hetero(data: Seq<u8>, st: FrameState, max_plid: u8) -> bool {
    let off = st.off + frame_size(st, len_mask(max_plid));
    off + 2 <= data.len() && data[off] * 256 + data[off + 1] < 0x7FFF
}

/// The mask byte and bit that the reader consults for view `i` (the byte
/// index counts down from the mask's length).
pub open spec fn view_bit(buf: Seq<u8>, lm: int, i: int) -> bool {
    bit_set(buf[lm - i / 8], i % 8)
}

/// Whether view `p` is in the current frame, as the reader checks it.
pub open spec fn frame_contains(st: FrameState, max_plid: u8, p: u8) -> bool {
    match st.kind {
        FrameKind::Unknown | FrameKind::Keepalive => false,
        _ => p <= max_plid && view_bit(st.buf, len_mask(max_plid), p as int),
    }
}

/// Whether checking view `p` stays within what was read.
pub open spec fn frame_contains_readable(st: FrameState, max_plid: u8, p: u8) -> bool {
    match st.kind {
        FrameKind::Unknown | FrameKind::Keepalive => true,
        _ => p <= max_plid ==> len_mask(max_plid) - p / 8 < st.buf.len(),
    }
}

/// The number of set bits of a byte.
fn pop_u8(b: u8) -> (n: u8)
    ensures
        n == ones(b),
{
    let mut n: u8 = 0;
    let mut x: u8 = b;
    proof {
        lemma_ones_le8(b);
    }
    while x > 0
        invariant
            n + ones(x) == ones(b),
            ones(x) <= 8,
            n <= 8,
        decreases x,
    {
        proof {
            lemma_ones_le8(x);
            lemma_ones_le8(b);
        }
        n = n + x % 2;
        x = x / 2;
    }
    n
}

proof fn lemma_ones_le8(b: u8)
    ensures
        ones(b) <= 8,
        b < 128 ==> ones(b) <= 7,
        b < 64 ==> ones(b) <= 6,
        b < 32 ==> ones(b) <= 5,
        b < 16 ==> ones(b) <= 4,
        b < 8 ==> ones(b) <= 3,
        b < 4 ==> ones(b) <= 2,
        b < 2 ==> ones(b) <= 1,
    decreases b,
{
    if b > 0 {
        lemma_ones_le8(b / 2);
    }
}

/// The walk over the views before view `i` of a heterogenous frame: how
/// many of them are present, and the total length of their streams.
pub open spec fn views_before(buf: Seq<u8>, lm: int, i: int) -> (int, int)
    decreases i,
{
    if i <= 0 {
        (0, 0)
    } else {
        let (k, len) = views_before(buf, lm, i - 1);
        if view_bit(buf, lm, i - 1) { (k + 1, len + buf[lm + k] + 1) } else { (k, len) }
    }
}

/// Whether the walk over the views before view `i` stays within what was read.
pub open spec fn views_before_readable(buf: Seq<u8>, lm: int, i: int) -> bool
    decreases i,
{
    if i <= 0 {
        true
    } else {
        &&& views_before_readable(buf, lm, i - 1)
        &&& 0 <= lm - (i - 1) / 8 < buf.len()
        &&& view_bit(buf, lm, i - 1) ==> lm + views_before(buf, lm, i - 1).0 < buf.len()
    }
}

fn copy_range(data: &Vec<u8>, start: usize, len: usize) -> (r: Vec<u8>)
    requires
        start + len <= data@.len(),
    ensures
        r@ == data@.subrange(start as int, start + len),
{
    let mut r: Vec<u8> = Vec::new();
    let mut i: usize = 0;
    let _n = data.len();
    while i < len
        invariant
            i <= len,
            start + len <= data@.len(),
            data@.len() <= usize::MAX,
            r@ == data@.subrange(start as int, start + i),
        decreases len - i,
    {
        r.push(data[start + i]);
        i = i + 1;
        assert(r@ =~= data@.subrange(start as int, start + i));
    }
    r
}

fn bit_of(b: u8, bit: u8) -> (r: bool)
    requires
        bit < 8,
    ensures
        r == bit_set(b, bit as int),
{
    let mut x: u8 = b;
    let mut k: u8 = 0;
    while k < bit
        invariant
            k <= bit,
            bit < 8,
            x as int == b as int / pow2_8(k as int),
        decreases bit - k,
    {
        assert(b as int / pow2_8(k + 1) == (b as int / pow2_8(k as int)) / 2) by {
            assert(pow2_8(k + 1) == pow2_8(k as int) * 2);
            vstd::arithmetic::div_mod::lemma_div_denominator(b as int, pow2_8(k as int), 2);
        }
        x = x / 2;
        k = k + 1;
    }
    x % 2 == 1
}

/// A reader of the frames of a stream of frame data held in memory.
pub struct MwFrameDataReader {
    off_data: u64,
    current_time_ms: u64,
    max_plid: u8,
    n_views: u8,
    frame_kind: FrameKind,
    buf: Vec<u8>,
    data: Vec<u8>,
}

/// A frame reader: over the file itself, or over the decompressed frame data.
pub enum MwFrameReader {
    Uncompressed(MwFrameDataReader),
    Compressed(MwFrameDataReader),
}

impl MwFrameDataReader {
    /// Where the reader is, and what it read of the current frame.
    pub closed spec fn state(&self) -> FrameState {
        FrameState { off: self.off_data, time: self.current_time_ms, n_views: self.n_views, kind: self.frame_kind, buf: self.buf@ }
    }

    /// The bytes being read.
    pub closed spec fn data_view(&self) -> Seq<u8> {
        self.data@
    }

    /// The highest player id, which sets the size of the view masks.
    pub closed spec fn max_plid_view(&self) -> u8 {
        self.max_plid
    }

    /// A reader before the first frame, which starts at `off_data` of `data`.
    pub fn new(data: Vec<u8>, off_data: u64, max_plid: u8) -> (r: Self)
        ensures
            r.data_view() == data@,
            r.max_plid_view() == max_plid,
            r.state() == (FrameState { off: off_data, time: 0, n_views: 0, kind: FrameKind::Unknown, buf: seq![] }),
    {
        MwFrameDataReader {
            off_data,
            current_time_ms: 0,
            max_plid,
            n_views: 0,
            frame_kind: FrameKind::Unknown,
            buf: Vec::new(),
            data,
        }
    }

    /// The time of the current frame, in milliseconds.
    pub fn current_time_ms(&self) -> (r: u64)
        ensures
            r == self.state().time,
    {
        self.current_time_ms
    }

    /// What the current frame is.
    pub fn frame_kind(&self) -> (r: FrameKind)
        ensures
            r == self.state().kind,
    {
        self.frame_kind
    }

    fn len_plidsmask(&self) -> (r: usize)
        ensures
            r == len_mask(self.max_plid),
    {
        (self.max_plid as usize + 1) / 8 + 1
    }

    fn offset_next_frame(&self) -> (r: u64)
        requires
            frame_size_readable(self.state(), len_mask(self.max_plid)),
        ensures
            r == frame_size(self.state(), len_mask(self.max_plid)),
    {
        let lm = self.len_plidsmask();
        match self.frame_kind {
            FrameKind::Unknown => 0,
            FrameKind::Keepalive => 2,
            FrameKind::Heterogenous => {
                let nv = self.n_views as usize;
                let mut len_data: u64 = 0;
                let mut k: usize = 0;
                while k < nv
                    invariant
                        k <= nv,
                        nv == self.n_views,
                        lm == len_mask(self.max_plid),
                        lm + nv <= self.buf@.len(),
                        len_data == sum_lens(self.buf@, lm as int, k as int),
                        len_data <= 256 * k,
                    decreases nv - k,
                {
                    len_data = len_data + self.buf[lm + k] as u64 + 1;
                    k = k + 1;
                }
                2 + lm as u64 + nv as u64 + len_data
            },
            FrameKind::Homogenous => {
                let len_data = self.buf[lm] as u64 + 1;
                3 + lm as u64 + len_data
            },
        }
    }

    /// Read the next frame: its time delta, then for a homogenous frame the
    /// view mask, the data length and the data, and for a heterogenous one
    /// the view mask and the stream lengths (see `advance`). The views of a
    /// heterogenous frame are counted from a mask of at most two bytes: with
    /// a longer mask (more than 14 players) such a frame cannot be read.
    /// After an error, only the position of the frame is stated.
    pub fn advance_next_frame(&mut self) -> (r: Result<(), MwReaderError>)
        requires
            old(self).max_plid_view() < 15
                || !next_frame_hetero(old(self).data_view(), old(self).state(), old(self).max_plid_view()),
            frame_size_readable(old(self).state(), len_mask(old(self).max_plid_view())),
            old(self).state().off + frame_size(old(self).state(), len_mask(old(self).max_plid_view())) + 0x10000 <= u64::MAX,
            old(self).state().time + 0x8000 <= u64::MAX,
        ensures
            final(self).data_view() == old(self).data_view(),
            final(self).max_plid_view() == old(self).max_plid_view(),
            match advance(old(self).data_view(), old(self).state(), old(self).max_plid_view()) {
                Ok(st) => r is Ok && final(self).state() == st,
                Err(e) => r == Err::<(), MwReaderError>(e)
                    && final(self).state().off == old(self).state().off + frame_size(old(self).state(), len_mask(old(self).max_plid_view())),
            },
    {
        let lm = self.len_plidsmask();
        let next = self.offset_next_frame();
        self.off_data = self.off_data + next;
        let off = self.off_data;
        let len = self.data.len();
        if off > len as u64 || (len as u64) - off < 2 {
            return Err(MwReaderError::Io);
        }
        let o = off as usize;
        let b0 = self.data[o];
        let b1 = self.data[o + 1];
        self.buf = copy_range(&self.data, o, 2);
        let h: u16 = b0 as u16 * 256 + b1 as u16;
        assert(h & 0x7FFFu16 == h % 0x8000 && (h & 0x8000u16 != 0 <==> h >= 0x8000)) by (bit_vector);
        if h & 0x7FFF == 0x7FFF {
            self.current_time_ms = self.current_time_ms + 0x8000;
            self.frame_kind = FrameKind::Keepalive;
            return Ok(());
        }
        let delta = (h & 0x7FFF) as u64;
        if h & 0x8000 != 0 {
            self.current_time_ms = self.current_time_ms + delta;
            self.frame_kind = FrameKind::Homogenous;
            if len - o - 2 < lm + 1 {
                return Err(MwReaderError::Io);
            }
            let len_data = self.data[o + 2 + lm] as usize + 1;
            self.n_views = 0;
            if len - o - 2 - lm - 1 < len_data {
                self.buf = copy_range(&self.data, o + 2, lm + 1);
                return Err(MwReaderError::Io);
            }
            self.buf = copy_range(&self.data, o + 2, lm + 1 + len_data);
            Ok(())
        } else {
            self.current_time_ms = self.current_time_ms + delta;
            self.frame_kind = FrameKind::Heterogenous;
            if len - o - 2 < lm {
                return Err(MwReaderError::Io);
            }
            let mask = copy_range(&self.data, o + 2, lm);
            let nv: u8 = if lm == 1 {
                pop_u8(mask[0])
            } else {
                proof {
                    lemma_ones_le8(mask@[0]);
                    lemma_ones_le8(mask@[1]);
                }
                pop_u8(mask[0]) + pop_u8(mask[1])
            };
            self.n_views = nv;
            self.buf = mask;
            if len - o - 2 - lm < nv as usize {
                return Err(MwReaderError::Io);
            }
            self.buf = copy_range(&self.data, o + 2, lm + nv as usize);
            Ok(())
        }
    }

    /// Whether view `plid` is in the current frame (see `frame_contains`).
    pub fn contains_view(&self, plid: crate::plid::PlayerId) -> (r: bool)
        requires
            frame_contains_readable(self.state(), self.max_plid_view(), plid.value()),
        ensures
            r == frame_contains(self.state(), self.max_plid_view(), plid.value()),
    {
        match self.frame_kind {
            FrameKind::Unknown | FrameKind::Keepalive => {
                return false;
            },
            _ => {},
        }
        let p = plid.to_u8();
        if p > self.max_plid {
            return false;
        }
        let mask_byte = self.len_plidsmask() - p as usize / 8;
        let mask_bit = p % 8;
        bit_of(self.buf[mask_byte], mask_bit)
    }
}

/// A sequence of bytes brought to length `n`: cut, or padded with zeros.
pub open spec fn resized(b: Seq<u8>, n: int) -> Seq<u8> {
    if n <= b.len() { b.subrange(0, n) } else { b + Seq::new((n - b.len()) as nat, |i: int| 0u8) }
}

/// The stream of view `p` in the current frame (or the error), and the
/// bytes the reader keeps afterwards.
pub open spec fn player_stream(data: Seq<u8>, st: FrameState, max_plid: u8, p: u8) -> (Result<Seq<u8>, MwReaderError>, Seq<u8>) {
    let lm = len_mask(max_plid);
    match st.kind {
        FrameKind::Unknown | FrameKind::Keepalive => (Ok(seq![]), st.buf),
        FrameKind::Homogenous => if !frame_contains(st, max_plid, p) {
            (Ok(seq![]), st.buf)
        } else {
            (Ok(st.buf.subrange(lm + 1, st.buf.len() as int)), st.buf)
        },
        FrameKind::Heterogenous => if !frame_contains(st, max_plid, p) {
            (Ok(seq![]), st.buf)
        } else {
            let (k, before) = views_before(st.buf, lm, p as int);
            let base = lm + st.n_views;
            let len = st.buf[lm + k] + 1;
            let start = st.off + base + before;
            if start + len > data.len() {
                (Err(MwReaderError::Io), resized(st.buf, base + len))
            } else {
                (Ok(data.subrange(start, start + len)), st.buf.subrange(0, base) + data.subrange(start, start + len))
            }
        },
    }
}

/// Whether finding the stream of view `p` stays within what was read.
pub open spec fn player_stream_readable(st: FrameState, max_plid: u8, p: u8) -> bool {
    let lm = len_mask(max_plid);
    &&& frame_contains_readable(st, max_plid, p)
    &&& st.kind is Homogenous ==> lm + 1 <= st.buf.len()
    &&& (st.kind is Heterogenous && frame_contains(st, max_plid, p)) ==> {
        &&& views_before_readable(st.buf, lm, p as int)
        &&& lm + views_before(st.buf, lm, p as int).0 < st.buf.len()
        &&& lm + st.n_views <= st.buf.len()
    }
}

proof fn lemma_views_before_bounds(buf: Seq<u8>, lm: int, i: int)
    requires
        views_before_readable(buf, lm, i),
    ensures
        0 <= views_before(buf, lm, i).0 <= (if i > 0 { i } else { 0 }),
        0 <= views_before(buf, lm, i).1 <= 256 * views_before(buf, lm, i).0,
    decreases i,
{
    if i > 0 {
        lemma_views_before_bounds(buf, lm, i - 1);
    }
}

impl MwFrameDataReader {
    /// The stream of view `plid` in the current frame (see `player_stream`):
    /// empty when the view is not in it; the shared stream of a homogenous
    /// frame; for a heterogenous frame, the view's own stream, read from
    /// the data and kept after the stream lengths.
    pub fn get_player_stream(&mut self, plid: crate::plid::PlayerId) -> (r: Result<Vec<u8>, MwReaderError>)
        requires
            player_stream_readable(old(self).state(), old(self).max_plid_view(), plid.value()),
            old(self).state().off + 0x10000 * 256 <= u64::MAX,
        ensures
            final(self).data_view() == old(self).data_view(),
            final(self).max_plid_view() == old(self).max_plid_view(),
            final(self).state() == (FrameState {
                buf: player_stream(old(self).data_view(), old(self).state(), old(self).max_plid_view(), plid.value()).1,
                ..old(self).state()
            }),
            match player_stream(old(self).data_view(), old(self).state(), old(self).max_plid_view(), plid.value()).0 {
                Ok(s) => r matches Ok(v) && v@ == s,
                Err(e) => r == Err::<Vec<u8>, MwReaderError>(e),
            },
    {
        let lm = self.len_plidsmask();
        match self.frame_kind {
            FrameKind::Unknown | FrameKind::Keepalive => {
                return Ok(Vec::new());
            },
            FrameKind::Homogenous => {
                if !self.contains_view(plid) {
                    return Ok(Vec::new());
                }
                let n = self.buf.len();
                return Ok(copy_range(&self.buf, lm + 1, n - lm - 1));
            },
            FrameKind::Heterogenous => {},
        }
        if !self.contains_view(plid) {
            return Ok(Vec::new());
        }
        let p = plid.to_u8();
        let base = lm + self.n_views as usize;
        let ghost buf = self.buf@;
        proof {
            lemma_views_before_bounds(buf, lm as int, p as int);
        }
        let mut offset_stream: u64 = base as u64;
        let mut k: usize = 0;
        let mut i: u8 = 0;
        while i < p
            invariant
                i <= p,
                buf == self.buf@,
                lm == len_mask(self.max_plid),
                base == lm + self.n_views,
                views_before_readable(buf, lm as int, p as int),
                views_before(buf, lm as int, i as int) == (k as int, offset_stream - base),
                0 <= views_before(buf, lm as int, p as int).0 <= p,
            decreases p - i,
        {
            proof {
                lemma_views_before_readable_prefix(buf, lm as int, i as int + 1, p as int);
                lemma_views_before_bounds(buf, lm as int, i as int);
            }
            let mask_byte = lm - i as usize / 8;
            if bit_of(self.buf[mask_byte], i % 8) {
                offset_stream = offset_stream + self.buf[lm + k] as u64 + 1;
                k = k + 1;
            }
            i = i + 1;
        }
        let len_stream = self.buf[lm + k] as usize + 1;
        let start = self.off_data + offset_stream;
        let total = self.data.len();
        if start > total as u64 || (total as u64) - start < len_stream as u64 {
            self.resize_buf(base + len_stream);
            return Err(MwReaderError::Io);
        }
        let stream = copy_range(&self.data, start as usize, len_stream);
        let mut kept = copy_range(&self.buf, 0, base);
        let mut j: usize = 0;
        let ghost kept0 = kept@;
        while j < len_stream
            invariant
                j <= len_stream,
                len_stream == stream@.len(),
                kept@ == kept0 + stream@.subrange(0, j as int),
            decreases len_stream - j,
        {
            kept.push(stream[j]);
            j = j + 1;
            assert(kept@ =~= kept0 + stream@.subrange(0, j as int));
        }
        assert(stream@.subrange(0, len_stream as int) =~= stream@);
        self.buf = kept;
        Ok(stream)
    }

    /// Bring the kept bytes to length `n`: cut, or padded with zeros.
    fn resize_buf(&mut self, n: usize)
        ensures
            final(self).data_view() == old(self).data_view(),
            final(self).max_plid_view() == old(self).max_plid_view(),
            final(self).state() == (FrameState { buf: resized(old(self).state().buf, n as int), ..old(self).state() }),
    {
        let cur = self.buf.len();
        let mut b = copy_range(&self.buf, 0, if n <= cur { n } else { cur });
        let ghost b0 = b@;
        while b.len() < n
            invariant
                b0.len() <= b@.len() <= n,
                b@ == b0 + Seq::new((b@.len() - b0.len()) as nat, |i: int| 0u8),
            decreases n - b@.len(),
        {
            b.push(0);
            assert(b@ =~= b0 + Seq::new((b@.len() - b0.len()) as nat, |i: int| 0u8));
        }
        proof {
            if n <= cur {
                assert(b@ =~= resized(old(self).buf@, n as int));
            } else {
                assert(b0 =~= old(self).buf@);
            }
        }
        self.buf = b;
    }
}

proof fn lemma_views_before_readable_prefix(buf: Seq<u8>, lm: int, i: int, p: int)
    requires
        views_before_readable(buf, lm, p),
        i <= p,
    ensures
        views_before_readable(buf, lm, i),
    decreases p - i,
{
    if i < p {
        lemma_views_before_readable_prefix(buf, lm, i, p - 1);
    }
}

/// The state of an iterator over the streams of a frame.
pub struct StreamIterState {
    /// The next view.
    pub i: int,
    /// The mask byte of the views being visited.
    pub b_mask: u8,
    /// The index of the mask byte being visited (counting down).
    pub i_mask: int,
    /// The next stream length to read.
    pub i_stream: int,
    /// Where the next stream starts, from the start of the frame's data.
    pub off_stream: int,
}

/// One step of the iterator over the streams of a frame: its new state,
/// the bytes the reader keeps, and the item (none at the end). Each view
/// gives its stream, or an empty one when it is not in the frame.
pub open spec fn stream_next(it: StreamIterState, data: Seq<u8>, st: FrameState, max_plid: u8)
    -> (StreamIterState, Seq<u8>, Option<Result<Seq<u8>, MwReaderError>>)
{
    let lm = len_mask(max_plid);
    if it.i > max_plid {
        (it, st.buf, None)
    } else {
        let i_sub = it.i % 8;
        let it1 = StreamIterState { i: it.i + 1, ..it };
        match st.kind {
            FrameKind::Unknown | FrameKind::Keepalive => (it1, st.buf, Some(Ok(seq![]))),
            _ => if i_sub == 0 && it.i_mask == 0 {
                (it1, st.buf, None)
            } else {
                let it2 = if i_sub == 0 {
                    StreamIterState { i_mask: it.i_mask - 1, b_mask: st.buf[it.i_mask - 1], ..it1 }
                } else {
                    it1
                };
                if !bit_set(it2.b_mask, i_sub) {
                    (it2, st.buf, Some(Ok(seq![])))
                } else if st.kind is Homogenous {
                    (it2, st.buf, Some(Ok(st.buf.subrange(lm + 1, st.buf.len() as int))))
                } else {
                    let base = lm + st.n_views;
                    let len = st.buf[lm + it2.i_stream] + 1;
                    let it3 = StreamIterState { i_stream: it2.i_stream + 1, off_stream: it2.off_stream + len, ..it2 };
                    let start = st.off + it2.off_stream;
                    if start + len > data.len() {
                        (it3, resized(st.buf, base + len), Some(Err(MwReaderError::Io)))
                    } else {
                        (it3, st.buf.subrange(0, base) + data.subrange(start, start + len), Some(Ok(data.subrange(start, start + len))))
                    }
                }
            },
        }
    }
}

/// Whether one step of the iterator stays within what was read.
pub open spec fn stream_next_readable(it: StreamIterState, st: FrameState, max_plid: u8) -> bool {
    let lm = len_mask(max_plid);
    let i_sub = it.i % 8;
    let i_mask2 = if i_sub == 0 { it.i_mask - 1 } else { it.i_mask };
    &&& 0 <= it.i <= 256
    &&& 0 <= it.i_mask <= st.buf.len()
    &&& 0 <= it.i_stream
    &&& 0 <= it.off_stream <= 0x10000 * 256
    &&& (it.i <= max_plid && !(st.kind is Unknown || st.kind is Keepalive) && !(i_sub == 0 && it.i_mask == 0)) ==> {
        &&& st.kind is Homogenous ==> lm + 1 <= st.buf.len()
        &&& st.kind is Heterogenous ==> lm + st.n_views <= st.buf.len() && lm + it.i_stream < st.buf.len()
    }
}

/// An iterator over the streams of the current frame, one per view.
pub struct MwFrameStreamIter {
    i: usize,
    b_mask: u8,
    i_mask: usize,
    i_stream: usize,
    off_stream: u64,
}

impl MwFrameStreamIter {
    /// The iterator's state.
    pub closed spec fn view_state(&self) -> StreamIterState {
        StreamIterState {
            i: self.i as int,
            b_mask: self.b_mask,
            i_mask: self.i_mask as int,
            i_stream: self.i_stream as int,
            off_stream: self.off_stream as int,
        }
    }

    /// The next stream of the frame that `reader` is at (see `stream_next`).
    pub fn next(&mut self, reader: &mut MwFrameDataReader) -> (r: Option<Result<Vec<u8>, MwReaderError>>)
        requires
            stream_next_readable(old(self).view_state(), old(reader).state(), old(reader).max_plid_view()),
            old(reader).state().off + 0x10000 * 512 <= u64::MAX,
        ensures
            final(reader).data_view() == old(reader).data_view(),
            final(reader).max_plid_view() == old(reader).max_plid_view(),
            ({
                let (it2, buf2, item) = stream_next(old(self).view_state(), old(reader).data_view(), old(reader).state(), old(reader).max_plid_view());
                &&& final(self).view_state() == it2
                &&& final(reader).state() == (FrameState { buf: buf2, ..old(reader).state() })
                &&& match item {
                    None => r is None,
                    Some(Ok(s)) => r matches Some(Ok(v)) && v@ == s,
                    Some(Err(e)) => r == Some(Err::<Vec<u8>, MwReaderError>(e)),
                }
            }),
    {
        if self.i > reader.max_plid as usize {
            return None;
        }
        let i_sub = self.i % 8;
        self.i = self.i + 1;
        match reader.frame_kind {
            FrameKind::Unknown | FrameKind::Keepalive => {
                return Some(Ok(Vec::new()));
            },
            _ => {},
        }
        let lm = reader.len_plidsmask();
        if i_sub == 0 {
            if self.i_mask == 0 {
                return None;
            }
            self.i_mask = self.i_mask - 1;
            self.b_mask = reader.buf[self.i_mask];
        }
        if !bit_of(self.b_mask, i_sub as u8) {
            return Some(Ok(Vec::new()));
        }
        match reader.frame_kind {
            FrameKind::Homogenous => {
                let n = reader.buf.len();
                Some(Ok(copy_range(&reader.buf, lm + 1, n - lm - 1)))
            },
            _ => {
                let _buf_len = reader.buf.len();
                let base = lm + reader.n_views as usize;
                let len_stream = reader.buf[lm + self.i_stream] as usize + 1;
                self.i_stream = self.i_stream + 1;
                let start = reader.off_data + self.off_stream;
                self.off_stream = self.off_stream + len_stream as u64;
                let total = reader.data.len();
                if start > total as u64 || (total as u64) - start < len_stream as u64 {
                    reader.resize_buf(base + len_stream);
                    return Some(Err(MwReaderError::Io));
                }
                let stream = copy_range(&reader.data, start as usize, len_stream);
                let mut kept = copy_range(&reader.buf, 0, base);
                let ghost kept0 = kept@;
                let mut j: usize = 0;
                while j < len_stream
                    invariant
                        j <= len_stream,
                        len_stream == stream@.len(),
                        kept@ == kept0 + stream@.subrange(0, j as int),
                    decreases len_stream - j,
                {
                    kept.push(stream[j]);
                    j = j + 1;
                    assert(kept@ =~= kept0 + stream@.subrange(0, j as int));
                }
                assert(stream@.subrange(0, len_stream as int) =~= stream@);
                reader.buf = kept;
                Some(Ok(stream))
            },
        }
    }
}

impl MwFrameDataReader {
    /// An iterator over the streams of the current frame, one per view.
    pub fn iter_streams(&self) -> (r: MwFrameStreamIter)
        ensures
            r.view_state() == (StreamIterState {
                i: 0,
                b_mask: 0,
                i_mask: len_mask(self.max_plid_view()),
                i_stream: 0,
                off_stream: len_mask(self.max_plid_view()) + self.state().n_views,
            }),
    {
        MwFrameStreamIter {
            i: 0,
            b_mask: 0,
            i_mask: self.len_plidsmask(),
            i_stream: 0,
            off_stream: self.len_plidsmask() as u64 + self.n_views as u64,
        }
    }
}

/// Whether `data` holds `n` consecutive `0xFF` bytes.
fn find_ff_run(data: &[u8], n: usize) -> (r: bool)
    requires
        n >= 1,
    ensures
        r == has_ff_run(data@, n as int),
{
    let ghost s = data@;
    let mut pos: usize = 0;
    let mut cnt: usize = 0;
    while pos < data.len()
        invariant
            pos <= data.len(),
            s == data@,
            cnt <= pos,
            cnt < n,
            forall|j: int| pos - cnt <= j < pos ==> s[j] == 0xFFu8,
            pos - cnt > 0 ==> s[pos - cnt - 1] != 0xFFu8,
            forall|i: int| 0 <= i && i + n <= pos ==> !#[trigger] ff_run_at(s, i, n as int),
        decreases data.len() - pos,
    {
        if data[pos] == 0xFF {
            if cnt + 1 == n {
                proof {
                    let i = (pos + 1 - n) as int;
                    assert forall|j: int| i <= j < i + n implies #[trigger] s[j] == 0xFFu8 by {
                        if j < pos {
                            assert(pos - cnt <= j);
                        }
                    }
                    assert(ff_run_at(s, i, n as int));
                }
                return true;
            }
            proof {
                assert forall|i: int| 0 <= i && i + n <= pos + 1 implies !#[trigger] ff_run_at(s, i, n as int) by {
                    if i + n == pos + 1 {
                        let w = pos - cnt - 1;
                        assert(i <= w < i + n && s[w] != 0xFFu8);
                    }
                }
            }
            cnt = cnt + 1;
        } else {
            proof {
                assert forall|i: int| 0 <= i && i + n <= pos + 1 implies !#[trigger] ff_run_at(s, i, n as int) by {
                    if i + n == pos + 1 {
                        assert(i <= pos < i + n && s[pos as int] != 0xFFu8);
                    }
                }
            }
            cnt = 0;
        }
        pos = pos + 1;
    }
    proof {
        if has_ff_run(s, n as int) {
            let i = choose|i: int| 0 <= i && i + n <= s.len() && #[trigger] ff_run_at(s, i, n as int);
            assert(!ff_run_at(s, i, n as int));
        }
    }
    false
}

impl MwFileReader {
    /// A reader of the frames, which follow the Initialization Sequence.
    /// Stored uncompressed, they are read from the file itself. Stored
    /// compressed, they are read only when `decompress` is set: the raw
    /// length of bytes is read at their start and decompressed into a
    /// buffer of the stored length, and the frames are read from what that
    /// gives. Compressed data with a run of `LZ4_FF_RUN_LIMIT` bytes of `0xFF`
    /// (on which the decompressor's length counter overflows) is refused as
    /// a compression error.
    pub fn read_frames(self, decompress: bool) -> (r: Result<MwFrameReader, MwReaderError>)
        requires
            file_sizes_fit(self.file_header_view(), self.is_header_view()),
        ensures
            ({
                let fh = self.file_header_view();
                let ih = self.is_header_view();
                let off = frames_offset(ih);
                let data = self.data_view();
                if fh.len_framedata_compressed == fh.len_framedata_raw {
                    r matches Ok(MwFrameReader::Uncompressed(rd)) && rd.data_view() == data
                        && rd.max_plid_view() == ih.n_players
                        && rd.state() == (FrameState { off: off as u64, time: 0, n_views: 0, kind: FrameKind::Unknown, buf: seq![] })
                } else if !decompress {
                    r == Err::<MwFrameReader, MwReaderError>(MwReaderError::DataIsCompressed)
                } else if off + fh.len_framedata_raw > data.len() {
                    r == Err::<MwFrameReader, MwReaderError>(MwReaderError::Io)
                } else {
                    let input = data.subrange(off, off + fh.len_framedata_raw);
                    let decoded = lz4_block_decoded(input);
                    &&& has_ff_run(input, LZ4_FF_RUN_LIMIT as int) ==> r == Err::<MwFrameReader, MwReaderError>(MwReaderError::Compression)
                    &&& r is Ok ==> (r matches Ok(MwFrameReader::Compressed(rd)) && decoded is Some
                        && rd.data_view() == decoded->Some_0
                        && rd.max_plid_view() == ih.n_players
                        && rd.state() == (FrameState { off: 0, time: 0, n_views: 0, kind: FrameKind::Unknown, buf: seq![] }))
                    &&& r is Err ==> r == Err::<MwFrameReader, MwReaderError>(MwReaderError::Compression)
                    &&& decoded is None ==> r is Err
                    &&& (!has_ff_run(input, LZ4_FF_RUN_LIMIT as int) && decoded is Some
                        && decoded->Some_0.len() <= fh.len_framedata_compressed) ==> r is Ok
                }
            }),
    {
        let off = 32 + self.is_header.len_total_is();
        let max_plid = self.is_header.max_plid();
        if !self.is_framedata_compressed() {
            return Ok(MwFrameReader::Uncompressed(MwFrameDataReader::new(self.data, off as u64, max_plid)));
        }
        if !decompress {
            return Err(MwReaderError::DataIsCompressed);
        }
        let raw_len = self.file_header.len_framedata_raw();
        if self.data.len() < off || self.data.len() - off < raw_len {
            return Err(MwReaderError::Io);
        }
        let input = slice_subrange(self.data.as_slice(), off, off + raw_len);
        if find_ff_run(input, LZ4_FF_RUN_LIMIT) {
            return Err(MwReaderError::Compression);
        }
        let mut scratch: Vec<u8> = Vec::new();
        let out_len = self.file_header.len_framedata_compressed();
        let mut z: usize = 0;
        while z < out_len
            invariant
                z <= out_len,
                scratch@.len() == z,
            decreases out_len - z,
        {
            scratch.push(0);
            z = z + 1;
        }
        match lz4_decompress_into(input, &mut scratch) {
            Err(_) => Err(MwReaderError::Compression),
            Ok(n) => {
                scratch.truncate(n);
                Ok(MwFrameReader::Compressed(MwFrameDataReader::new(scratch, 0, max_plid)))
            },
        }
    }
}

} // verus!
