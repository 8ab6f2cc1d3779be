//! The headers of a MineWars file or stream.
//!
//! The Initialization Sequence header starts a network stream; a file
//! starts with a file header (checksums and frame data length) followed by
//! the Initialization Sequence header.

use vstd::prelude::*;
use crate::grid::Topology;
use crate::grid::hex::{Hex, hex_map_area};
use crate::grid::sq::Sq;
use crate::msg::bin_enc::{be16_bytes, be32_bytes};

verus! {

/// A format version: major, minor, patch, and a revision that may change
/// between compatible versions.
#[derive(Debug, Clone, Copy, PartialEq, Eq, Structural)]
pub struct Version(pub u8, pub u8, pub u8, pub u8);

/// The version of the format that this library writes and reads.
pub open spec fn format_version() -> Version {
    Version(0, 1, 0, 0)
}

/// The version of the format that this library writes and reads.
pub fn format_version_exec() -> (v: Version)
    ensures
        v == format_version(),
{
    Version(0, 1, 0, 0)
}

/// The Initialization Sequence header.
#[derive(Debug, Clone, Copy, PartialEq, Eq, Structural)]
pub struct ISHeader {
    pub version: Version,
    pub flags: u8,
    pub map_size: u8,
    pub n_players: u8,
    pub n_regions: u8,
    pub len_mapdata_compressed: u32,
    pub len_rules: u16,
    pub len_citdata_names: u16,
    pub len_playerdata: u16,
    pub reserved0: u16,
}

/// The file header: checksums and the length of the frame data.
#[derive(Debug, Clone, Copy, PartialEq, Eq, Structural)]
pub struct MwFileHeader {
    pub checksum_header: u64,
    pub checksum_is: u64,
    pub checksum_framedata: u64,
    pub len_framedata_compressed: u32,
    pub len_framedata_raw: u32,
}

/// A 16-bit value, little-endian.
pub open spec fn le16_bytes(v: u16) -> Seq<u8> {
    seq![(v % 256) as u8, (v / 256) as u8]
}

/// A 64-bit value, big-endian.
pub open spec fn be64_bytes(v: u64) -> Seq<u8> {
    be32_bytes((v / 0x1_0000_0000) as u32) + be32_bytes((v % 0x1_0000_0000) as u32)
}

/// A big-endian 16-bit value from two bytes.
pub open spec fn get_be16(b: Seq<u8>, i: int) -> u16 {
    (b[i] * 256 + b[i + 1]) as u16
}

/// A little-endian 16-bit value from two bytes.
pub open spec fn get_le16(b: Seq<u8>, i: int) -> u16 {
    (b[i + 1] * 256 + b[i]) as u16
}

/// A big-endian 32-bit value from four bytes.
pub open spec fn get_be32(b: Seq<u8>, i: int) -> u32 {
    (get_be16(b, i) * 0x10000 + get_be16(b, i + 2)) as u32
}

/// A big-endian 64-bit value from eight bytes.
pub open spec fn get_be64(b: Seq<u8>, i: int) -> u64 {
    (get_be32(b, i) * 0x1_0000_0000 + get_be32(b, i + 4)) as u64
}

/// The serialized form of an Initialization Sequence header: the fields in
/// order, the map data length, rules length and player data length
/// big-endian, the city names length and the reserved field little-endian.
pub open spec fn is_header_bytes(h: ISHeader) -> Seq<u8> {
    seq![h.version.0, h.version.1, h.version.2, h.version.3, h.flags, h.map_size, h.n_players, h.n_regions]
        + be32_bytes(h.len_mapdata_compressed) + be16_bytes(h.len_rules) + le16_bytes(h.len_citdata_names)
        + be16_bytes(h.len_playerdata) + le16_bytes(h.reserved0)
}

/// The Initialization Sequence header that 20 bytes hold.
pub open spec fn is_header_of(b: Seq<u8>) -> ISHeader {
    ISHeader {
        version: Version(b[0], b[1], b[2], b[3]),
        flags: b[4],
        map_size: b[5],
        n_players: b[6],
        n_regions: b[7],
        len_mapdata_compressed: get_be32(b, 8),
        len_rules: get_be16(b, 12),
        len_citdata_names: get_le16(b, 14),
        len_playerdata: get_be16(b, 16),
        reserved0: get_le16(b, 18),
    }
}

/// The serialized form of a file header: all fields big-endian.
pub open spec fn file_header_bytes(h: MwFileHeader) -> Seq<u8> {
    be64_bytes(h.checksum_header) + be64_bytes(h.checksum_is) + be64_bytes(h.checksum_framedata)
        + be32_bytes(h.len_framedata_compressed) + be32_bytes(h.len_framedata_raw)
}

/// The file header that 32 bytes hold.
pub open spec fn file_header_of(b: Seq<u8>) -> MwFileHeader {
    MwFileHeader {
        checksum_header: get_be64(b, 0),
        checksum_is: get_be64(b, 8),
        checksum_framedata: get_be64(b, 16),
        len_framedata_compressed: get_be32(b, 24),
        len_framedata_raw: get_be32(b, 28),
    }
}

/// The topology that the flags select (bit 3: square, else hex).
pub open spec fn topology_of_flags(flags: u8) -> Topology {
    if flags & 0x08u8 == 0 { Topology::Hex } else { Topology::Sq }
}

/// The number of tiles of a map of a topology and radius.
pub open spec fn map_area_of(t: Topology, r: u8) -> int {
    match t {
        Topology::Sq => (r * 2 + 1) * (r * 2 + 1),
        _ => hex_map_area(r as int),
    }
}

fn push_be16(out: &mut Vec<u8>, v: u16)
    ensures
        final(out)@ == old(out)@ + be16_bytes(v),
{
    out.push((v / 256) as u8);
    out.push((v % 256) as u8);
    assert(final(out)@ =~= old(out)@ + be16_bytes(v));
}

fn push_le16(out: &mut Vec<u8>, v: u16)
    ensures
        final(out)@ == old(out)@ + le16_bytes(v),
{
    out.push((v % 256) as u8);
    out.push((v / 256) as u8);
    assert(final(out)@ =~= old(out)@ + le16_bytes(v));
}

fn push_be32(out: &mut Vec<u8>, v: u32)
    ensures
        final(out)@ == old(out)@ + be32_bytes(v),
{
    out.push((v / 0x1000000) as u8);
    out.push((v / 0x10000 % 256) as u8);
    out.push((v / 256 % 256) as u8);
    out.push((v % 256) as u8);
    assert(final(out)@ =~= old(out)@ + be32_bytes(v));
}

fn push_be64(out: &mut Vec<u8>, v: u64)
    ensures
        final(out)@ == old(out)@ + be64_bytes(v),
{
    let ghost base = old(out)@;
    push_be32(out, (v / 0x1_0000_0000) as u32);
    push_be32(out, (v % 0x1_0000_0000) as u32);
    assert(final(out)@ =~= base + be64_bytes(v));
}

fn read_be16(b: &[u8], i: usize) -> (v: u16)
    requires
        i + 1 < b.len(),
    ensures
        v == get_be16(b@, i as int),
{
    b[i] as u16 * 256 + b[i + 1] as u16
}

fn read_le16(b: &[u8], i: usize) -> (v: u16)
    requires
        i + 1 < b.len(),
    ensures
        v == get_le16(b@, i as int),
{
    b[i + 1] as u16 * 256 + b[i] as u16
}

fn read_be32(b: &[u8], i: usize) -> (v: u32)
    requires
        i + 3 < b.len(),
    ensures
        v == get_be32(b@, i as int),
{
    read_be16(b, i) as u32 * 0x10000 + read_be16(b, i + 2) as u32
}

fn read_be64(b: &[u8], i: usize) -> (v: u64)
    requires
        i + 7 < b.len(),
    ensures
        v == get_be64(b@, i as int),
{
    read_be32(b, i) as u64 * 0x1_0000_0000 + read_be32(b, i + 4) as u64
}

impl ISHeader {
    /// The length of the city positions: two bytes per region.
    pub open spec fn citpos_len(self) -> int {
        2 * self.n_regions
    }

    /// The length of all the data sections after the header.
    pub open spec fn total_data_len(self) -> int {
        self.len_mapdata_compressed + self.citpos_len() + self.len_citdata_names + self.len_playerdata + self.len_rules
    }

    /// The length of the whole Initialization Sequence: header and data.
    pub open spec fn total_is_len(self) -> int {
        20 + self.total_data_len()
    }

    /// Where the city positions start, in the data after the header.
    pub open spec fn citpos_offset(self) -> int {
        self.len_mapdata_compressed as int
    }

    /// Where the city names start, in the data after the header.
    pub open spec fn citnames_offset(self) -> int {
        self.len_mapdata_compressed + 2 * self.n_regions
    }

    /// Where the player data starts, in the data after the header.
    pub open spec fn players_offset(self) -> int {
        self.len_mapdata_compressed + 2 * self.n_regions + self.len_citdata_names
    }

    /// Where the rules start, in the data after the header.
    pub open spec fn rules_offset(self) -> int {
        self.len_mapdata_compressed + 2 * self.n_regions + self.len_citdata_names + self.len_playerdata
    }

    /// A header of the current format version, with every other field 0.
    pub fn default() -> (r: Self)
        ensures
            r == (ISHeader {
                version: format_version(),
                flags: 0,
                map_size: 0,
                n_players: 0,
                n_regions: 0,
                len_mapdata_compressed: 0,
                len_rules: 0,
                len_citdata_names: 0,
                len_playerdata: 0,
                reserved0: 0,
            }),
    {
        ISHeader {
            version: format_version_exec(),
            flags: 0,
            map_size: 0,
            n_players: 0,
            n_regions: 0,
            len_mapdata_compressed: 0,
            len_rules: 0,
            len_citdata_names: 0,
            len_playerdata: 0,
            reserved0: 0,
        }
    }

    /// Whether data of `version` can be read with this header's version:
    /// the first three parts must match; the fourth may differ.
    pub fn version_is_compatible(&self, version: Version) -> (r: bool)
        ensures
            r == (version.0 == self.version.0 && version.1 == self.version.1 && version.2 == self.version.2),
    {
        version.0 == self.version.0 && version.1 == self.version.1 && version.2 == self.version.2
    }

    /// The topology of the map: hex or square, by bit 3 of the flags.
    pub fn map_topology(&self) -> (r: Topology)
        ensures
            r == topology_of_flags(self.flags),
    {
        if self.flags & 0b00001000 == 0 {
            Topology::Hex
        } else {
            Topology::Sq
        }
    }

    /// Set the topology of the map in the flags. The format has no code for
    /// the rotated square topology.
    pub fn set_map_topology(&mut self, t: Topology)
        requires
            t != Topology::Sqr,
        ensures
            topology_of_flags(final(self).flags) == t,
            final(self).flags & 0xF7u8 == old(self).flags & 0xF7u8,
            *final(self) == (ISHeader { flags: final(self).flags, ..*old(self) }),
    {
        let flag: u8 = match t {
            Topology::Hex => 0,
            _ => 1,
        };
        let old_flags = self.flags;
        let new_flags = (old_flags & !0b00001000u8) | (flag << 3u8);
        assert(flag <= 1 ==> ((old_flags & !0x08u8) | (flag << 3u8)) & 0x08u8 == flag * 8
            && ((old_flags & !0x08u8) | (flag << 3u8)) & 0xF7u8 == old_flags & 0xF7u8) by (bit_vector);
        self.flags = new_flags;
    }

    /// The size of a serialized header, in bytes.
    pub fn serialized_len() -> (r: usize)
        ensures
            r == 20,
    {
        20
    }

    /// Append the serialized header to `out`.
    pub fn serialize(&self, out: &mut Vec<u8>)
        ensures
            final(out)@ == old(out)@ + is_header_bytes(*self),
    {
        let ghost base = old(out)@;
        out.push(self.version.0);
        out.push(self.version.1);
        out.push(self.version.2);
        out.push(self.version.3);
        out.push(self.flags);
        out.push(self.map_size);
        out.push(self.n_players);
        out.push(self.n_regions);
        push_be32(out, self.len_mapdata_compressed);
        push_be16(out, self.len_rules);
        push_le16(out, self.len_citdata_names);
        push_be16(out, self.len_playerdata);
        push_le16(out, self.reserved0);
        assert(final(out)@ =~= base + is_header_bytes(*self));
    }

    /// The header that a serialized header of exactly 20 bytes holds.
    pub fn deserialize(input: &[u8]) -> (r: Self)
        requires
            input.len() == 20,
        ensures
            r == is_header_of(input@),
    {
        ISHeader {
            version: Version(input[0], input[1], input[2], input[3]),
            flags: input[4],
            map_size: input[5],
            n_players: input[6],
            n_regions: input[7],
            len_mapdata_compressed: read_be32(input, 8),
            len_rules: read_be16(input, 12),
            len_citdata_names: read_le16(input, 14),
            len_playerdata: read_be16(input, 16),
            reserved0: read_le16(input, 18),
        }
    }

    /// Whether the map data is stored compressed: its stored length differs
    /// from its raw length.
    pub fn is_mapdata_compressed(&self) -> (r: bool)
        requires
            topology_of_flags(self.flags) == Topology::Hex ==> self.map_size >= 1,
        ensures
            r == (self.len_mapdata_compressed as int != 2 * map_area_of(topology_of_flags(self.flags), self.map_size)),
    {
        self.len_mapdata_compressed() != self.len_mapdata_raw()
    }

    /// Whether the header carries no player data.
    pub fn is_anonymized(&self) -> (r: bool)
        ensures
            r == (self.len_playerdata == 0),
    {
        self.len_playerdata() == 0
    }

    /// The highest player id: one per player.
    pub fn max_plid(&self) -> (r: u8)
        ensures
            r == self.n_players,
    {
        self.n_players
    }

    /// The highest sub-player id that a stream can carry. The header holds
    /// no count of sub-players; messages give a sub-player id in four bits,
    /// the value 15 standing for none, so ids go up to 14.
    pub fn max_sub_plid(&self) -> (r: u8)
        ensures
            r == 14,
    {
        14
    }

    /// The size of the whole Initialization Sequence: header and data. (The
    /// lengths and offsets below are sums of the header's fields; they are
    /// asked for only where those sums fit in a `usize`.)
    pub fn len_total_is(&self) -> (r: usize)
        requires
            self.len_mapdata_compressed + 2 * self.n_regions + self.len_citdata_names + self.len_playerdata + self.len_rules + 20 <= usize::MAX,
        ensures
            r == self.total_is_len(),
    {
        Self::serialized_len() + self.len_total_data()
    }

    /// The length of the rules.
    pub fn len_rules(&self) -> (r: usize)
        ensures
            r == self.len_rules,
    {
        self.len_rules as usize
    }

    /// The stored length of the map data.
    pub fn len_mapdata_compressed(&self) -> (r: usize)
        ensures
            r == self.len_mapdata_compressed,
    {
        self.len_mapdata_compressed as usize
    }

    /// The length of the raw map data: two bytes per tile.
    pub fn len_mapdata_raw(&self) -> (r: usize)
        requires
            topology_of_flags(self.flags) == Topology::Hex ==> self.map_size >= 1,
        ensures
            r == 2 * map_area_of(topology_of_flags(self.flags), self.map_size),
    {
        let r = self.map_size;
        let area = match self.map_topology() {
            Topology::Sq => Sq::map_area(r),
            _ => Hex::map_area(r),
        };
        assert((r * 2 + 1) * (r * 2 + 1) <= 511 * 511 && 3 * r * (r + 1) + 1 <= 3 * 255 * 256 + 1) by (nonlinear_arith)
            requires r <= 255;
        2 * area
    }

    /// The length of the player data.
    pub fn len_playerdata(&self) -> (r: usize)
        ensures
            r == self.len_playerdata,
    {
        self.len_playerdata as usize
    }

    /// The length of the city names.
    pub fn len_citdata_names(&self) -> (r: usize)
        ensures
            r == self.len_citdata_names,
    {
        self.len_citdata_names as usize
    }

    /// The length of the city positions: two bytes per region.
    pub fn len_citdata_pos(&self) -> (r: usize)
        ensures
            r == self.citpos_len(),
    {
        2 * self.n_regions as usize
    }

    /// Where the map data starts, in the data after the header.
    pub fn offset_mapdata(&self) -> (r: usize)
        ensures
            r == 0,
    {
        0
    }

    /// Where the city positions start, in the data after the header.
    pub fn offset_citdata_pos(&self) -> (r: usize)
        ensures
            r == self.citpos_offset(),
    {
        self.len_mapdata_compressed()
    }

    /// Where the city names start, in the data after the header.
    pub fn offset_citdata_names(&self) -> (r: usize)
        requires
            self.len_mapdata_compressed + 2 * self.n_regions + self.len_citdata_names + self.len_playerdata + self.len_rules + 20 <= usize::MAX,
        ensures
            r == self.citnames_offset(),
    {
        self.len_mapdata_compressed() + self.len_citdata_pos()
    }

    /// Where the player data starts, in the data after the header.
    pub fn offset_playerdata(&self) -> (r: usize)
        requires
            self.len_mapdata_compressed + 2 * self.n_regions + self.len_citdata_names + self.len_playerdata + self.len_rules + 20 <= usize::MAX,
        ensures
            r == self.players_offset(),
    {
        self.len_mapdata_compressed() + self.len_citdata_pos() + self.len_citdata_names()
    }

    /// Where the rules start, in the data after the header.
    pub fn offset_rules(&self) -> (r: usize)
        requires
            self.len_mapdata_compressed + 2 * self.n_regions + self.len_citdata_names + self.len_playerdata + self.len_rules + 20 <= usize::MAX,
        ensures
            r == self.rules_offset(),
    {
        self.len_mapdata_compressed() + self.len_citdata_pos() + self.len_citdata_names() + self.len_playerdata()
    }

    /// The length of all the data after the header.
    pub fn len_total_data(&self) -> (r: usize)
        requires
            self.len_mapdata_compressed + 2 * self.n_regions + self.len_citdata_names + self.len_playerdata + self.len_rules + 20 <= usize::MAX,
        ensures
            r == self.total_data_len(),
    {
        self.len_mapdata_compressed() + self.len_citdata_pos() + self.len_citdata_names()
            + self.len_playerdata() + self.len_rules()
    }
}

/// The sections of the Initialization Sequence data lie one after the
/// other, without gaps or overlap: map data from 0, then the city positions,
/// the city names, the player data and the rules, which end at the total
/// data length; the whole sequence is the 20-byte header and that data.
pub proof fn lemma_is_sections_tile(h: ISHeader)
    ensures
        h.citpos_offset() == 0 + h.len_mapdata_compressed,
        h.citnames_offset() == h.citpos_offset() + h.citpos_len(),
        h.players_offset() == h.citnames_offset() + h.len_citdata_names,
        h.rules_offset() == h.players_offset() + h.len_playerdata,
        h.total_data_len() == h.rules_offset() + h.len_rules,
        h.total_is_len() == 20 + h.total_data_len(),
{
}

impl MwFileHeader {
    /// A header with every field 0.
    pub fn default() -> (r: Self)
        ensures
            r == (MwFileHeader {
                checksum_header: 0,
                checksum_is: 0,
                checksum_framedata: 0,
                len_framedata_compressed: 0,
                len_framedata_raw: 0,
            }),
    {
        MwFileHeader {
            checksum_header: 0,
            checksum_is: 0,
            checksum_framedata: 0,
            len_framedata_compressed: 0,
            len_framedata_raw: 0,
        }
    }

    /// The size of a serialized file header, in bytes.
    pub fn serialized_len() -> (r: usize)
        ensures
            r == 32,
    {
        32
    }

    /// Append the serialized header to `out`.
    pub fn serialize(&self, out: &mut Vec<u8>)
        ensures
            final(out)@ == old(out)@ + file_header_bytes(*self),
    {
        let ghost base = old(out)@;
        push_be64(out, self.checksum_header);
        push_be64(out, self.checksum_is);
        push_be64(out, self.checksum_framedata);
        push_be32(out, self.len_framedata_compressed);
        push_be32(out, self.len_framedata_raw);
        assert(final(out)@ =~= base + file_header_bytes(*self));
    }

    /// The header that a serialized header of exactly 32 bytes holds.
    pub fn deserialize(input: &[u8]) -> (r: Self)
        requires
            input.len() == 32,
        ensures
            r == file_header_of(input@),
    {
        MwFileHeader {
            checksum_header: read_be64(input, 0),
            checksum_is: read_be64(input, 8),
            checksum_framedata: read_be64(input, 16),
            len_framedata_compressed: read_be32(input, 24),
            len_framedata_raw: read_be32(input, 28),
        }
    }

    /// Whether the frame data is stored compressed: its stored length
    /// differs from its raw length.
    pub fn is_framedata_compressed(&self) -> (r: bool)
        ensures
            r == (self.len_framedata_compressed != self.len_framedata_raw),
    {
        self.len_framedata_compressed() != self.len_framedata_raw()
    }

    /// The stored length of the frame data.
    pub fn len_framedata_compressed(&self) -> (r: usize)
        ensures
            r == self.len_framedata_compressed,
    {
        self.len_framedata_compressed as usize
    }

    /// The raw length of the frame data.
    pub fn len_framedata_raw(&self) -> (r: usize)
        ensures
            r == self.len_framedata_raw,
    {
        self.len_framedata_raw as usize
    }

    /// Where the data that the header checksum covers starts: after the
    /// header checksum itself.
    pub fn checksummable_start_offset() -> (r: usize)
        ensures
            r == 8,
    {
        8
    }
}

proof fn lemma_be16_roundtrip(v: u16)
    ensures
        get_be16(be16_bytes(v), 0) == v,
        get_le16(le16_bytes(v), 0) == v,
{
}

proof fn lemma_be32_roundtrip(v: u32)
    ensures
        get_be32(be32_bytes(v), 0) == v,
{
    assert((v / 0x1000000) * 0x1000000 + (v / 0x10000 % 256) * 0x10000 + (v / 256 % 256) * 0x100 + v % 256 == v)
        by (nonlinear_arith);
    assert(((v / 0x1000000) * 256 + v / 0x10000 % 256) * 0x10000 + (v / 256 % 256) * 256 + v % 256
        == (v / 0x1000000) * 0x1000000 + (v / 0x10000 % 256) * 0x10000 + (v / 256 % 256) * 0x100 + v % 256)
        by (nonlinear_arith);
}

/// Reading a serialized Initialization Sequence header gives back the
/// header that was written.
pub proof fn lemma_is_header_roundtrip(h: ISHeader)
    ensures
        is_header_bytes(h).len() == 20,
        is_header_of(is_header_bytes(h)) == h,
{
    let b = is_header_bytes(h);
    lemma_be32_roundtrip(h.len_mapdata_compressed);
    lemma_be16_roundtrip(h.len_rules);
    lemma_be16_roundtrip(h.len_citdata_names);
    lemma_be16_roundtrip(h.len_playerdata);
    lemma_be16_roundtrip(h.reserved0);
    assert(b.subrange(8, 12) =~= be32_bytes(h.len_mapdata_compressed));
    assert(get_be32(b, 8) == get_be32(be32_bytes(h.len_mapdata_compressed), 0));
    assert(get_be16(b, 12) == get_be16(be16_bytes(h.len_rules), 0));
    assert(get_le16(b, 14) == get_le16(le16_bytes(h.len_citdata_names), 0));
    assert(get_be16(b, 16) == get_be16(be16_bytes(h.len_playerdata), 0));
    assert(get_le16(b, 18) == get_le16(le16_bytes(h.reserved0), 0));
}

proof fn lemma_be64_roundtrip(v: u64)
    ensures
        be64_bytes(v).len() == 8,
        get_be64(be64_bytes(v), 0) == v,
{
    lemma_be32_roundtrip((v / 0x1_0000_0000) as u32);
    lemma_be32_roundtrip((v % 0x1_0000_0000) as u32);
    let s = be64_bytes(v);
    assert(get_be32(s, 0) == get_be32(be32_bytes((v / 0x1_0000_0000) as u32), 0));
    assert(get_be32(s, 4) == get_be32(be32_bytes((v % 0x1_0000_0000) as u32), 0));
}

/// The bytes of a file header after its header checksum.
pub open spec fn file_header_tail_bytes(h: MwFileHeader) -> Seq<u8> {
    be64_bytes(h.checksum_is) + be64_bytes(h.checksum_framedata)
        + be32_bytes(h.len_framedata_compressed) + be32_bytes(h.len_framedata_raw)
}

/// A serialized file header is its header checksum, then the rest.
pub proof fn lemma_file_header_split(h: MwFileHeader)
    ensures
        file_header_bytes(h) == be64_bytes(h.checksum_header) + file_header_tail_bytes(h),
        be64_bytes(h.checksum_header).len() == 8,
        file_header_tail_bytes(h).len() == 24,
{
    assert(file_header_bytes(h) =~= be64_bytes(h.checksum_header) + file_header_tail_bytes(h));
}

/// Reading a serialized file header gives back the header that was written.
#[verifier::rlimit(50)]
pub proof fn lemma_file_header_roundtrip(h: MwFileHeader)
    ensures
        file_header_bytes(h).len() == 32,
        file_header_of(file_header_bytes(h)) == h,
{
    let b = file_header_bytes(h);
    lemma_be64_roundtrip(h.checksum_header);
    lemma_be64_roundtrip(h.checksum_is);
    lemma_be64_roundtrip(h.checksum_framedata);
    lemma_be32_roundtrip(h.len_framedata_compressed);
    lemma_be32_roundtrip(h.len_framedata_raw);
    assert(b.subrange(0, 8) =~= be64_bytes(h.checksum_header));
    assert(b.subrange(8, 16) =~= be64_bytes(h.checksum_is));
    assert(b.subrange(16, 24) =~= be64_bytes(h.checksum_framedata));
    assert(get_be64(b, 0) == get_be64(be64_bytes(h.checksum_header), 0));
    assert(get_be64(b, 8) == get_be64(be64_bytes(h.checksum_is), 0));
    assert(get_be64(b, 16) == get_be64(be64_bytes(h.checksum_framedata), 0));
    assert(get_be32(b, 24) == get_be32(be32_bytes(h.len_framedata_compressed), 0));
    assert(get_be32(b, 28) == get_be32(be32_bytes(h.len_framedata_raw), 0));
}

} // verus!
