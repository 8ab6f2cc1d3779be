use minewars::dataformat::header::{ISHeader, MwFileHeader, Version};
use minewars::dataformat::read::{ChecksumError, MwFileReader, MwFrameDataReader, MwFrameReader, MwISReader, MwReaderError};
use minewars::dataformat::dec::{DecodeError, DecodeFlags, ReplayDecoder};
use minewars::grid::Topology;
use minewars::grid::pos::Pos;
use minewars::plid::PlayerId;
use minewars::msg::repr::{Msg, MsgPlayer};
use minewars::dataformat::opt::{optimize_mwseq_lossy, OptimizerResult, OptimizerState};

fn is_header() -> ISHeader {
    let mut h = ISHeader::default();
    h.map_size = 5;
    h.n_players = 2;
    h.n_regions = 3;
    h.len_rules = 2;
    h.len_playerdata = 1;
    h
}

fn file_bytes(fh: MwFileHeader, ih: ISHeader, rest: &[u8]) -> Vec<u8> {
    let mut data = Vec::new();
    fh.serialize(&mut data);
    ih.serialize(&mut data);
    data.extend_from_slice(rest);
    data
}

#[test]
fn header_roundtrip() {
    let mut ih = is_header();
    ih.len_mapdata_compressed = 0x01020304;
    ih.len_citdata_names = 0x0506;
    let mut bytes = Vec::new();
    ih.serialize(&mut bytes);
    assert_eq!(bytes.len(), ISHeader::serialized_len());
    assert_eq!(ISHeader::deserialize(&bytes), ih);
    // lengths are big-endian, except the city names length (little-endian)
    assert_eq!(&bytes[8..12], &[1, 2, 3, 4]);
    assert_eq!(&bytes[14..16], &[6, 5]);

    let fh = MwFileHeader {
        checksum_header: 1,
        checksum_is: 2,
        checksum_framedata: 0x0102030405060708,
        len_framedata_compressed: 9,
        len_framedata_raw: 10,
    };
    let mut bytes = Vec::new();
    fh.serialize(&mut bytes);
    assert_eq!(bytes.len(), MwFileHeader::serialized_len());
    assert_eq!(MwFileHeader::deserialize(&bytes), fh);
    assert_eq!(&bytes[16..24], &[1, 2, 3, 4, 5, 6, 7, 8]);
    assert!(fh.is_framedata_compressed());
}

#[test]
fn is_header_layout() {
    let mut ih = is_header();
    assert_eq!(ih.map_topology(), Topology::Hex);
    ih.set_map_topology(Topology::Sq);
    assert_eq!(ih.map_topology(), Topology::Sq);
    assert_eq!(ih.max_plid(), 2);
    assert!(ih.version_is_compatible(Version(0, 1, 0, 9)));
    assert!(!ih.version_is_compatible(Version(0, 2, 0, 0)));
    // stored as long as its raw length (two bytes per tile): not compressed
    assert_eq!(ih.len_mapdata_raw(), 2 * 11 * 11);
    assert!(ih.is_mapdata_compressed());
    ih.len_mapdata_compressed = 2 * 11 * 11;
    assert!(!ih.is_mapdata_compressed());
    assert_eq!(ih.offset_mapdata(), 0);
    assert_eq!(ih.offset_citdata_pos(), ih.len_mapdata_compressed());
}

#[test]
fn file_reader_checksums() {
    let fh = MwFileHeader::default();
    let ih = is_header();
    let is_len = ih.len_total_data();
    let mut rest = vec![7u8; is_len];
    rest.extend_from_slice(&[1, 2, 3]);
    let data = file_bytes(fh, ih, &rest);
    let mut rd = MwFileReader::new(data).unwrap();
    assert_eq!(rd.is_header(), ih);
    // the stored checksums are 0, so they do not match
    assert_eq!(rd.verify_checksums(), Err(MwReaderError::Checksum(ChecksumError::BadHeader)));
    rd.compute_and_force_update_checksums().unwrap();
    assert_eq!(rd.verify_checksums(), Ok(()));
    // store the new checksums in the bytes, then corrupt the initialization
    // data: its checksum no longer matches
    let fh = rd.file_header();
    let old = rd.into_inner();
    let mut data = Vec::new();
    fh.serialize(&mut data);
    data.extend_from_slice(&old[32..]);
    assert_eq!(MwFileReader::new(data.clone()).unwrap().verify_checksums(), Ok(()));
    data[52] ^= 1;
    let rd = MwFileReader::new(data).unwrap();
    assert_eq!(rd.verify_checksum_header(), Ok(()));
    assert_eq!(rd.verify_checksum_isdata(), Err(MwReaderError::Checksum(ChecksumError::BadIS)));
}

#[test]
fn file_reader_rejects() {
    assert_eq!(MwFileReader::new(vec![0; 40]).err(), Some(MwReaderError::Io));
    let mut ih = is_header();
    ih.version = Version(9, 9, 9, 9);
    let data = file_bytes(MwFileHeader::default(), ih, &[]);
    assert_eq!(MwFileReader::new(data).err(), Some(MwReaderError::VersionIncompatible));
}

#[test]
fn file_reader_frames() {
    let ih = is_header();
    let frames: Vec<u8> = (0..200u32).map(|i| (i % 7) as u8).collect();
    let packed = lz4_flex::block::compress(&frames);
    let fh = MwFileHeader {
        len_framedata_compressed: frames.len() as u32,
        len_framedata_raw: packed.len() as u32,
        ..MwFileHeader::default()
    };
    let mut rest = vec![0u8; ih.len_total_data()];
    rest.extend_from_slice(&packed);
    let data = file_bytes(fh, ih, &rest);
    let rd = MwFileReader::new(data.clone()).unwrap();
    assert!(rd.is_framedata_compressed());
    assert!(matches!(rd.read_frames(false), Err(MwReaderError::DataIsCompressed)));
    let rd = MwFileReader::new(data.clone()).unwrap();
    assert!(matches!(rd.read_frames(true), Ok(MwFrameReader::Compressed(_))));
    // a malformed block cannot be decompressed
    let mut bad = data;
    let n = bad.len();
    bad[n - packed.len()] = 0xF0;
    bad.truncate(n - packed.len() + 2);
    let bad_fh = MwFileHeader { len_framedata_raw: 2, ..fh };
    let mut fixed = Vec::new();
    bad_fh.serialize(&mut fixed);
    fixed.extend_from_slice(&bad[32..]);
    let rd = MwFileReader::new(fixed).unwrap();
    assert!(matches!(rd.read_frames(true), Err(MwReaderError::Compression)));
}

#[test]
fn replay_decoder_rejects_short_data() {
    assert_eq!(ReplayDecoder::from_bytes(vec![0; 10]).err(), Some(DecodeError::DataLength));
    assert!(DecodeFlags::default().contains(DecodeFlags::from_bits_truncate(0)));
    assert!(!DecodeFlags::default().contains(DecodeFlags::no_checksums()));
}

#[test]
fn file_reader_refuses_overlong_length_run() {
    let ih = is_header();
    let mut packed = vec![0xF0u8];
    packed.extend(std::iter::repeat(0xFFu8).take(16_843_008));
    packed.push(0);
    let fh = MwFileHeader {
        len_framedata_compressed: 16,
        len_framedata_raw: packed.len() as u32,
        ..MwFileHeader::default()
    };
    let mut rest = vec![0u8; ih.len_total_data()];
    rest.extend_from_slice(&packed);
    let rd = MwFileReader::new(file_bytes(fh, ih, &rest)).unwrap();
    assert!(matches!(rd.read_frames(true), Err(MwReaderError::Compression)));
}

#[test]
fn replay_decoder_counts_names_and_cities() {
    // headers that announce 10 bytes of player names and one city, but no data
    let mut data = vec![0u8; 28];
    data.extend_from_slice(&[0, 0, 1, 1, 1, 1, 0, 10, 0, 0, 0, 0]);
    data.extend_from_slice(&[0u8; 12]);
    assert_eq!(data.len(), 52);
    assert_eq!(ReplayDecoder::from_bytes(data).err(), Some(DecodeError::DataLength));
}

#[test]
fn optimizer_sorts_and_dedups() {
    use_optimizer();
}

fn use_optimizer() {
    let me = PlayerId::Player(1);
    let mut state = OptimizerState::default();
    let owner = Msg::TileOwner { pos: Pos(2, 3), plid: me };
    let joined = Msg::Player { plid: me, subplid: None, status: MsgPlayer::Joined };
    let mut seq = vec![
        Msg::Nop,
        owner,
        Msg::Tremor,
        Msg::Smoke { pos: Pos(1, 1) },
        Msg::Smoke { pos: Pos(0, 5) },
        Msg::Tremor,
        joined,
        Msg::Nop,
    ];
    let r = optimize_mwseq_lossy(&mut state, me, &mut seq);
    assert!(matches!(r, OptimizerResult::Good));
    assert_eq!(seq, vec![joined, Msg::Tremor, Msg::Smoke { pos: Pos(0, 5) }, Msg::Smoke { pos: Pos(1, 1) }, owner]);
    let mut empty: Vec<Msg> = vec![Msg::Nop];
    optimize_mwseq_lossy(&mut state, me, &mut empty);
    assert!(empty.is_empty());
}

#[test]
fn is_reader_header_getters() {
    let ih = is_header();
    let mut data = Vec::new();
    ih.serialize(&mut data);
    let rd = MwISReader::new(data).unwrap();
    assert_eq!(rd.max_plid(), 2);
    assert_eq!(rd.max_sub_plid(), 14);
    assert_eq!(rd.n_regions(), 3);
    assert!(matches!(MwISReader::new(vec![0u8; 19]), Err(MwReaderError::Io)));
}

#[test]
fn frame_clock_never_goes_back() {
    // a keepalive frame, then a homogenous frame 5 ms later
    let data = vec![0xFF, 0xFF, 0x80, 0x05, 0b0000_0110, 0, 0xAA];
    let mut rd = MwFrameDataReader::new(data, 0, 2);
    assert_eq!(rd.current_time_ms(), 0);
    rd.advance_next_frame().unwrap();
    assert_eq!(rd.current_time_ms(), 32768);
    rd.advance_next_frame().unwrap();
    assert_eq!(rd.current_time_ms(), 32773);
    assert!(matches!(rd.advance_next_frame(), Err(MwReaderError::Io)));
}
