use minewars::game::event::{MwEv, PlayerEv};
use minewars::game::{ItemKind, StructureKind, TileKind};
use minewars::grid::pos::Pos;
use minewars::msg::bin::{MsgBinRead, MsgBinReadError, MsgBinWrite, MsgBinWriteError};
use minewars::plid::PlayerId;
use minewars::time::MwDur;

fn sample_events() -> Vec<MwEv> {
    vec![
        MwEv::Tremor,
        MwEv::Smoke { pos: Pos(1, 2) },
        MwEv::Unsmoke { pos: Pos(-1, -2) },
        MwEv::CitRes { cit: 3, res: 500 },
        MwEv::CitMoney { cit: 1, money: 123456 },
        MwEv::CitMoneyTransact { cit: 2, amount: -42 },
        MwEv::CitTradeInfo { cit: 4, export: 5, import: 6 },
        MwEv::Flag { plid: PlayerId::Player(2), pos: Pos(4, -4) },
        MwEv::StructureGone { pos: Pos(0, 1) },
        MwEv::StructureHp { pos: Pos(0, 2), hp: 7 },
        MwEv::BuildNew { pos: Pos(3, 3), kind: StructureKind::Bridge, pts: 300 },
        MwEv::Construction { pos: Pos(3, 3), current: 100, rate: 7 },
        MwEv::RevealStructure { pos: Pos(5, -5), kind: StructureKind::WatchTower },
        MwEv::RevealItem { pos: Pos(6, 1), item: ItemKind::Mine },
        MwEv::TileKind { pos: Pos(7, 0), kind: TileKind::Forest },
        MwEv::Debug(9, Pos(1, 1)),
        MwEv::TileOwner { pos: Pos(1, 0), plid: PlayerId::Player(3) },
        MwEv::TileOwner { pos: Pos(2, 0), plid: PlayerId::Player(3) },
        MwEv::Explode { pos: Pos(0, 0) },
        MwEv::Explode { pos: Pos(1, -1) },
        MwEv::DigitCapture { pos: Pos(2, 2), digit: 3, asterisk: true },
        MwEv::Player { plid: PlayerId::Player(1), subplid: None, ev: PlayerEv::Eliminated },
        MwEv::Player { plid: PlayerId::Player(2), subplid: Some(1), ev: PlayerEv::LivesRemain { lives: 2 } },
        MwEv::Player {
            plid: PlayerId::Player(4),
            subplid: None,
            ev: PlayerEv::Joined { name: "alice".to_string() },
        },
        MwEv::Player {
            plid: PlayerId::Player(5),
            subplid: None,
            ev: PlayerEv::Timeout { duration: MwDur(20) },
        },
    ]
}

#[test]
fn bin_stream_roundtrip() {
    let evs = sample_events();
    let mut bytes = Vec::new();
    MsgBinWrite::new().write_all(&mut bytes, &evs).unwrap();
    let mut out = Vec::new();
    let n = MsgBinRead::new().read_all(&bytes, &mut out).unwrap();
    assert_eq!(n, evs.len());
    assert_eq!(out, evs);
}

#[test]
fn bin_single_encodings() {
    let mut w = MsgBinWrite::new();
    let mut out = Vec::new();
    assert_eq!(w.write(&mut out, &[MwEv::Tremor], 100), Ok((1, 1)));
    assert_eq!(out, vec![0x01]);
    out.clear();
    assert_eq!(w.write(&mut out, &[MwEv::Smoke { pos: Pos(1, 2) }], 100), Ok((1, 3)));
    assert_eq!(out, vec![0x02, 1, 2]);
    out.clear();
    assert_eq!(w.write(&mut out, &[MwEv::CitRes { cit: 3, res: 0x0102 }], 100), Ok((1, 4)));
    assert_eq!(out, vec![0x06, 3, 1, 2]);
    out.clear();
    assert_eq!(w.write(&mut out, &[MwEv::TileKind { pos: Pos(-1, 0), kind: TileKind::Mountain }], 100), Ok((1, 3)));
    assert_eq!(out, vec![0x77, 0xFF, 0]);
}

#[test]
fn bin_runs_are_packed() {
    let evs = vec![
        MwEv::Explode { pos: Pos(0, 0) },
        MwEv::Explode { pos: Pos(1, 1) },
        MwEv::Explode { pos: Pos(2, 2) },
        MwEv::Tremor,
    ];
    let mut out = Vec::new();
    let (n, len) = MsgBinWrite::new().write(&mut out, &evs, 100).unwrap();
    assert_eq!(n, 3);
    assert_eq!(len, 7);
    assert_eq!(out, vec![0x32, 0, 0, 1, 1, 2, 2]);
}

#[test]
fn bin_does_not_write_past_limit() {
    let mut out = vec![9u8];
    let r = MsgBinWrite::new().write(&mut out, &[MwEv::Smoke { pos: Pos(1, 2) }], 2);
    assert_eq!(r, Ok((0, 0)));
    assert_eq!(out, vec![9u8]);
}

#[test]
fn bin_write_invalid_value() {
    let mut out = Vec::new();
    let r = MsgBinWrite::new().write(&mut out, &[MwEv::StructureHp { pos: Pos(0, 0), hp: 16 }], 100);
    assert_eq!(r, Err(MsgBinWriteError::InvalidValue(16)));
    assert!(out.is_empty());
}

#[test]
fn bin_read_errors() {
    let mut out = Vec::new();
    let mut r = MsgBinRead::new();
    assert_eq!(r.read(&[], &mut out), Ok((0, 0)));
    assert_eq!(r.read(&[0x02, 1], &mut out), Err(MsgBinReadError::Io));
    assert_eq!(r.read(&[0x08], &mut out), Err(MsgBinReadError::UnknownOp(0x08)));
    assert_eq!(r.read(&[0x18, 0, 0], &mut out), Err(MsgBinReadError::InvalidValue(8)));
    assert_eq!(r.read(&[0x00, 0xF1, 20], &mut out), Err(MsgBinReadError::UnknownPlayerOp(20)));
    assert_eq!(r.read(&[0x00, 0xF1, 0, 1, 0xFF], &mut out), Err(MsgBinReadError::Utf8));
    assert!(out.is_empty());
    assert_eq!(r.read(&[0x00, 0xF1, 3], &mut out), Ok((3, 1)));
    assert_eq!(out, vec![MwEv::Player { plid: PlayerId::Player(1), subplid: None, ev: PlayerEv::TimeoutFinished }]);
    out.clear();
    assert_eq!(r.read(&[0x02, 1, 2, 0x01], &mut out), Ok((3, 1)));
    assert_eq!(out, vec![MwEv::Smoke { pos: Pos(1, 2) }]);
}

#[test]
fn player_messages_report_their_size() {
    let mut w = MsgBinWrite::new();
    let mut out = Vec::new();
    let ev = MwEv::Player { plid: PlayerId::Player(1), subplid: None, ev: PlayerEv::Timeout { duration: MwDur(3) } };
    // a timeout takes 4 bytes: it does not fit in 3
    assert_eq!(w.write(&mut out, &[ev.clone()], 3), Ok((0, 0)));
    assert!(out.is_empty());
    assert_eq!(w.write(&mut out, &[ev], 4), Ok((1, 4)));
    assert_eq!(out.len(), 4);
    let joined = MwEv::Player { plid: PlayerId::Player(2), subplid: None, ev: PlayerEv::Joined { name: "bob".to_string() } };
    let mut out2 = Vec::new();
    assert_eq!(w.write(&mut out2, &[joined], 100), Ok((1, 7)));
    assert_eq!(out2.len(), 7);
}
