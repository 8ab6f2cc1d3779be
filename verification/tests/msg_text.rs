use minewars::game::event::{MwEv, PlayerEv};
use minewars::game::{ItemKind, StructureKind, TileKind};
use minewars::grid::pos::Pos;
use minewars::msg::assembly::{MsgAsmError, MsgAsmRead, MsgAsmReadError, MsgAsmWrite};
use minewars::plid::PlayerId;
use minewars::time::MwDur;
use minewars::msg::repr::{Msg, MsgTileKind};

fn write_line(evs: &[MwEv]) -> (usize, String) {
    let mut out = Vec::new();
    let (n, len) = MsgAsmWrite::new().write(&mut out, evs, usize::MAX).unwrap();
    assert_eq!(len, out.len());
    (n, String::from_utf8(out).unwrap())
}

fn read_line(text: &str) -> (usize, Result<usize, MsgAsmReadError>, Vec<MwEv>) {
    let mut out = Vec::new();
    let (used, r) = MsgAsmRead::new().read(text.as_bytes(), &mut out);
    (used, r, out)
}

#[test]
fn asm_write_lines() {
    assert_eq!(write_line(&[MwEv::Debug(7, Pos(-3, 4))]), (1, "DEBUG 7 -3,4\n".to_string()));
    assert_eq!(write_line(&[MwEv::Tremor]), (1, "SHAKE\n".to_string()));
    assert_eq!(write_line(&[MwEv::Nop]), (1, "NOP\n".to_string()));
    assert_eq!(write_line(&[MwEv::CitMoneyTransact { cit: 2, amount: -300 }]), (1, "CITTRANS 2 -300\n".to_string()));
    assert_eq!(
        write_line(&[MwEv::CitIncome { cit: 1, money: 4000000000, income: 65535 }]),
        (1, "CITINCOME 1 4000000000 65535\n".to_string())
    );
    assert_eq!(
        write_line(&[MwEv::BuildNew { pos: Pos(0, 0), kind: StructureKind::Barricade, pts: 12 }]),
        (1, "BUILDNEW 0,0 wall 12\n".to_string())
    );
    assert_eq!(
        write_line(&[MwEv::TileKind { pos: Pos(1, 1), kind: TileKind::FoundationRoad }]),
        (1, "TILE 1,1 foundation\n".to_string())
    );
    assert_eq!(
        write_line(&[MwEv::RevealItem { pos: Pos(2, -2), item: ItemKind::Safe }]),
        (1, "ITEM 2,-2 none\n".to_string())
    );
    assert_eq!(
        write_line(&[MwEv::Player { plid: PlayerId::Player(3), subplid: Some(1), ev: PlayerEv::VoteYes { id: 9 } }]),
        (1, "PLAYER 3/1 VOTE 9 Y\n".to_string())
    );
    assert_eq!(
        write_line(&[MwEv::Player { plid: PlayerId::Player(2), subplid: None, ev: PlayerEv::NetRttInfo { duration: MwDur(100) } }]),
        (1, "PLAYER 2 RTT 100\n".to_string())
    );
    assert_eq!(
        write_line(&[MwEv::Player { plid: PlayerId::Player(2), subplid: None, ev: PlayerEv::ChatAll { text: "hi there".to_string() } }]),
        (1, "PLAYER 2 CHATALL hi there\n".to_string())
    );
}

#[test]
fn asm_write_runs() {
    let evs = vec![
        MwEv::DigitCapture { pos: Pos(1, 2), digit: 3, asterisk: false },
        MwEv::DigitCapture { pos: Pos(3, 4), digit: 5, asterisk: true },
        MwEv::Tremor,
    ];
    assert_eq!(write_line(&evs), (2, "DIGITS 3/1,2 5*/3,4\n".to_string()));
    let owners = vec![
        MwEv::TileOwner { pos: Pos(0, 1), plid: PlayerId::Player(1) },
        MwEv::TileOwner { pos: Pos(0, 2), plid: PlayerId::Player(1) },
        MwEv::TileOwner { pos: Pos(0, 3), plid: PlayerId::Player(2) },
    ];
    assert_eq!(write_line(&owners), (2, "OWNER 1 0,1 0,2\n".to_string()));
    let explosions: Vec<MwEv> = (0..20).map(|i| MwEv::Explode { pos: Pos(i, 0) }).collect();
    let (n, text) = write_line(&explosions);
    assert_eq!(n, 16);
    assert!(text.starts_with("EXPLODE 0,0 1,0"));
    assert!(text.ends_with(" 15,0\n"));
}

#[test]
fn asm_write_empty_or_too_long() {
    let mut out = vec![1u8];
    assert_eq!(MsgAsmWrite::new().write(&mut out, &[], 100).unwrap(), (0, 0));
    assert_eq!(MsgAsmWrite::new().write(&mut out, &[MwEv::Tremor], 5).unwrap(), (0, 0));
    assert_eq!(out, vec![1u8]);
    assert_eq!(MsgAsmWrite::new().write(&mut out, &[MwEv::Tremor], 6).unwrap(), (1, 6));
    assert_eq!(out, b"\x01SHAKE\n".to_vec());
}

#[test]
fn asm_read_instructions() {
    let (used, r, out) = read_line("DEBUG 7 -3,4\n");
    assert_eq!((used, r.unwrap(), out), (13, 1, vec![MwEv::Debug(7, Pos(-3, 4))]));
    assert_eq!(read_line("  tile 1,2 Forest ; a comment\nNOP\n").2, vec![MwEv::TileKind { pos: Pos(1, 2), kind: TileKind::Forest }]);
    let (used, r, out) = read_line("; only a comment\n");
    assert_eq!((used, r.unwrap(), out), (17, 0, vec![]));
    let (used, r, out) = read_line("");
    assert_eq!((used, r.unwrap(), out), (0, 0, vec![]));
    assert_eq!(
        read_line("OWNER 3 1,1 2,2 3,3").2,
        vec![
            MwEv::TileOwner { pos: Pos(1, 1), plid: PlayerId::Player(3) },
            MwEv::TileOwner { pos: Pos(2, 2), plid: PlayerId::Player(3) },
            MwEv::TileOwner { pos: Pos(3, 3), plid: PlayerId::Player(3) },
        ]
    );
    assert_eq!(
        read_line("digits 3/1,2 5*/3,4\n").2,
        vec![
            MwEv::DigitCapture { pos: Pos(1, 2), digit: 3, asterisk: false },
            MwEv::DigitCapture { pos: Pos(3, 4), digit: 5, asterisk: true },
        ]
    );
    assert_eq!(
        read_line("PLAYER 2/1 join Bob  the Builder\n").2,
        vec![MwEv::Player { plid: PlayerId::Player(2), subplid: Some(1), ev: PlayerEv::Joined { name: "Bob  the Builder".to_string() } }]
    );
    assert_eq!(
        read_line("PLAYER 4 TIMEOUT 1000").2,
        vec![MwEv::Player { plid: PlayerId::Player(4), subplid: None, ev: PlayerEv::Timeout { duration: MwDur::from_millis_lossy(1000) } }]
    );
    assert_eq!(read_line("CITTRANS 1 -5").2, vec![MwEv::CitMoneyTransact { cit: 1, amount: -5 }]);
    assert_eq!(read_line("STRUCT 0,0 tower").2, vec![MwEv::RevealStructure { pos: Pos(0, 0), kind: StructureKind::WatchTower }]);
}

#[test]
fn asm_read_errors() {
    let (used, r, out) = read_line("JUMP 1,1\n");
    assert_eq!(used, 9);
    assert!(matches!(r, Err(MsgAsmReadError::UnknownOp(ref s)) if s == "JUMP"));
    assert!(out.is_empty());
    assert!(matches!(read_line("TILE 1,1 lava").1, Err(MsgAsmReadError::BadArg(ref s)) if s == "LAVA"));
    assert!(matches!(read_line("DEBUG 300 1,1").1, Err(MsgAsmReadError::BadArg(ref s)) if s == "300"));
    assert!(matches!(read_line("SMOKE 1").1, Err(MsgAsmReadError::BadArg(ref s)) if s == "1"));
    assert!(matches!(read_line("FLAG 1").1, Err(MsgAsmReadError::NotEnoughArgs)));
    assert!(matches!(read_line("SHAKE now").1, Err(MsgAsmReadError::TooManyArgs)));
    assert!(matches!(read_line("EXPLODE").1, Err(MsgAsmReadError::NotEnoughArgs)));
    let mut out = Vec::new();
    let (used, r) = MsgAsmRead::new().read(&[0x4E, 0x4F, 0x50, 0xFF, b'\n', b'N'], &mut out);
    assert_eq!(used, 5);
    assert!(matches!(r, Err(MsgAsmReadError::Io)));
    // the operands read before a bad one stay
    let (_, r, out) = read_line("EXPLODE 1,1 x");
    assert!(matches!(r, Err(MsgAsmReadError::BadArg(ref s)) if s == "x"));
    assert_eq!(out, vec![MwEv::Explode { pos: Pos(1, 1) }]);
}

#[test]
fn asm_write_then_read() {
    let evs = vec![
        MwEv::Smoke { pos: Pos(5, -6) },
        MwEv::CitTradeInfo { cit: 1, export: 2, import: 3 },
        MwEv::Flag { plid: PlayerId::Player(4), pos: Pos(-1, -1) },
        MwEv::Construction { pos: Pos(2, 2), current: 10, rate: 3 },
        MwEv::Player { plid: PlayerId::Player(1), subplid: None, ev: PlayerEv::Surrendered },
        MwEv::Player { plid: PlayerId::Player(6), subplid: Some(2), ev: PlayerEv::Joined { name: " Zoë the great".to_string() } },
        MwEv::Player { plid: PlayerId::Player(6), subplid: None, ev: PlayerEv::VoteNew { id: 4, l10nkey: "vote.kick".to_string() } },
        MwEv::Player { plid: PlayerId::Player(1), subplid: None, ev: PlayerEv::Exploded { pos: Pos(-7, 8), killer: PlayerId::Player(2) } },
        MwEv::Player { plid: PlayerId::Player(1), subplid: None, ev: PlayerEv::Timeout { duration: MwDur(200) } },
        MwEv::CitIncome { cit: 0, money: 0, income: 0 },
        MwEv::TileKind { pos: Pos(1, 1), kind: TileKind::FoundationStruct },
        MwEv::BuildNew { pos: Pos(0, 0), kind: StructureKind::Bridge, pts: 65535 },
    ];
    for ev in evs {
        let (_, text) = write_line(std::slice::from_ref(&ev));
        let (_, r, out) = read_line(&text);
        assert_eq!(r.unwrap(), 1);
        assert_eq!(out, vec![ev]);
    }
}

#[test]
fn asm_runs_read_back() {
    let evs = vec![
        MwEv::TileOwner { pos: Pos(1, 2), plid: PlayerId::Player(7) },
        MwEv::TileOwner { pos: Pos(-3, 4), plid: PlayerId::Player(7) },
        MwEv::TileOwner { pos: Pos(5, -6), plid: PlayerId::Player(7) },
        MwEv::Tremor,
    ];
    let (n, text) = write_line(&evs);
    assert_eq!(n, 3);
    let (used, r, out) = read_line(&text);
    assert_eq!(used, text.len());
    assert_eq!(r.unwrap(), 3);
    assert_eq!(out, evs[..3].to_vec());

    let digits: Vec<MwEv> = (0..20).map(|i| MwEv::DigitCapture { pos: Pos(i, -i), digit: (i % 9) as u8, asterisk: i % 2 == 0 }).collect();
    let (n, text) = write_line(&digits);
    assert_eq!(n, 16);
    let (_, r, out) = read_line(&text);
    assert_eq!(r.unwrap(), 16);
    assert_eq!(out, digits[..16].to_vec());
}

#[test]
fn asm_foundation_is_read_as_structure_foundation() {
    // road foundations are written as any foundation
    let (_, text) = write_line(&[MwEv::TileKind { pos: Pos(0, 0), kind: TileKind::FoundationRoad }]);
    let (_, _, out) = read_line(&text);
    assert_eq!(out, vec![MwEv::TileKind { pos: Pos(0, 0), kind: TileKind::FoundationStruct }]);
}


#[test]
fn msg_disassembly() {
    let msgs = [
        Msg::DigitCapture { pos: Pos(1, -2), digit: 3, asterisk: true },
        Msg::StructureGone { pos: Pos(0, 4) },
        Msg::TileKind { pos: Pos(-3, 3), kind: MsgTileKind::Fertile },
        Msg::CitMoneyTransact { cit: 2, amount: -15 },
        Msg::Nop,
    ];
    let mut out = String::new();
    assert_eq!(Msg::disasm_one(&msgs[..1], &mut out).unwrap(), 1);
    assert_eq!(out, "DIGITS 3*/1,-2\n");
    let mut all = String::new();
    let (n, r) = Msg::disasm_all(&msgs, &mut all);
    assert_eq!(n, 5);
    assert!(r.is_ok());
    assert_eq!(all, "DIGITS 3*/1,-2\nDECONSTRUCT 0,4\nTILE -3,3 fertile\nCITTRANS 2 -15\nNOP\n");
    let mut none = String::new();
    assert_eq!(Msg::disasm_one(&[], &mut none).unwrap(), 0);
    assert!(none.is_empty());
}

#[test]
fn msg_assembly_into_buffer() {
    let mut buf = [Msg::Nop; 2];
    assert!(matches!(Msg::asm_one("TILE 1,2 fertile", &mut buf), Ok(1)));
    assert_eq!(buf, [Msg::TileKind { pos: Pos(1, 2), kind: MsgTileKind::Fertile }, Msg::Nop]);

    let mut buf = [Msg::Nop; 2];
    assert!(matches!(Msg::asm_one("DIGITS 3/0,0 4*/1,1 5/2,2", &mut buf), Err(MsgAsmError::BufferFull)));
    assert_eq!(buf, [
        Msg::DigitCapture { pos: Pos(0, 0), digit: 3, asterisk: false },
        Msg::DigitCapture { pos: Pos(1, 1), digit: 4, asterisk: true },
    ]);

    let mut buf = [Msg::Nop; 4];
    assert!(matches!(Msg::asm_one("  deconstruct 4,5 ; gone", &mut buf), Ok(1)));
    assert_eq!(buf[0], Msg::StructureGone { pos: Pos(4, 5) });
    assert!(matches!(Msg::asm_one("owner 3 1,1 2,2", &mut buf), Ok(2)));
    assert_eq!(buf[1], Msg::TileOwner { pos: Pos(2, 2), plid: PlayerId::Player(3) });
    assert!(matches!(Msg::asm_one("NOSTRUCT 1,1", &mut buf), Err(MsgAsmError::UnknownOp(ref s)) if s == "NOSTRUCT"));
    assert!(matches!(Msg::asm_one("BUILD 1,1 x 2", &mut buf), Err(MsgAsmError::BadArg(ref s)) if s == "x"));
    assert!(matches!(Msg::asm_one("   ; only a comment", &mut buf), Ok(0)));
}
