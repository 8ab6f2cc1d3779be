//! MineWars protocol message stream codec (binary encoding)

use vstd::prelude::*;
use vstd::utf8::*;
use crate::plid::PlayerId;
use crate::grid::pos::Pos;
use crate::time::MwDur;
use crate::game::{ItemKind, StructureKind, TileKind};
use crate::game::event::{MwEv, MwEvV, PlayerEv, PlayerEvV};

verus! {

/// Errors when encoding messages.
#[derive(Debug, PartialEq, Eq, Structural)]
pub enum MsgBinWriteError {
    /// A field holds a value that the encoding cannot represent.
    InvalidValue(u32),
}

/// Errors when decoding messages.
#[derive(Debug, PartialEq, Eq, Structural)]
pub enum MsgBinReadError {
    /// The input ended in the middle of a message.
    Io,
    /// The first byte is not the start of any message.
    UnknownOp(u8),
    /// The player event code is not known.
    UnknownPlayerOp(u8),
    /// A field holds a value that no event has.
    InvalidValue(u32),
    /// A text field is not UTF-8.
    Utf8,
}

/// Binary message decoder.
pub struct MsgBinRead {}

/// Binary message encoder.
pub struct MsgBinWrite {}

impl MsgBinRead {
    /// A new decoder.
    pub fn new() -> (r: Self) {
        MsgBinRead {}
    }
}

impl MsgBinWrite {
    /// A new encoder.
    pub fn new() -> (r: Self) {
        MsgBinWrite {}
    }
}

// ---------------------------------------------------------------------------
// Decoding
// ---------------------------------------------------------------------------

/// The position whose coordinates are stored (y first) in two bytes.
pub open spec fn pos_of_bytes(y: u8, x: u8) -> Pos {
    Pos(y as i8, x as i8)
}

/// A big-endian 16-bit value.
pub open spec fn be16(hi: u8, lo: u8) -> u16 {
    (hi * 256 + lo) as u16
}

/// A big-endian 32-bit value.
pub open spec fn be32(b0: u8, b1: u8, b2: u8, b3: u8) -> u32 {
    (b0 * 0x1000000 + b1 * 0x10000 + b2 * 0x100 + b3) as u32
}

/// The outcome of decoding the message at the front of a byte sequence:
/// how many bytes it took and the events it stands for.
pub enum BinDecoded {
    Done(nat, Seq<MwEvV>),
    Fail(MsgBinReadError),
}

/// The sub-player field of a player message byte (15 means none).
pub open spec fn subplid_of(b: u8) -> Option<u8> {
    if (b & 0xF0u8) >> 4u8 == 15 {
        None
    } else {
        Some((b & 0xF0u8) >> 4u8)
    }
}

/// Decode a length-prefixed text field whose bytes start at `start`.
pub open spec fn decode_text(data: Seq<u8>, start: int, len: int) -> Option<Seq<char>> {
    let bytes = data.subrange(start, start + len);
    if valid_utf8(bytes) {
        Some(decode_utf8(bytes))
    } else {
        None
    }
}

/// Decode a player message (first byte 0).
pub open spec fn bin_decode_player(data: Seq<u8>) -> BinDecoded {
    if data.len() < 3 {
        BinDecoded::Fail(MsgBinReadError::Io)
    } else {
        let plid = PlayerId::from_value(data[1] & 0x0Fu8);
        let subplid = subplid_of(data[1]);
        let op = data[2];
        let one = |ev: PlayerEvV, n: nat| BinDecoded::Done(n, seq![MwEvV::Player { plid, subplid, ev }]);
        if op == 3 {
            one(PlayerEvV::TimeoutFinished, 3)
        } else if 6 <= op <= 11 {
            one(if op == 6 {
                PlayerEvV::Protected
            } else if op == 7 {
                PlayerEvV::Unprotected
            } else if op == 8 {
                PlayerEvV::Eliminated
            } else if op == 9 {
                PlayerEvV::Surrendered
            } else if op == 10 {
                PlayerEvV::Disconnected
            } else {
                PlayerEvV::Kicked
            }, 3)
        } else if op == 1 || op == 2 || op == 5 || (12 <= op <= 15) {
            if data.len() < 4 {
                BinDecoded::Fail(MsgBinReadError::Io)
            } else {
                let b = data[3];
                one(if op == 1 {
                    PlayerEvV::NetRttInfo { duration: MwDur(b) }
                } else if op == 2 {
                    PlayerEvV::Timeout { duration: MwDur(b) }
                } else if op == 5 {
                    PlayerEvV::LivesRemain { lives: b }
                } else if op == 12 {
                    PlayerEvV::VoteNo { id: b }
                } else if op == 13 {
                    PlayerEvV::VoteYes { id: b }
                } else if op == 14 {
                    PlayerEvV::VoteFail { id: b }
                } else {
                    PlayerEvV::VotePass { id: b }
                }, 4)
            }
        } else if op == 4 {
            if data.len() < 6 {
                BinDecoded::Fail(MsgBinReadError::Io)
            } else {
                one(PlayerEvV::Exploded { pos: pos_of_bytes(data[3], data[4]), killer: PlayerId::from_value(data[5]) }, 6)
            }
        } else if op == 18 {
            if data.len() < 5 {
                BinDecoded::Fail(MsgBinReadError::Io)
            } else {
                one(PlayerEvV::MatchTimeRemain { secs: be16(data[3], data[4]) }, 5)
            }
        } else if op == 0 || op == 16 || op == 17 {
            if data.len() < 4 || data.len() < 4 + data[3] {
                BinDecoded::Fail(MsgBinReadError::Io)
            } else {
                match decode_text(data, 4, data[3] as int) {
                    None => BinDecoded::Fail(MsgBinReadError::Utf8),
                    Some(t) => one(if op == 0 {
                        PlayerEvV::Joined { name: t }
                    } else if op == 16 {
                        PlayerEvV::ChatAll { text: t }
                    } else {
                        PlayerEvV::ChatFriendly { text: t }
                    }, (4 + data[3]) as nat),
                }
            }
        } else if op == 19 {
            if data.len() < 5 || data.len() < 5 + data[4] {
                BinDecoded::Fail(MsgBinReadError::Io)
            } else {
                match decode_text(data, 5, data[4] as int) {
                    None => BinDecoded::Fail(MsgBinReadError::Utf8),
                    Some(t) => one(PlayerEvV::VoteNew { id: data[3], l10nkey: t }, (5 + data[4]) as nat),
                }
            }
        } else {
            BinDecoded::Fail(MsgBinReadError::UnknownPlayerOp(op))
        }
    }
}

/// The digit and asterisk of the `i`-th tile of a packed multi-digit message
/// of `n` tiles (as the decoder reads them).
pub open spec fn multi_digit_at(data: Seq<u8>, n: int, i: int) -> (u8, bool) {
    let b = data[1 + 2 * n + i / 2];
    if i / 2 == 0 {
        ((b & 0x70u8) >> 4u8, b & 0x80u8 != 0)
    } else {
        (b & 0x07u8, b & 0x08u8 != 0)
    }
}

/// The events that the message at the front of `data` stands for, and its length.
pub open spec fn bin_decode(data: Seq<u8>) -> BinDecoded {
    if data.len() == 0 {
        BinDecoded::Done(0, seq![])
    } else {
        let b0 = data[0];
        if b0 == 0 {
            bin_decode_player(data)
        } else if b0 == 1 {
            BinDecoded::Done(1, seq![MwEvV::Tremor])
        } else if b0 == 2 || b0 == 3 {
            if data.len() < 3 {
                BinDecoded::Fail(MsgBinReadError::Io)
            } else {
                let pos = pos_of_bytes(data[1], data[2]);
                BinDecoded::Done(3, seq![if b0 == 2 { MwEvV::Smoke { pos } } else { MwEvV::Unsmoke { pos } }])
            }
        } else if b0 == 4 {
            if data.len() < 6 {
                BinDecoded::Fail(MsgBinReadError::Io)
            } else {
                let money = be32(data[2], data[3], data[4], data[5]);
                if money >= 0x80000000 {
                    if data.len() < 8 {
                        BinDecoded::Fail(MsgBinReadError::Io)
                    } else {
                        BinDecoded::Done(8, seq![MwEvV::CitIncome { cit: data[1], money, income: be16(data[6], data[7]) }])
                    }
                } else {
                    BinDecoded::Done(6, seq![MwEvV::CitMoney { cit: data[1], money }])
                }
            }
        } else if 5 <= b0 <= 7 || b0 == 0x0E || b0 == 0x0F {
            if data.len() < 4 {
                BinDecoded::Fail(MsgBinReadError::Io)
            } else {
                BinDecoded::Done(4, seq![if b0 == 5 {
                    MwEvV::CitMoneyTransact { cit: data[1], amount: be16(data[2], data[3]) as i16 }
                } else if b0 == 6 {
                    MwEvV::CitRes { cit: data[1], res: be16(data[2], data[3]) }
                } else if b0 == 7 {
                    MwEvV::CitTradeInfo { cit: data[1], export: data[2], import: data[3] }
                } else if b0 == 0x0E {
                    MwEvV::Debug(data[1], pos_of_bytes(data[2], data[3]))
                } else {
                    MwEvV::Flag { plid: PlayerId::from_value(data[1]), pos: pos_of_bytes(data[2], data[3]) }
                }])
            }
        } else if 8 <= b0 <= 0x0D {
            BinDecoded::Fail(MsgBinReadError::UnknownOp(b0))
        } else if b0 == 0x4F {
            if data.len() < 7 {
                BinDecoded::Fail(MsgBinReadError::Io)
            } else {
                BinDecoded::Done(7, seq![MwEvV::Construction {
                    pos: pos_of_bytes(data[1], data[2]),
                    current: be16(data[3], data[4]),
                    rate: be16(data[5], data[6]),
                }])
            }
        } else if 0x40 <= b0 < 0x50 {
            if data.len() < 5 {
                BinDecoded::Fail(MsgBinReadError::Io)
            } else {
                match StructureKind::from_code((b0 - 0x40) as u8) {
                    None => BinDecoded::Fail(MsgBinReadError::InvalidValue((b0 - 0x40) as u32)),
                    Some(kind) => BinDecoded::Done(5, seq![MwEvV::BuildNew {
                        pos: pos_of_bytes(data[1], data[2]),
                        kind,
                        pts: be16(data[3], data[4]),
                    }]),
                }
            }
        } else if 0x30 <= b0 < 0x40 {
            let n = b0 - 0x30 + 1;
            if data.len() < 1 + 2 * n {
                BinDecoded::Fail(MsgBinReadError::Io)
            } else {
                BinDecoded::Done((1 + 2 * n) as nat, Seq::new(n as nat, |i: int| MwEvV::Explode { pos: pos_of_bytes(data[1 + 2 * i], data[2 + 2 * i]) }))
            }
        } else if b0 >= 0x80 {
            let n = ((b0 & 0x70u8) >> 4u8) + 1;
            if b0 & 0x0Fu8 == 0 {
                if data.len() < 1 + 2 * n + (n + 1) / 2 {
                    BinDecoded::Fail(MsgBinReadError::Io)
                } else {
                    BinDecoded::Done((1 + 2 * n + (n + 1) / 2) as nat, Seq::new(n as nat, |i: int| MwEvV::DigitCapture {
                        pos: pos_of_bytes(data[1 + 2 * i], data[2 + 2 * i]),
                        digit: multi_digit_at(data, n, i).0,
                        asterisk: multi_digit_at(data, n, i).1,
                    }))
                }
            } else {
                if data.len() < 1 + 2 * n {
                    BinDecoded::Fail(MsgBinReadError::Io)
                } else {
                    let plid = PlayerId::from_value(b0 & 0x0Fu8);
                    BinDecoded::Done((1 + 2 * n) as nat, Seq::new(n as nat, |i: int| MwEvV::TileOwner { pos: pos_of_bytes(data[1 + 2 * i], data[2 + 2 * i]), plid }))
                }
            }
        } else {
            // single-tile messages of 3 bytes: 0x1_, 0x2_, 0x5_, 0x6_, 0x7_
            if data.len() < 3 {
                BinDecoded::Fail(MsgBinReadError::Io)
            } else {
                let pos = pos_of_bytes(data[1], data[2]);
                let low = (b0 % 16) as u8;
                if b0 < 0x20 {
                    match ItemKind::from_code(low) {
                        None => BinDecoded::Fail(MsgBinReadError::InvalidValue(low as u32)),
                        Some(item) => BinDecoded::Done(3, seq![MwEvV::RevealItem { pos, item }]),
                    }
                } else if b0 < 0x30 {
                    BinDecoded::Done(3, seq![if low > 0 { MwEvV::StructureHp { pos, hp: low } } else { MwEvV::StructureGone { pos } }])
                } else if b0 < 0x60 {
                    match StructureKind::from_code(low) {
                        None => BinDecoded::Fail(MsgBinReadError::InvalidValue(low as u32)),
                        Some(kind) => BinDecoded::Done(3, seq![MwEvV::RevealStructure { pos, kind }]),
                    }
                } else if b0 < 0x70 {
                    BinDecoded::Done(3, seq![MwEvV::DigitCapture { pos, digit: low % 8, asterisk: low >= 8 }])
                } else {
                    match TileKind::from_code(low) {
                        None => BinDecoded::Fail(MsgBinReadError::InvalidValue(low as u32)),
                        Some(kind) => BinDecoded::Done(3, seq![MwEvV::TileKind { pos, kind }]),
                    }
                }
            }
        }
    }
}

/// `String::from_utf8`: the bytes as a string when they are UTF-8.
#[verifier::external_body]
pub(crate) fn string_from_utf8(bytes: Vec<u8>) -> (r: Option<String>)
    ensures
        r is Some <==> valid_utf8(bytes@),
        r matches Some(s) ==> s@ == decode_utf8(bytes@),
{
    String::from_utf8(bytes).ok()
}

fn read_pos(data: &[u8], i: usize) -> (p: Pos)
    requires
        i + 1 < data.len(),
    ensures
        p == pos_of_bytes(data@[i as int], data@[i + 1]),
{
    Pos(data[i] as i8, data[i + 1] as i8)
}

fn read_be16(data: &[u8], i: usize) -> (v: u16)
    requires
        i + 1 < data.len(),
    ensures
        v == be16(data@[i as int], data@[i + 1]),
{
    data[i] as u16 * 256 + data[i + 1] as u16
}

fn read_text(data: &[u8], start: usize, len: usize) -> (r: Option<String>)
    requires
        start + len <= data.len(),
    ensures
        r is Some <==> decode_text(data@, start as int, len as int) is Some,
        r matches Some(s) ==> decode_text(data@, start as int, len as int) == Some(s@),
{
    let mut v: Vec<u8> = Vec::new();
    let mut i: usize = 0;
    while i < len
        invariant
            start + len <= data.len(),
            i <= len,
            v@ == data@.subrange(start as int, start + i),
        decreases len - i,
    {
        v.push(data[start + i]);
        i = i + 1;
        assert(v@ == data@.subrange(start as int, start + i));
    }
    string_from_utf8(v)
}

impl MsgBinRead {
    /// Decode the message at the front of `data`, appending the events it
    /// stands for to `out`. Returns the number of bytes the message took and
    /// the number of events. Empty input decodes to nothing. On error, `out`
    /// is unchanged.
    pub fn read(&mut self, data: &[u8], out: &mut Vec<MwEv>) -> (r: Result<(usize, usize), MsgBinReadError>)
        ensures
            match bin_decode(data@) {
                BinDecoded::Done(n, evs) => r matches Ok((used, k)) && used == n && k == evs.len()
                    && final(out)@.len() == old(out)@.len() + k
                    && (forall|i: int| 0 <= i < old(out)@.len() ==> #[trigger] final(out)@[i] == old(out)@[i])
                    && (forall|j: int| 0 <= j < k ==> #[trigger] final(out)@[old(out)@.len() + j]@ == evs[j]),
                BinDecoded::Fail(e) => r == Err::<(usize, usize), MsgBinReadError>(e) && final(out)@ == old(out)@,
            },
    {
        let len = data.len();
        if len == 0 {
            return Ok((0, 0));
        }
        let b0 = data[0];
        if b0 == 0 {
            return self.read_player(data, out);
        }
        if b0 == 1 {
            out.push(MwEv::Tremor);
            return Ok((1, 1));
        }
        if b0 & 0b11111110 == 0b00000010 {
            assert(b0 & 0b11111110u8 == 0b00000010u8 <==> (b0 == 2 || b0 == 3)) by (bit_vector);
            assert(b0 & 1u8 == 0 <==> b0 % 2 == 0) by (bit_vector);
            if len < 3 {
                return Err(MsgBinReadError::Io);
            }
            let pos = read_pos(data, 1);
            if b0 & 1 == 0 {
                out.push(MwEv::Smoke { pos });
            } else {
                out.push(MwEv::Unsmoke { pos });
            }
            return Ok((3, 1));
        }
        assert(b0 & 0b11111110u8 != 0b00000010u8 ==> !(b0 == 2 || b0 == 3)) by (bit_vector);
        if b0 == 0b00000100 {
            if len < 6 {
                return Err(MsgBinReadError::Io);
            }
            let cit = data[1];
            let money: u32 = data[2] as u32 * 0x1000000 + data[3] as u32 * 0x10000 + data[4] as u32 * 0x100 + data[5] as u32;
            if money >= 0x80000000 {
                if len < 8 {
                    return Err(MsgBinReadError::Io);
                }
                let income = read_be16(data, 6);
                out.push(MwEv::CitIncome { cit, money, income });
                return Ok((8, 1));
            } else {
                out.push(MwEv::CitMoney { cit, money });
                return Ok((6, 1));
            }
        }
        if b0 == 5 || b0 == 6 || b0 == 7 || b0 == 0x0E || b0 == 0x0F {
            if len < 4 {
                return Err(MsgBinReadError::Io);
            }
            if b0 == 5 {
                let v = read_be16(data, 2);
                out.push(MwEv::CitMoneyTransact { cit: data[1], amount: v as i16 });
            } else if b0 == 6 {
                out.push(MwEv::CitRes { cit: data[1], res: read_be16(data, 2) });
            } else if b0 == 7 {
                out.push(MwEv::CitTradeInfo { cit: data[1], export: data[2], import: data[3] });
            } else if b0 == 0x0E {
                out.push(MwEv::Debug(data[1], read_pos(data, 2)));
            } else {
                out.push(MwEv::Flag { plid: PlayerId::from_u8(data[1]), pos: read_pos(data, 2) });
            }
            return Ok((4, 1));
        }
        if b0 >= 8 && b0 <= 0x0D {
            return Err(MsgBinReadError::UnknownOp(b0));
        }
        if b0 == 0x4F {
            if len < 7 {
                return Err(MsgBinReadError::Io);
            }
            let pos = read_pos(data, 1);
            let current = read_be16(data, 3);
            let rate = read_be16(data, 5);
            out.push(MwEv::Construction { pos, current, rate });
            return Ok((7, 1));
        }
        if b0 >= 0x40 && b0 < 0x50 {
            if len < 5 {
                return Err(MsgBinReadError::Io);
            }
            let kind_byte = b0 - 0x40;
            match StructureKind::from_u8(kind_byte) {
                None => {
                    return Err(MsgBinReadError::InvalidValue(kind_byte as u32));
                },
                Some(kind) => {
                    let pos = read_pos(data, 1);
                    let pts = read_be16(data, 3);
                    out.push(MwEv::BuildNew { pos, kind, pts });
                    return Ok((5, 1));
                },
            }
        }
        if b0 >= 0x30 && b0 < 0x40 {
            let n: usize = (b0 - 0x30) as usize + 1;
            if len < 1 + 2 * n {
                return Err(MsgBinReadError::Io);
            }
            let ghost old_out = out@;
            let mut i: usize = 0;
            while i < n
                invariant
                    n == b0 - 0x30 + 1,
                    1 + 2 * n <= data.len(),
                    i <= n,
                    out@.len() == old_out.len() + i,
                    forall|j: int| 0 <= j < old_out.len() ==> #[trigger] out@[j] == old_out[j],
                    forall|j: int| 0 <= j < i ==> #[trigger] out@[old_out.len() + j]@ == (MwEvV::Explode { pos: pos_of_bytes(data@[1 + 2 * j], data@[2 + 2 * j]) }),
                decreases n - i,
            {
                let pos = read_pos(data, 1 + 2 * i);
                out.push(MwEv::Explode { pos });
                i = i + 1;
            }
            return Ok((1 + 2 * n, n));
        }
        if b0 >= 0x80 {
            let n: usize = ((b0 & 0b01110000) >> 4) as usize + 1;
            assert((b0 & 0x70u8) >> 4u8 <= 7) by (bit_vector);
            let ghost old_out = out@;
            if b0 & 0x0F == 0 {
                let need = 1 + 2 * n + (n + 1) / 2;
                if len < need {
                    return Err(MsgBinReadError::Io);
                }
                let mut i: usize = 0;
                while i < n
                    invariant
                        n == ((b0 & 0x70u8) >> 4u8) + 1,
                        n <= 8,
                        need == 1 + 2 * n + (n + 1) / 2,
                        need <= data.len(),
                        i <= n,
                        out@.len() == old_out.len() + i,
                        forall|j: int| 0 <= j < old_out.len() ==> #[trigger] out@[j] == old_out[j],
                        forall|j: int| 0 <= j < i ==> #[trigger] out@[old_out.len() + j]@ == (MwEvV::DigitCapture {
                            pos: pos_of_bytes(data@[1 + 2 * j], data@[2 + 2 * j]),
                            digit: multi_digit_at(data@, n as int, j).0,
                            asterisk: multi_digit_at(data@, n as int, j).1,
                        }),
                    decreases n - i,
                {
                    let pos = read_pos(data, 1 + 2 * i);
                    let off = 1 + 2 * n + i / 2;
                    let b = data[off];
                    let (digit, asterisk) = if i / 2 == 0 {
                        ((b & 0b01110000) >> 4, b & 0b10000000 != 0)
                    } else {
                        (b & 0b00000111, b & 0b00001000 != 0)
                    };
                    out.push(MwEv::DigitCapture { pos, digit, asterisk });
                    i = i + 1;
                }
                return Ok((need, n));
            } else {
                if len < 1 + 2 * n {
                    return Err(MsgBinReadError::Io);
                }
                let plid = PlayerId::from_u8(b0 & 0x0F);
                let mut i: usize = 0;
                while i < n
                    invariant
                        n == ((b0 & 0x70u8) >> 4u8) + 1,
                        n <= 8,
                        1 + 2 * n <= data.len(),
                        plid == PlayerId::from_value(b0 & 0x0Fu8),
                        i <= n,
                        out@.len() == old_out.len() + i,
                        forall|j: int| 0 <= j < old_out.len() ==> #[trigger] out@[j] == old_out[j],
                        forall|j: int| 0 <= j < i ==> #[trigger] out@[old_out.len() + j]@ == (MwEvV::TileOwner { pos: pos_of_bytes(data@[1 + 2 * j], data@[2 + 2 * j]), plid }),
                    decreases n - i,
                {
                    let pos = read_pos(data, 1 + 2 * i);
                    out.push(MwEv::TileOwner { pos, plid });
                    i = i + 1;
                }
                return Ok((1 + 2 * n, n));
            }
        }
        if len < 3 {
            return Err(MsgBinReadError::Io);
        }
        let pos = read_pos(data, 1);
        let low = b0 & 0x0F;
        assert(b0 & 0x0Fu8 == b0 % 16) by (bit_vector);
        if b0 < 0x20 {
            match ItemKind::from_u8(low) {
                None => {
                    return Err(MsgBinReadError::InvalidValue(low as u32));
                },
                Some(item) => {
                    out.push(MwEv::RevealItem { pos, item });
                },
            }
        } else if b0 < 0x30 {
            if low > 0 {
                out.push(MwEv::StructureHp { pos, hp: low });
            } else {
                out.push(MwEv::StructureGone { pos });
            }
        } else if b0 < 0x60 {
            match StructureKind::from_u8(low) {
                None => {
                    return Err(MsgBinReadError::InvalidValue(low as u32));
                },
                Some(kind) => {
                    out.push(MwEv::RevealStructure { pos, kind });
                },
            }
        } else if b0 < 0x70 {
            assert(low & 0x07u8 == low % 8 && (low & 0x08u8 != 0 <==> low >= 8)) by (bit_vector)
                requires low < 16;
            out.push(MwEv::DigitCapture { pos, digit: low & 0x07, asterisk: low & 0x08 != 0 });
        } else {
            match TileKind::from_u8(low) {
                None => {
                    return Err(MsgBinReadError::InvalidValue(low as u32));
                },
                Some(kind) => {
                    out.push(MwEv::TileKind { pos, kind });
                },
            }
        }
        Ok((3, 1))
    }

    fn read_player(&mut self, data: &[u8], out: &mut Vec<MwEv>) -> (r: Result<(usize, usize), MsgBinReadError>)
        requires
            data.len() > 0,
            data@[0] == 0,
        ensures
            match bin_decode_player(data@) {
                BinDecoded::Done(n, evs) => r matches Ok((used, k)) && used == n && k == evs.len()
                    && final(out)@.len() == old(out)@.len() + k
                    && (forall|i: int| 0 <= i < old(out)@.len() ==> #[trigger] final(out)@[i] == old(out)@[i])
                    && (forall|j: int| 0 <= j < k ==> #[trigger] final(out)@[old(out)@.len() + j]@ == evs[j]),
                BinDecoded::Fail(e) => r == Err::<(usize, usize), MsgBinReadError>(e) && final(out)@ == old(out)@,
            },
    {
        let len = data.len();
        if len < 3 {
            return Err(MsgBinReadError::Io);
        }
        let plid = PlayerId::from_u8(data[1] & 0x0F);
        let sub = (data[1] & 0xF0) >> 4;
        let subplid = if sub == 15 { None } else { Some(sub) };
        let op = data[2];
        let ev: PlayerEv;
        let used: usize;
        if op == 3 {
            ev = PlayerEv::TimeoutFinished;
            used = 3;
        } else if op >= 6 && op <= 11 {
            ev = if op == 6 {
                PlayerEv::Protected
            } else if op == 7 {
                PlayerEv::Unprotected
            } else if op == 8 {
                PlayerEv::Eliminated
            } else if op == 9 {
                PlayerEv::Surrendered
            } else if op == 10 {
                PlayerEv::Disconnected
            } else {
                PlayerEv::Kicked
            };
            used = 3;
        } else if op == 1 || op == 2 || op == 5 || (op >= 12 && op <= 15) {
            if len < 4 {
                return Err(MsgBinReadError::Io);
            }
            let b = data[3];
            ev = if op == 1 {
                PlayerEv::NetRttInfo { duration: MwDur(b) }
            } else if op == 2 {
                PlayerEv::Timeout { duration: MwDur(b) }
            } else if op == 5 {
                PlayerEv::LivesRemain { lives: b }
            } else if op == 12 {
                PlayerEv::VoteNo { id: b }
            } else if op == 13 {
                PlayerEv::VoteYes { id: b }
            } else if op == 14 {
                PlayerEv::VoteFail { id: b }
            } else {
                PlayerEv::VotePass { id: b }
            };
            used = 4;
        } else if op == 4 {
            if len < 6 {
                return Err(MsgBinReadError::Io);
            }
            ev = PlayerEv::Exploded { pos: read_pos(data, 3), killer: PlayerId::from_u8(data[5]) };
            used = 6;
        } else if op == 18 {
            if len < 5 {
                return Err(MsgBinReadError::Io);
            }
            ev = PlayerEv::MatchTimeRemain { secs: read_be16(data, 3) };
            used = 5;
        } else if op == 0 || op == 16 || op == 17 {
            if len < 4 || len < 4 + data[3] as usize {
                return Err(MsgBinReadError::Io);
            }
            let slen = data[3] as usize;
            match read_text(data, 4, slen) {
                None => {
                    return Err(MsgBinReadError::Utf8);
                },
                Some(t) => {
                    ev = if op == 0 {
                        PlayerEv::Joined { name: t }
                    } else if op == 16 {
                        PlayerEv::ChatAll { text: t }
                    } else {
                        PlayerEv::ChatFriendly { text: t }
                    };
                    used = 4 + slen;
                },
            }
        } else if op == 19 {
            if len < 5 || len < 5 + data[4] as usize {
                return Err(MsgBinReadError::Io);
            }
            let slen = data[4] as usize;
            match read_text(data, 5, slen) {
                None => {
                    return Err(MsgBinReadError::Utf8);
                },
                Some(t) => {
                    ev = PlayerEv::VoteNew { id: data[3], l10nkey: t };
                    used = 5 + slen;
                },
            }
        } else {
            return Err(MsgBinReadError::UnknownPlayerOp(op));
        }
        out.push(MwEv::Player { plid, subplid, ev });
        Ok((used, 1))
    }
}

} // verus!
