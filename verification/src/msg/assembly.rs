//! "Assembly language" for game event messages: a human-readable text form
//! of the message stream, one instruction per line, to help with debugging
//! and development.

use vstd::prelude::*;
use crate::plid::PlayerId;
use crate::grid::pos::Pos;
use crate::time::{MwDur, dur_from_millis};
use crate::game::{ItemKind, StructureKind, TileKind};
use crate::game::event::{MwEv, MwEvV, PlayerEv, PlayerEvV};
use vstd::string::StrSliceExecFns;
use super::text::{find_char_from, parse_unsigned, parse_signed, upper, code_part, words, pairs_view,
    words_in_bounds, words_of, code_bounds, chars_of, word_is, parse_unsigned_at, parse_signed_at, find_char,
    lemma_find_char_from_offset};
use super::bin::string_from_utf8;
use vstd::utf8::{valid_utf8, decode_utf8};

verus! {

/// Errors when writing the text form.
#[derive(Debug, Clone, Copy, PartialEq, Eq, Structural)]
pub enum MsgAsmWriteError {
    /// Formatting failed.
    Fmt,
    /// Writing failed.
    Io,
}

/// Errors when reading the text form.
#[derive(Debug, Clone)]
pub enum MsgAsmReadError {
    /// The input is not UTF-8 text.
    Io,
    /// Unknown instruction (upper-cased).
    UnknownOp(String),
    /// Invalid operand.
    BadArg(String),
    /// Expected more operands.
    NotEnoughArgs,
    /// Too many operands.
    TooManyArgs,
}

/// Errors when writing events as text through a formatter.
#[derive(Debug, Clone, Copy, PartialEq, Eq, Structural)]
pub enum MsgDisasmError {
    /// Formatting failed.
    Fmt,
}

/// Errors when reading text into a buffer of messages.
#[derive(Debug, Clone)]
pub enum MsgAsmError {
    /// No space in the output buffer.
    BufferFull,
    /// Unknown instruction.
    UnknownOp(String),
    /// Invalid operand.
    BadArg(String),
    /// Expected more operands.
    NotEnoughArgs,
    /// Too many operands.
    TooManyArgs,
}

/// The mathematical value of a [`MsgAsmReadError`].
pub enum AsmErr {
    Io,
    UnknownOp(Seq<char>),
    BadArg(Seq<char>),
    NotEnoughArgs,
    TooManyArgs,
}

impl View for MsgAsmReadError {
    type V = AsmErr;

    open spec fn view(&self) -> AsmErr {
        match self {
            MsgAsmReadError::Io => AsmErr::Io,
            MsgAsmReadError::UnknownOp(s) => AsmErr::UnknownOp(s@),
            MsgAsmReadError::BadArg(s) => AsmErr::BadArg(s@),
            MsgAsmReadError::NotEnoughArgs => AsmErr::NotEnoughArgs,
            MsgAsmReadError::TooManyArgs => AsmErr::TooManyArgs,
        }
    }
}

/// Reader of the text form.
pub struct MsgAsmRead {}

/// Writer of the text form.
pub struct MsgAsmWrite {}

/// What reading an instruction gives: the events, or an error together
/// with the events of the operands read before it.
pub enum AsmParsed {
    Done(Seq<MwEvV>),
    Fail(AsmErr, Seq<MwEvV>),
}

/// An outcome with some events read before it.
pub open spec fn after_events(evs: Seq<MwEvV>, r: AsmParsed) -> AsmParsed {
    match r {
        AsmParsed::Done(e2) => AsmParsed::Done(evs + e2),
        AsmParsed::Fail(e, e2) => AsmParsed::Fail(e, evs + e2),
    }
}

/// An error with no events read.
pub open spec fn fail(e: AsmErr) -> AsmParsed {
    AsmParsed::Fail(e, seq![])
}

/// Word `k` of the text.
pub open spec fn wd(t: Seq<char>, ws: Seq<(int, int)>, k: int) -> Seq<char> {
    t.subrange(ws[k].0, ws[k].1)
}

/// The text after word `k` and the one separator that follows it, if the
/// word does not end the text.
pub open spec fn rest_after(t: Seq<char>, ws: Seq<(int, int)>, k: int) -> Option<Seq<char>> {
    if ws[k].1 >= t.len() { None } else { Some(t.subrange(ws[k].1 + 1, t.len() as int)) }
}

/// A `u8` as `str::parse` reads it.
pub open spec fn pu8(s: Seq<char>) -> Option<u8> {
    match parse_unsigned(s, 255) { Some(v) => Some(v as u8), None => None }
}

/// A `u16` as `str::parse` reads it.
pub open spec fn pu16(s: Seq<char>) -> Option<u16> {
    match parse_unsigned(s, 0xFFFF) { Some(v) => Some(v as u16), None => None }
}

/// A `u32` as `str::parse` reads it.
pub open spec fn pu32(s: Seq<char>) -> Option<u32> {
    match parse_unsigned(s, 0xFFFF_FFFF) { Some(v) => Some(v as u32), None => None }
}

/// An `i16` as `str::parse` reads it.
pub open spec fn pi16(s: Seq<char>) -> Option<i16> {
    match parse_signed(s, -0x8000, 0x7FFF) { Some(v) => Some(v as i16), None => None }
}

/// A position written `y,x`: the text up to the first comma and the text
/// between it and the next comma (if any) are each an `i8`.
pub open spec fn parse_pos_v(s: Seq<char>) -> Option<Pos> {
    let c1 = find_char_from(s, ',', 0);
    if c1 >= s.len() {
        None
    } else {
        let c2 = find_char_from(s, ',', c1 + 1);
        match (parse_signed(s.subrange(0, c1), -128, 127), parse_signed(s.subrange(c1 + 1, c2), -128, 127)) {
            (Some(y), Some(x)) => Some(Pos(y as i8, x as i8)),
            _ => None,
        }
    }
}

/// A position operand, or the error for it.
pub open spec fn pos_arg(s: Seq<char>) -> Result<Pos, AsmErr> {
    match parse_pos_v(s) {
        Some(p) => Ok(p),
        None => Err(AsmErr::BadArg(s)),
    }
}

/// `DEBUG i y,x`
pub open spec fn asm_debug(t: Seq<char>, ws: Seq<(int, int)>) -> AsmParsed {
    if ws.len() < 3 {
        fail(AsmErr::NotEnoughArgs)
    } else if ws.len() > 3 {
        fail(AsmErr::TooManyArgs)
    } else {
        match pu8(wd(t, ws, 1)) {
            None => fail(AsmErr::BadArg(wd(t, ws, 1))),
            Some(i) => match pos_arg(wd(t, ws, 2)) {
                Err(e) => fail(e),
                Ok(pos) => AsmParsed::Done(seq![MwEvV::Debug(i, pos)]),
            },
        }
    }
}

/// A player event that takes no operand.
pub open spec fn plain_status(st: Seq<char>) -> Option<PlayerEvV> {
    if st == "RESUME"@ {
        Some(PlayerEvV::TimeoutFinished)
    } else if st == "PROTECT"@ {
        Some(PlayerEvV::Protected)
    } else if st == "UNPROTECT"@ {
        Some(PlayerEvV::Unprotected)
    } else if st == "ELIMINATE"@ {
        Some(PlayerEvV::Eliminated)
    } else if st == "SURRENDER"@ {
        Some(PlayerEvV::Surrendered)
    } else if st == "LEAVE"@ {
        Some(PlayerEvV::Disconnected)
    } else if st == "KICK"@ {
        Some(PlayerEvV::Kicked)
    } else {
        None
    }
}

/// The player event of a `PLAYER` instruction (status at word 2), and
/// whether its last operand takes the rest of the line.
pub open spec fn player_status_v(t: Seq<char>, ws: Seq<(int, int)>) -> Result<(PlayerEvV, bool), AsmErr> {
    let n = ws.len();
    let st = upper(wd(t, ws, 2));
    if st == "JOIN"@ {
        match rest_after(t, ws, 2) {
            None => Err(AsmErr::NotEnoughArgs),
            Some(r) => Ok((PlayerEvV::Joined { name: r }, true)),
        }
    } else if st == "RTT"@ || st == "TIMEOUT"@ {
        if n < 4 {
            Err(AsmErr::NotEnoughArgs)
        } else {
            match pu16(wd(t, ws, 3)) {
                None => Err(AsmErr::BadArg(wd(t, ws, 3))),
                Some(ms) => Ok((if st == "RTT"@ {
                    PlayerEvV::NetRttInfo { duration: MwDur(dur_from_millis(ms)) }
                } else {
                    PlayerEvV::Timeout { duration: MwDur(dur_from_millis(ms)) }
                }, false)),
            }
        }
    } else if st == "EXPLODE"@ {
        if n < 5 {
            Err(AsmErr::NotEnoughArgs)
        } else {
            match pos_arg(wd(t, ws, 3)) {
                Err(e) => Err(e),
                Ok(pos) => match pu8(wd(t, ws, 4)) {
                    None => Err(AsmErr::BadArg(wd(t, ws, 4))),
                    Some(k) => Ok((PlayerEvV::Exploded { pos, killer: PlayerId::from_value(k) }, false)),
                },
            }
        }
    } else if st == "LIVES"@ {
        if n < 4 {
            Err(AsmErr::NotEnoughArgs)
        } else {
            match pu8(wd(t, ws, 3)) {
                None => Err(AsmErr::BadArg(wd(t, ws, 3))),
                Some(l) => Ok((PlayerEvV::LivesRemain { lives: l }, false)),
            }
        }
    } else if plain_status(st) is Some {
        Ok((plain_status(st)->Some_0, false))
    } else if st == "TIMELIMIT"@ {
        if n < 4 {
            Err(AsmErr::NotEnoughArgs)
        } else {
            match pu16(wd(t, ws, 3)) {
                None => Err(AsmErr::BadArg(wd(t, ws, 3))),
                Some(secs) => Ok((PlayerEvV::MatchTimeRemain { secs }, false)),
            }
        }
    } else if st == "CHAT"@ || st == "CHATALL"@ {
        match rest_after(t, ws, 2) {
            None => Err(AsmErr::NotEnoughArgs),
            Some(r) => Ok((if st == "CHAT"@ { PlayerEvV::ChatFriendly { text: r } } else { PlayerEvV::ChatAll { text: r } }, true)),
        }
    } else if st == "VOTENEW"@ {
        if n < 4 {
            Err(AsmErr::NotEnoughArgs)
        } else {
            match rest_after(t, ws, 3) {
                None => Err(AsmErr::NotEnoughArgs),
                Some(r) => match pu8(wd(t, ws, 3)) {
                    None => Err(AsmErr::BadArg(wd(t, ws, 3))),
                    Some(id) => Ok((PlayerEvV::VoteNew { id, l10nkey: r }, true)),
                },
            }
        }
    } else if st == "VOTEFAIL"@ || st == "VOTEPASS"@ {
        if n < 4 {
            Err(AsmErr::NotEnoughArgs)
        } else {
            match pu8(wd(t, ws, 3)) {
                None => Err(AsmErr::BadArg(wd(t, ws, 3))),
                Some(id) => Ok((if st == "VOTEFAIL"@ { PlayerEvV::VoteFail { id } } else { PlayerEvV::VotePass { id } }, false)),
            }
        }
    } else if st == "VOTE"@ {
        if n < 5 {
            Err(AsmErr::NotEnoughArgs)
        } else {
            match pu8(wd(t, ws, 3)) {
                None => Err(AsmErr::BadArg(wd(t, ws, 3))),
                Some(id) => {
                    let yn = wd(t, ws, 4);
                    if yn == "y"@ || yn == "Y"@ {
                        Ok((PlayerEvV::VoteYes { id }, false))
                    } else if yn == "n"@ || yn == "N"@ {
                        Ok((PlayerEvV::VoteNo { id }, false))
                    } else {
                        Err(AsmErr::BadArg(yn))
                    }
                },
            }
        }
    } else {
        Err(AsmErr::BadArg(st))
    }
}

/// The number of words that a player status with fixed operands takes.
pub open spec fn player_status_words(st: Seq<char>) -> int {
    if st == "EXPLODE"@ || st == "VOTE"@ {
        5
    } else if st == "RTT"@ || st == "TIMEOUT"@ || st == "LIVES"@ || st == "TIMELIMIT"@ || st == "VOTEFAIL"@ || st == "VOTEPASS"@ {
        4
    } else {
        3
    }
}

/// `PLAYER plid[/subplid] STATUS operands...`
pub open spec fn asm_player(t: Seq<char>, ws: Seq<(int, int)>) -> AsmParsed {
    if ws.len() < 3 {
        fail(AsmErr::NotEnoughArgs)
    } else {
        let a = wd(t, ws, 1);
        let sl = find_char_from(a, '/', 0);
        let p = a.subrange(0, sl);
        let sub = if sl < a.len() { a.subrange(sl + 1, a.len() as int) } else { seq![] };
        match pu8(p) {
            None => fail(AsmErr::BadArg(p)),
            Some(plid) => {
                let subplid: Option<Option<u8>> = if sub.len() == 0 {
                    Some(None)
                } else {
                    match pu8(sub) { Some(s) => Some(Some(s)), None => None }
                };
                match subplid {
                    None => fail(AsmErr::BadArg(p)),
                    Some(subplid) => match player_status_v(t, ws) {
                        Err(e) => fail(e),
                        Ok((ev, boundless)) => if !boundless && ws.len() > player_status_words(upper(wd(t, ws, 2))) {
                            fail(AsmErr::TooManyArgs)
                        } else {
                            AsmParsed::Done(seq![MwEvV::Player { plid: PlayerId::from_value(plid), subplid, ev }])
                        },
                    },
                }
            },
        }
    }
}

/// The tile kind named by a word (upper-cased).
pub open spec fn tile_kind_named(k: Seq<char>) -> Option<TileKind> {
    if k == "WATER"@ {
        Some(TileKind::Water)
    } else if k == "REGULAR"@ {
        Some(TileKind::Regular)
    } else if k == "FERTILE"@ {
        Some(TileKind::Fertile)
    } else if k == "DESTROYED"@ {
        Some(TileKind::Destroyed)
    } else if k == "FOUNDATION"@ {
        Some(TileKind::FoundationStruct)
    } else if k == "MOUNTAIN"@ {
        Some(TileKind::Mountain)
    } else if k == "FOREST"@ {
        Some(TileKind::Forest)
    } else {
        None
    }
}

/// The structure kind named by a word (upper-cased).
pub open spec fn structure_named(k: Seq<char>) -> Option<StructureKind> {
    if k == "ROAD"@ {
        Some(StructureKind::Road)
    } else if k == "BRIDGE"@ {
        Some(StructureKind::Bridge)
    } else if k == "WALL"@ {
        Some(StructureKind::Barricade)
    } else if k == "TOWER"@ {
        Some(StructureKind::WatchTower)
    } else {
        None
    }
}

/// The item kind named by a word (upper-cased).
pub open spec fn item_named(k: Seq<char>) -> Option<ItemKind> {
    if k == "NONE"@ {
        Some(ItemKind::Safe)
    } else if k == "DECOY"@ {
        Some(ItemKind::Decoy)
    } else if k == "MINE"@ {
        Some(ItemKind::Mine)
    } else if k == "TRAP"@ {
        Some(ItemKind::Trap)
    } else {
        None
    }
}

/// An instruction of exactly `n` words (the instruction and its operands).
pub open spec fn arity(ws: Seq<(int, int)>, n: int) -> Option<AsmErr> {
    if ws.len() < n { Some(AsmErr::NotEnoughArgs) } else if ws.len() > n { Some(AsmErr::TooManyArgs) } else { None }
}

/// `TILE y,x kind`
pub open spec fn asm_tile(t: Seq<char>, ws: Seq<(int, int)>) -> AsmParsed {
    match arity(ws, 3) {
        Some(e) => fail(e),
        None => match pos_arg(wd(t, ws, 1)) {
            Err(e) => fail(e),
            Ok(pos) => match tile_kind_named(upper(wd(t, ws, 2))) {
                None => fail(AsmErr::BadArg(upper(wd(t, ws, 2)))),
                Some(kind) => AsmParsed::Done(seq![MwEvV::TileKind { pos, kind }]),
            },
        },
    }
}

/// One operand of `DIGITS`: `digit[*]/y,x`.
pub open spec fn digit_arg(a: Seq<char>) -> Result<MwEvV, AsmErr> {
    let sl = find_char_from(a, '/', 0);
    if sl >= a.len() {
        Err(AsmErr::BadArg(a))
    } else {
        let d0 = a.subrange(0, sl);
        let pp = a.subrange(sl + 1, a.len() as int);
        let star = d0.len() > 0 && d0.last() == '*';
        let d = if star { d0.drop_last() } else { d0 };
        match pu8(d) {
            None => Err(AsmErr::BadArg(d)),
            Some(digit) => match pos_arg(pp) {
                Err(e) => Err(e),
                Ok(pos) => Ok(MwEvV::DigitCapture { pos, digit, asterisk: star }),
            },
        }
    }
}

/// The events of the operands from word `k` on, each read by `one_arg`
/// (0: digits, 1: explosions, otherwise tile owner `plid`).
pub open spec fn multi_from(t: Seq<char>, ws: Seq<(int, int)>, k: int, kind: int, plid: PlayerId) -> AsmParsed
    decreases ws.len() - k,
{
    if k >= ws.len() || k < 0 {
        AsmParsed::Done(seq![])
    } else {
        let a = wd(t, ws, k);
        let ev: Result<MwEvV, AsmErr> = if kind == 0 {
            digit_arg(a)
        } else {
            match pos_arg(a) {
                Err(e) => Err(e),
                Ok(pos) => Ok(if kind == 1 { MwEvV::Explode { pos } } else { MwEvV::TileOwner { pos, plid } }),
            }
        };
        match ev {
            Err(e) => fail(e),
            Ok(e) => after_events(seq![e], multi_from(t, ws, k + 1, kind, plid)),
        }
    }
}

/// `DIGITS d/y,x ...`, `EXPLODE y,x ...`: one or more operands.
pub open spec fn asm_multi(t: Seq<char>, ws: Seq<(int, int)>, kind: int, plid: PlayerId, first: int) -> AsmParsed {
    match multi_from(t, ws, first, kind, plid) {
        AsmParsed::Done(evs) => if evs.len() == 0 { fail(AsmErr::NotEnoughArgs) } else { AsmParsed::Done(evs) },
        r => r,
    }
}

/// `OWNER plid y,x ...`
pub open spec fn asm_owner(t: Seq<char>, ws: Seq<(int, int)>) -> AsmParsed {
    if ws.len() < 2 {
        fail(AsmErr::NotEnoughArgs)
    } else {
        match pu8(wd(t, ws, 1)) {
            None => fail(AsmErr::BadArg(wd(t, ws, 1))),
            Some(p) => if p > 7 {
                fail(AsmErr::BadArg(wd(t, ws, 1)))
            } else {
                asm_multi(t, ws, 2, PlayerId::from_value(p), 2)
            },
        }
    }
}

/// `FLAG plid y,x`
pub open spec fn asm_flag(t: Seq<char>, ws: Seq<(int, int)>) -> AsmParsed {
    match arity(ws, 3) {
        Some(e) => fail(e),
        None => match pu8(wd(t, ws, 1)) {
            None => fail(AsmErr::BadArg(wd(t, ws, 1))),
            Some(p) => if p > 7 {
                fail(AsmErr::BadArg(wd(t, ws, 1)))
            } else {
                match pos_arg(wd(t, ws, 2)) {
                    Err(e) => fail(e),
                    Ok(pos) => AsmParsed::Done(seq![MwEvV::Flag { pos, plid: PlayerId::from_value(p) }]),
                }
            },
        },
    }
}

/// `CITRES cit res`, `CITTRANS cit amount`, `CITMONEY cit money`,
/// `CITINCOME cit money income`, `CITTRADE cit export import`.
pub open spec fn asm_cit(t: Seq<char>, ws: Seq<(int, int)>, op: Seq<char>) -> AsmParsed {
    let n = if op == "CITINCOME"@ || op == "CITTRADE"@ { 4int } else { 3int };
    match arity(ws, n) {
        Some(e) => fail(e),
        None => match pu8(wd(t, ws, 1)) {
            None => fail(AsmErr::BadArg(wd(t, ws, 1))),
            Some(cit) => {
                let a2 = wd(t, ws, 2);
                if op == "CITRES"@ {
                    match pu16(a2) {
                        None => fail(AsmErr::BadArg(a2)),
                        Some(res) => AsmParsed::Done(seq![MwEvV::CitRes { cit, res }]),
                    }
                } else if op == "CITTRANS"@ {
                    match pi16(a2) {
                        None => fail(AsmErr::BadArg(a2)),
                        Some(amount) => AsmParsed::Done(seq![MwEvV::CitMoneyTransact { cit, amount }]),
                    }
                } else if op == "CITMONEY"@ {
                    match pu32(a2) {
                        None => fail(AsmErr::BadArg(a2)),
                        Some(money) => AsmParsed::Done(seq![MwEvV::CitMoney { cit, money }]),
                    }
                } else if op == "CITINCOME"@ {
                    match pu32(a2) {
                        None => fail(AsmErr::BadArg(a2)),
                        Some(money) => match pu16(wd(t, ws, 3)) {
                            None => fail(AsmErr::BadArg(wd(t, ws, 3))),
                            Some(income) => AsmParsed::Done(seq![MwEvV::CitIncome { cit, money, income }]),
                        },
                    }
                } else {
                    match pu8(a2) {
                        None => fail(AsmErr::BadArg(a2)),
                        Some(export) => match pu8(wd(t, ws, 3)) {
                            None => fail(AsmErr::BadArg(wd(t, ws, 3))),
                            Some(import) => AsmParsed::Done(seq![MwEvV::CitTradeInfo { cit, export, import }]),
                        },
                    }
                }
            },
        },
    }
}

/// `STRUCT y,x kind`, `NOSTRUCT y,x`, `STRUCTHP y,x hp`,
/// `BUILDNEW y,x kind pts`, `BUILD y,x current rate`, `ITEM y,x item`,
/// `SMOKE y,x`, `UNSMOKE y,x`: instructions whose first operand is a position.
pub open spec fn asm_at(t: Seq<char>, ws: Seq<(int, int)>, op: Seq<char>) -> AsmParsed {
    let n = if op == "NOSTRUCT"@ || op == "SMOKE"@ || op == "UNSMOKE"@ {
        2int
    } else if op == "BUILDNEW"@ || op == "BUILD"@ {
        4int
    } else {
        3int
    };
    match arity(ws, n) {
        Some(e) => fail(e),
        None => match pos_arg(wd(t, ws, 1)) {
            Err(e) => fail(e),
            Ok(pos) => if op == "NOSTRUCT"@ {
                AsmParsed::Done(seq![MwEvV::StructureGone { pos }])
            } else if op == "SMOKE"@ {
                AsmParsed::Done(seq![MwEvV::Smoke { pos }])
            } else if op == "UNSMOKE"@ {
                AsmParsed::Done(seq![MwEvV::Unsmoke { pos }])
            } else if op == "STRUCT"@ {
                match structure_named(upper(wd(t, ws, 2))) {
                    None => fail(AsmErr::BadArg(upper(wd(t, ws, 2)))),
                    Some(kind) => AsmParsed::Done(seq![MwEvV::RevealStructure { pos, kind }]),
                }
            } else if op == "STRUCTHP"@ {
                match pu8(wd(t, ws, 2)) {
                    None => fail(AsmErr::BadArg(wd(t, ws, 2))),
                    Some(hp) => AsmParsed::Done(seq![MwEvV::StructureHp { pos, hp }]),
                }
            } else if op == "BUILDNEW"@ {
                match structure_named(upper(wd(t, ws, 2))) {
                    None => fail(AsmErr::BadArg(upper(wd(t, ws, 2)))),
                    Some(kind) => match pu16(wd(t, ws, 3)) {
                        None => fail(AsmErr::BadArg(wd(t, ws, 3))),
                        Some(pts) => AsmParsed::Done(seq![MwEvV::BuildNew { pos, kind, pts }]),
                    },
                }
            } else if op == "BUILD"@ {
                match pu16(wd(t, ws, 2)) {
                    None => fail(AsmErr::BadArg(wd(t, ws, 2))),
                    Some(current) => match pu16(wd(t, ws, 3)) {
                        // the error names the previous operand
                        None => fail(AsmErr::BadArg(wd(t, ws, 2))),
                        Some(rate) => AsmParsed::Done(seq![MwEvV::Construction { pos, current, rate }]),
                    },
                }
            } else {
                match item_named(upper(wd(t, ws, 2))) {
                    None => fail(AsmErr::BadArg(upper(wd(t, ws, 2)))),
                    Some(item) => AsmParsed::Done(seq![MwEvV::RevealItem { pos, item }]),
                }
            },
        },
    }
}

/// Whether an instruction name (upper-cased) is one of those that `asm_at`
/// reads.
pub open spec fn is_at_op(op: Seq<char>) -> bool {
    op == "STRUCT"@ || op == "NOSTRUCT"@ || op == "STRUCTHP"@ || op == "BUILDNEW"@ || op == "BUILD"@
        || op == "ITEM"@ || op == "SMOKE"@ || op == "UNSMOKE"@
}

/// Whether an instruction name (upper-cased) is one of those that `asm_cit`
/// reads.
pub open spec fn is_cit_op(op: Seq<char>) -> bool {
    op == "CITRES"@ || op == "CITTRANS"@ || op == "CITMONEY"@ || op == "CITINCOME"@ || op == "CITTRADE"@
}

/// The events of the instruction in a text (already cut at `;` and
/// trimmed) whose words are `ws`.
pub open spec fn asm_words(t: Seq<char>, ws: Seq<(int, int)>) -> AsmParsed {
    if ws.len() == 0 {
        AsmParsed::Done(seq![])
    } else {
        let op = upper(wd(t, ws, 0));
        if op == "DEBUG"@ {
            asm_debug(t, ws)
        } else if op == "PLAYER"@ {
            asm_player(t, ws)
        } else if op == "TILE"@ {
            asm_tile(t, ws)
        } else if op == "DIGITS"@ {
            asm_multi(t, ws, 0, PlayerId::Neutral, 1)
        } else if op == "OWNER"@ {
            asm_owner(t, ws)
        } else if op == "FLAG"@ {
            asm_flag(t, ws)
        } else if is_cit_op(op) {
            asm_cit(t, ws, op)
        } else if is_at_op(op) {
            asm_at(t, ws, op)
        } else if op == "EXPLODE"@ {
            asm_multi(t, ws, 1, PlayerId::Neutral, 1)
        } else if op == "SHAKE"@ || op == "NOP"@ {
            if ws.len() > 1 {
                fail(AsmErr::TooManyArgs)
            } else {
                AsmParsed::Done(seq![if op == "SHAKE"@ { MwEvV::Tremor } else { MwEvV::Nop }])
            }
        } else {
            fail(AsmErr::UnknownOp(op))
        }
    }
}

/// The events of the instruction on a line of text: what precedes the first
/// `;` (a comment), trimmed, split into words at ASCII white space; the
/// first word (in any case) names the instruction.
pub open spec fn asm_line(line: Seq<char>) -> AsmParsed {
    asm_words(code_part(line), words(code_part(line)))
}

/// The events that `out` gained: it kept what it had and gained events
/// with the values `evs`.
pub open spec fn gained(before: Seq<MwEv>, after: Seq<MwEv>, evs: Seq<MwEvV>) -> bool {
    &&& after.len() == before.len() + evs.len()
    &&& forall|i: int| 0 <= i < before.len() ==> #[trigger] after[i] == before[i]
    &&& forall|j: int| 0 <= j < evs.len() ==> #[trigger] after[before.len() + j]@ == evs[j]
}

/// The outcome of reading an instruction, as the result and `out` show it.
pub open spec fn read_as(p: AsmParsed, r: Result<usize, MsgAsmReadError>, before: Seq<MwEv>, after: Seq<MwEv>) -> bool {
    match p {
        AsmParsed::Done(evs) => r == Ok::<usize, MsgAsmReadError>(evs.len() as usize) && gained(before, after, evs),
        AsmParsed::Fail(e, evs) => (r matches Err(x) && x@ == e) && gained(before, after, evs),
    }
}

/// `str::to_ascii_uppercase`: the text with ASCII letters in upper case.
#[verifier::external_body]
fn ascii_upper(s: &str) -> (r: String)
    ensures
        r@ == upper(s@),
{
    s.to_ascii_uppercase()
}

/// A line being read: its code part, the characters of it, and its words.
struct AsmLine<'a> {
    text: &'a str,
    chars: Vec<char>,
    ws: Vec<(usize, usize)>,
}

impl<'a> AsmLine<'a> {
    spec fn t(&self) -> Seq<char> {
        self.chars@
    }

    spec fn wsv(&self) -> Seq<(int, int)> {
        pairs_view(self.ws@)
    }

    spec fn ok(&self) -> bool {
        &&& self.text@ == self.chars@
        &&& self.wsv() == words(self.chars@)
        &&& words_in_bounds(self.chars@, self.wsv())
    }

    fn n(&self) -> (r: usize)
        ensures
            r == self.wsv().len(),
    {
        self.ws.len()
    }

    fn bounds(&self, k: usize) -> (r: (usize, usize))
        requires
            self.ok(),
            k < self.wsv().len(),
        ensures
            r.0 == self.wsv()[k as int].0,
            r.1 == self.wsv()[k as int].1,
            r.0 < r.1 <= self.chars@.len(),
    {
        self.ws[k]
    }

    fn word_string(&self, k: usize) -> (r: String)
        requires
            self.ok(),
            k < self.wsv().len(),
        ensures
            r@ == wd(self.t(), self.wsv(), k as int),
    {
        let (a, b) = self.bounds(k);
        self.text.substring_char(a, b).to_owned()
    }

    fn upper_word_string(&self, k: usize) -> (r: String)
        requires
            self.ok(),
            k < self.wsv().len(),
        ensures
            r@ == upper(wd(self.t(), self.wsv(), k as int)),
    {
        let (a, b) = self.bounds(k);
        ascii_upper(self.text.substring_char(a, b))
    }

    fn is_kw(&self, k: usize, kw: &str) -> (r: bool)
        requires
            self.ok(),
            k < self.wsv().len(),
        ensures
            r == (upper(wd(self.t(), self.wsv(), k as int)) == kw@),
    {
        let (a, b) = self.bounds(k);
        let w = chars_of(kw);
        word_is(&self.chars, a, b, &w)
    }

    fn word_is(&self, k: usize, w: &str) -> (r: bool)
        requires
            self.ok(),
            k < self.wsv().len(),
        ensures
            r == (wd(self.t(), self.wsv(), k as int) == w@),
    {
        let (a, b) = self.bounds(k);
        let wc = chars_of(w);
        let ghost word = wd(self.t(), self.wsv(), k as int);
        assert(word =~= self.chars@.subrange(a as int, b as int));
        let mut i: usize = 0;
        if b - a != wc.len() {
            proof {
                assert(wd(self.t(), self.wsv(), k as int).len() != w@.len());
            }
            return false;
        }
        while i < wc.len()
            invariant
                a + wc@.len() == b <= self.chars@.len(),
                wc@ == w@,
                i <= wc@.len(),
                forall|j: int| 0 <= j < i ==> self.chars@[a + j] == wc@[j],
                word == self.chars@.subrange(a as int, b as int),
                word == wd(self.t(), self.wsv(), k as int),
            decreases wc@.len() - i,
        {
            if self.chars[a + i] != wc[i] {
                proof {
                    assert(word[i as int] != w@[i as int]);
                }
                return false;
            }
            i = i + 1;
        }
        proof {
            assert(word =~= w@);
        }
        true
    }

    fn rest_string(&self, k: usize) -> (r: Option<String>)
        requires
            self.ok(),
            k < self.wsv().len(),
        ensures
            match rest_after(self.t(), self.wsv(), k as int) {
                Some(x) => r matches Some(y) && y@ == x,
                None => r is None,
            },
    {
        let (_a, b) = self.bounds(k);
        let n = self.chars.len();
        if b >= n {
            None
        } else {
            Some(self.text.substring_char(b + 1, n).to_owned())
        }
    }

    fn arg_uint(&self, k: usize, max: u64) -> (r: Option<u64>)
        requires
            self.ok(),
            k < self.wsv().len(),
        ensures
            match parse_unsigned(wd(self.t(), self.wsv(), k as int), max as int) {
                Some(v) => r == Some(v as u64) && 0 <= v <= max,
                None => r is None,
            },
    {
        let (a, b) = self.bounds(k);
        parse_unsigned_at(&self.chars, a, b, max)
    }

    fn arg_u8(&self, k: usize) -> (r: Option<u8>)
        requires
            self.ok(),
            k < self.wsv().len(),
        ensures
            r == pu8(wd(self.t(), self.wsv(), k as int)),
    {
        match self.arg_uint(k, 255) {
            Some(v) => Some(v as u8),
            None => None,
        }
    }

    fn arg_u16(&self, k: usize) -> (r: Option<u16>)
        requires
            self.ok(),
            k < self.wsv().len(),
        ensures
            r == pu16(wd(self.t(), self.wsv(), k as int)),
    {
        match self.arg_uint(k, 0xFFFF) {
            Some(v) => Some(v as u16),
            None => None,
        }
    }

    fn arg_u32(&self, k: usize) -> (r: Option<u32>)
        requires
            self.ok(),
            k < self.wsv().len(),
        ensures
            r == pu32(wd(self.t(), self.wsv(), k as int)),
    {
        match self.arg_uint(k, 0xFFFF_FFFF) {
            Some(v) => Some(v as u32),
            None => None,
        }
    }

    fn arg_i16(&self, k: usize) -> (r: Option<i16>)
        requires
            self.ok(),
            k < self.wsv().len(),
        ensures
            r == pi16(wd(self.t(), self.wsv(), k as int)),
    {
        let (a, b) = self.bounds(k);
        match parse_signed_at(&self.chars, a, b, -0x8000, 0x7FFF) {
            Some(v) => Some(v as i16),
            None => None,
        }
    }

    /// The position that `chars[a..b]` holds (see `parse_pos_v`).
    fn pos_at(&self, a: usize, b: usize) -> (r: Option<Pos>)
        requires
            a <= b <= self.chars@.len(),
        ensures
            r == parse_pos_v(self.chars@.subrange(a as int, b as int)),
    {
        let ghost s = self.chars@.subrange(a as int, b as int);
        let c1 = find_char(&self.chars, ',', a, b);
        if c1 >= b {
            return None;
        }
        let c2 = find_char(&self.chars, ',', c1 + 1, b);
        proof {
            let k1 = c1 - a;
            lemma_find_char_from_offset(s, ',', k1 + 1);
            assert(s.subrange(k1 + 1, s.len() as int) =~= self.chars@.subrange(c1 + 1, b as int));
            assert(s.subrange(0, k1) =~= self.chars@.subrange(a as int, c1 as int));
            assert(s.subrange(k1 + 1, c2 - a) =~= self.chars@.subrange(c1 + 1, c2 as int));
        }
        let y = parse_signed_at(&self.chars, a, c1, -128, 127);
        let x = parse_signed_at(&self.chars, c1 + 1, c2, -128, 127);
        match (y, x) {
            (Some(y), Some(x)) => Some(Pos(y as i8, x as i8)),
            _ => None,
        }
    }

    fn arg_pos(&self, k: usize) -> (r: Option<Pos>)
        requires
            self.ok(),
            k < self.wsv().len(),
        ensures
            r == parse_pos_v(wd(self.t(), self.wsv(), k as int)),
    {
        let (a, b) = self.bounds(k);
        self.pos_at(a, b)
    }
}

fn bad_arg(line: &AsmLine, k: usize) -> (r: MsgAsmReadError)
    requires
        line.ok(),
        k < line.wsv().len(),
    ensures
        r@ == AsmErr::BadArg(wd(line.t(), line.wsv(), k as int)),
{
    MsgAsmReadError::BadArg(line.word_string(k))
}

fn pos_or_err(line: &AsmLine, k: usize) -> (r: Result<Pos, MsgAsmReadError>)
    requires
        line.ok(),
        k < line.wsv().len(),
    ensures
        match pos_arg(wd(line.t(), line.wsv(), k as int)) {
            Ok(p) => r == Ok::<Pos, MsgAsmReadError>(p),
            Err(e) => r matches Err(x) && x@ == e,
        },
{
    match line.arg_pos(k) {
        Some(p) => Ok(p),
        None => Err(bad_arg(line, k)),
    }
}

/// Check the number of words (see `arity`).
fn check_arity(line: &AsmLine, n: usize) -> (r: Result<(), MsgAsmReadError>)
    ensures
        match arity(line.wsv(), n as int) {
            Some(e) => r matches Err(x) && x@ == e,
            None => r is Ok,
        },
{
    if line.n() < n {
        Err(MsgAsmReadError::NotEnoughArgs)
    } else if line.n() > n {
        Err(MsgAsmReadError::TooManyArgs)
    } else {
        Ok(())
    }
}


fn push_one(out: &mut Vec<MwEv>, e: MwEv) -> (r: Result<usize, MsgAsmReadError>)
    ensures
        r == Ok::<usize, MsgAsmReadError>(1),
        gained(old(out)@, final(out)@, seq![e@]),
{
    out.push(e);
    Ok(1)
}

fn read_debug(line: &AsmLine, out: &mut Vec<MwEv>) -> (r: Result<usize, MsgAsmReadError>)
    requires
        line.ok(),
    ensures
        read_as(asm_debug(line.t(), line.wsv()), r, old(out)@, final(out)@),
{
    check_arity(line, 3)?;
    let i = match line.arg_u8(1) {
        Some(i) => i,
        None => return Err(bad_arg(line, 1)),
    };
    let pos = pos_or_err(line, 2)?;
    push_one(out, MwEv::Debug(i, pos))
}

fn read_tile(line: &AsmLine, out: &mut Vec<MwEv>) -> (r: Result<usize, MsgAsmReadError>)
    requires
        line.ok(),
    ensures
        read_as(asm_tile(line.t(), line.wsv()), r, old(out)@, final(out)@),
{
    check_arity(line, 3)?;
    let pos = pos_or_err(line, 1)?;
    let kind = if line.is_kw(2, "WATER") {
        TileKind::Water
    } else if line.is_kw(2, "REGULAR") {
        TileKind::Regular
    } else if line.is_kw(2, "FERTILE") {
        TileKind::Fertile
    } else if line.is_kw(2, "DESTROYED") {
        TileKind::Destroyed
    } else if line.is_kw(2, "FOUNDATION") {
        TileKind::FoundationStruct
    } else if line.is_kw(2, "MOUNTAIN") {
        TileKind::Mountain
    } else if line.is_kw(2, "FOREST") {
        TileKind::Forest
    } else {
        return Err(MsgAsmReadError::BadArg(line.upper_word_string(2)));
    };
    push_one(out, MwEv::TileKind { pos, kind })
}

fn read_flag(line: &AsmLine, out: &mut Vec<MwEv>) -> (r: Result<usize, MsgAsmReadError>)
    requires
        line.ok(),
    ensures
        read_as(asm_flag(line.t(), line.wsv()), r, old(out)@, final(out)@),
{
    check_arity(line, 3)?;
    let p = match line.arg_u8(1) {
        Some(p) => p,
        None => return Err(bad_arg(line, 1)),
    };
    if p > 7 {
        return Err(bad_arg(line, 1));
    }
    let pos = pos_or_err(line, 2)?;
    push_one(out, MwEv::Flag { pos, plid: PlayerId::from_u8(p) })
}

/// One operand of `DIGITS` (see `digit_arg`).
fn digit_operand(line: &AsmLine, k: usize) -> (r: Result<MwEv, MsgAsmReadError>)
    requires
        line.ok(),
        k < line.wsv().len(),
    ensures
        match digit_arg(wd(line.t(), line.wsv(), k as int)) {
            Ok(e) => r matches Ok(x) && x@ == e,
            Err(e) => r matches Err(x) && x@ == e,
        },
{
    let (a, b) = line.bounds(k);
    let ghost w = line.chars@.subrange(a as int, b as int);
    let sl = find_char(&line.chars, '/', a, b);
    if sl >= b {
        return Err(bad_arg(line, k));
    }
    let star = sl > a && line.chars[sl - 1] == '*';
    let dend = if star { sl - 1 } else { sl };
    proof {
        let k1 = sl - a;
        assert(w.subrange(0, k1) =~= line.chars@.subrange(a as int, sl as int));
        assert(w.subrange(k1 + 1, w.len() as int) =~= line.chars@.subrange(sl + 1, b as int));
        if star {
            assert(w.subrange(0, k1).drop_last() =~= line.chars@.subrange(a as int, dend as int));
        }
    }
    let digit = match parse_unsigned_at(&line.chars, a, dend, 255) {
        Some(d) => d as u8,
        None => return Err(MsgAsmReadError::BadArg(line.text.substring_char(a, dend).to_owned())),
    };
    let pos = match line.pos_at(sl + 1, b) {
        Some(p) => p,
        None => return Err(MsgAsmReadError::BadArg(line.text.substring_char(sl + 1, b).to_owned())),
    };
    Ok(MwEv::DigitCapture { pos, digit, asterisk: star })
}

/// The operands from word `first` on (see `asm_multi`).
fn read_multi(line: &AsmLine, out: &mut Vec<MwEv>, kind: u8, plid: PlayerId, first: usize) -> (r: Result<usize, MsgAsmReadError>)
    requires
        line.ok(),
        1 <= first,
    ensures
        read_as(asm_multi(line.t(), line.wsv(), kind as int, plid, first as int), r, old(out)@, final(out)@),
{
    let ghost t = line.t();
    let ghost ws = line.wsv();
    let ghost whole = multi_from(t, ws, first as int, kind as int, plid);
    let ghost before = old(out)@;
    let ghost mut evs: Seq<MwEvV> = seq![];
    let n = line.n();
    if first > n {
        return Err(MsgAsmReadError::NotEnoughArgs);
    }
    let mut k: usize = first;
    let mut count: usize = 0;
    assert(whole == after_events(evs, multi_from(t, ws, k as int, kind as int, plid))) by {
        match whole {
            AsmParsed::Done(x) => assert(evs + x =~= x),
            AsmParsed::Fail(_, x) => assert(evs + x =~= x),
        }
    }
    while k < n
        invariant
            first <= k <= n,
            n == ws.len(),
            line.ok(),
            t == line.t(),
            ws == line.wsv(),
            before == old(out)@,
            count == evs.len(),
            count <= k - first,
            gained(before, out@, evs),
            whole == multi_from(t, ws, first as int, kind as int, plid),
            whole == after_events(evs, multi_from(t, ws, k as int, kind as int, plid)),
        decreases n - k,
    {
        let ev = if kind == 0 {
            digit_operand(line, k)
        } else {
            match pos_or_err(line, k) {
                Err(e) => Err(e),
                Ok(pos) => Ok(if kind == 1 { MwEv::Explode { pos } } else { MwEv::TileOwner { pos, plid } }),
            }
        };
        match ev {
            Err(e) => {
                proof {
                    assert(evs + seq![] =~= evs);
                }
                return Err(e);
            },
            Ok(e) => {
                let ghost ev_v = e@;
                proof {
                    let tail = multi_from(t, ws, k + 1, kind as int, plid);
                    match tail {
                        AsmParsed::Done(x) => assert(evs + (seq![ev_v] + x) =~= evs.push(ev_v) + x),
                        AsmParsed::Fail(_, x) => assert(evs + (seq![ev_v] + x) =~= evs.push(ev_v) + x),
                    }
                }
                out.push(e);
                proof {
                    evs = evs.push(ev_v);
                }
                count = count + 1;
                k = k + 1;
            },
        }
    }
    proof {
        assert(evs + seq![] =~= evs);
    }
    if count == 0 {
        return Err(MsgAsmReadError::NotEnoughArgs);
    }
    Ok(count)
}

fn read_owner(line: &AsmLine, out: &mut Vec<MwEv>) -> (r: Result<usize, MsgAsmReadError>)
    requires
        line.ok(),
    ensures
        read_as(asm_owner(line.t(), line.wsv()), r, old(out)@, final(out)@),
{
    if line.n() < 2 {
        return Err(MsgAsmReadError::NotEnoughArgs);
    }
    let p = match line.arg_u8(1) {
        Some(p) => p,
        None => return Err(bad_arg(line, 1)),
    };
    if p > 7 {
        return Err(bad_arg(line, 1));
    }
    read_multi(line, out, 2, PlayerId::from_u8(p), 2)
}

fn read_cit(line: &AsmLine, out: &mut Vec<MwEv>, op: &String) -> (r: Result<usize, MsgAsmReadError>)
    requires
        line.ok(),
        is_cit_op(op@),
        line.wsv().len() > 0,
        op@ == upper(wd(line.t(), line.wsv(), 0)),
    ensures
        read_as(asm_cit(line.t(), line.wsv(), op@), r, old(out)@, final(out)@),
{
    let income = line.is_kw(0, "CITINCOME");
    let trade = line.is_kw(0, "CITTRADE");
    check_arity(line, if income || trade { 4 } else { 3 })?;
    let cit = match line.arg_u8(1) {
        Some(c) => c,
        None => return Err(bad_arg(line, 1)),
    };
    if line.is_kw(0, "CITRES") {
        match line.arg_u16(2) {
            None => Err(bad_arg(line, 2)),
            Some(res) => push_one(out, MwEv::CitRes { cit, res }),
        }
    } else if line.is_kw(0, "CITTRANS") {
        match line.arg_i16(2) {
            None => Err(bad_arg(line, 2)),
            Some(amount) => push_one(out, MwEv::CitMoneyTransact { cit, amount }),
        }
    } else if line.is_kw(0, "CITMONEY") {
        match line.arg_u32(2) {
            None => Err(bad_arg(line, 2)),
            Some(money) => push_one(out, MwEv::CitMoney { cit, money }),
        }
    } else if income {
        match line.arg_u32(2) {
            None => Err(bad_arg(line, 2)),
            Some(money) => match line.arg_u16(3) {
                None => Err(bad_arg(line, 3)),
                Some(income) => push_one(out, MwEv::CitIncome { cit, money, income }),
            },
        }
    } else {
        match line.arg_u8(2) {
            None => Err(bad_arg(line, 2)),
            Some(export) => match line.arg_u8(3) {
                None => Err(bad_arg(line, 3)),
                Some(import) => push_one(out, MwEv::CitTradeInfo { cit, export, import }),
            },
        }
    }
}

fn structure_kind_of(line: &AsmLine, k: usize) -> (r: Option<StructureKind>)
    requires
        line.ok(),
        k < line.wsv().len(),
    ensures
        r == structure_named(upper(wd(line.t(), line.wsv(), k as int))),
{
    if line.is_kw(k, "ROAD") {
        Some(StructureKind::Road)
    } else if line.is_kw(k, "BRIDGE") {
        Some(StructureKind::Bridge)
    } else if line.is_kw(k, "WALL") {
        Some(StructureKind::Barricade)
    } else if line.is_kw(k, "TOWER") {
        Some(StructureKind::WatchTower)
    } else {
        None
    }
}

fn read_at(line: &AsmLine, out: &mut Vec<MwEv>, op: &String) -> (r: Result<usize, MsgAsmReadError>)
    requires
        line.ok(),
        is_at_op(op@),
        op@ == upper(wd(line.t(), line.wsv(), 0)),
        line.wsv().len() > 0,
    ensures
        read_as(asm_at(line.t(), line.wsv(), op@), r, old(out)@, final(out)@),
{
    let nostruct = line.is_kw(0, "NOSTRUCT");
    let smoke = line.is_kw(0, "SMOKE");
    let unsmoke = line.is_kw(0, "UNSMOKE");
    let buildnew = line.is_kw(0, "BUILDNEW");
    let build = line.is_kw(0, "BUILD");
    check_arity(line, if nostruct || smoke || unsmoke { 2 } else if buildnew || build { 4 } else { 3 })?;
    let pos = pos_or_err(line, 1)?;
    if nostruct {
        push_one(out, MwEv::StructureGone { pos })
    } else if smoke {
        push_one(out, MwEv::Smoke { pos })
    } else if unsmoke {
        push_one(out, MwEv::Unsmoke { pos })
    } else if line.is_kw(0, "STRUCT") {
        match structure_kind_of(line, 2) {
            None => Err(MsgAsmReadError::BadArg(line.upper_word_string(2))),
            Some(kind) => push_one(out, MwEv::RevealStructure { pos, kind }),
        }
    } else if line.is_kw(0, "STRUCTHP") {
        match line.arg_u8(2) {
            None => Err(bad_arg(line, 2)),
            Some(hp) => push_one(out, MwEv::StructureHp { pos, hp }),
        }
    } else if buildnew {
        match structure_kind_of(line, 2) {
            None => Err(MsgAsmReadError::BadArg(line.upper_word_string(2))),
            Some(kind) => match line.arg_u16(3) {
                None => Err(bad_arg(line, 3)),
                Some(pts) => push_one(out, MwEv::BuildNew { pos, kind, pts }),
            },
        }
    } else if build {
        match line.arg_u16(2) {
            None => Err(bad_arg(line, 2)),
            Some(current) => match line.arg_u16(3) {
                None => Err(bad_arg(line, 2)),
                Some(rate) => push_one(out, MwEv::Construction { pos, current, rate }),
            },
        }
    } else {
        let item = if line.is_kw(2, "NONE") {
            ItemKind::Safe
        } else if line.is_kw(2, "DECOY") {
            ItemKind::Decoy
        } else if line.is_kw(2, "MINE") {
            ItemKind::Mine
        } else if line.is_kw(2, "TRAP") {
            ItemKind::Trap
        } else {
            return Err(MsgAsmReadError::BadArg(line.upper_word_string(2)));
        };
        push_one(out, MwEv::RevealItem { pos, item })
    }
}

/// The player event of a `PLAYER` instruction (see `player_status_v`).
#[verifier::rlimit(40)]
fn player_status(line: &AsmLine) -> (r: Result<(PlayerEv, bool), MsgAsmReadError>)
    requires
        line.ok(),
        line.wsv().len() >= 3,
    ensures
        match player_status_v(line.t(), line.wsv()) {
            Ok((ev, b)) => r matches Ok((e, bb)) && e@ == ev && bb == b,
            Err(e) => r matches Err(x) && x@ == e,
        },
{
    let n = line.n();
    if line.is_kw(2, "JOIN") {
        match line.rest_string(2) {
            None => Err(MsgAsmReadError::NotEnoughArgs),
            Some(name) => Ok((PlayerEv::Joined { name }, true)),
        }
    } else if line.is_kw(2, "RTT") || line.is_kw(2, "TIMEOUT") {
        if n < 4 {
            return Err(MsgAsmReadError::NotEnoughArgs);
        }
        match line.arg_u16(3) {
            None => Err(bad_arg(line, 3)),
            Some(ms) => {
                let duration = MwDur::from_millis_lossy(ms);
                if line.is_kw(2, "RTT") {
                    Ok((PlayerEv::NetRttInfo { duration }, false))
                } else {
                    Ok((PlayerEv::Timeout { duration }, false))
                }
            },
        }
    } else if line.is_kw(2, "EXPLODE") {
        if n < 5 {
            return Err(MsgAsmReadError::NotEnoughArgs);
        }
        let pos = pos_or_err(line, 3)?;
        match line.arg_u8(4) {
            None => Err(bad_arg(line, 4)),
            Some(k) => Ok((PlayerEv::Exploded { pos, killer: PlayerId::from_u8(k) }, false)),
        }
    } else if line.is_kw(2, "LIVES") {
        if n < 4 {
            return Err(MsgAsmReadError::NotEnoughArgs);
        }
        match line.arg_u8(3) {
            None => Err(bad_arg(line, 3)),
            Some(lives) => Ok((PlayerEv::LivesRemain { lives }, false)),
        }
    } else if line.is_kw(2, "RESUME") {
        Ok((PlayerEv::TimeoutFinished, false))
    } else if line.is_kw(2, "PROTECT") {
        Ok((PlayerEv::Protected, false))
    } else if line.is_kw(2, "UNPROTECT") {
        Ok((PlayerEv::Unprotected, false))
    } else if line.is_kw(2, "ELIMINATE") {
        Ok((PlayerEv::Eliminated, false))
    } else if line.is_kw(2, "SURRENDER") {
        Ok((PlayerEv::Surrendered, false))
    } else if line.is_kw(2, "LEAVE") {
        Ok((PlayerEv::Disconnected, false))
    } else if line.is_kw(2, "KICK") {
        Ok((PlayerEv::Kicked, false))
    } else if line.is_kw(2, "TIMELIMIT") {
        if n < 4 {
            return Err(MsgAsmReadError::NotEnoughArgs);
        }
        match line.arg_u16(3) {
            None => Err(bad_arg(line, 3)),
            Some(secs) => Ok((PlayerEv::MatchTimeRemain { secs }, false)),
        }
    } else if line.is_kw(2, "CHAT") {
        match line.rest_string(2) {
            None => Err(MsgAsmReadError::NotEnoughArgs),
            Some(text) => Ok((PlayerEv::ChatFriendly { text }, true)),
        }
    } else if line.is_kw(2, "CHATALL") {
        match line.rest_string(2) {
            None => Err(MsgAsmReadError::NotEnoughArgs),
            Some(text) => Ok((PlayerEv::ChatAll { text }, true)),
        }
    } else if line.is_kw(2, "VOTENEW") {
        if n < 4 {
            return Err(MsgAsmReadError::NotEnoughArgs);
        }
        match line.rest_string(3) {
            None => Err(MsgAsmReadError::NotEnoughArgs),
            Some(l10nkey) => match line.arg_u8(3) {
                None => Err(bad_arg(line, 3)),
                Some(id) => Ok((PlayerEv::VoteNew { id, l10nkey }, true)),
            },
        }
    } else if line.is_kw(2, "VOTEFAIL") || line.is_kw(2, "VOTEPASS") {
        if n < 4 {
            return Err(MsgAsmReadError::NotEnoughArgs);
        }
        match line.arg_u8(3) {
            None => Err(bad_arg(line, 3)),
            Some(id) => if line.is_kw(2, "VOTEFAIL") {
                Ok((PlayerEv::VoteFail { id }, false))
            } else {
                Ok((PlayerEv::VotePass { id }, false))
            },
        }
    } else if line.is_kw(2, "VOTE") {
        if n < 5 {
            return Err(MsgAsmReadError::NotEnoughArgs);
        }
        match line.arg_u8(3) {
            None => Err(bad_arg(line, 3)),
            Some(id) => {
                if line.word_is(4, "y") || line.word_is(4, "Y") {
                    Ok((PlayerEv::VoteYes { id }, false))
                } else if line.word_is(4, "n") || line.word_is(4, "N") {
                    Ok((PlayerEv::VoteNo { id }, false))
                } else {
                    Err(bad_arg(line, 4))
                }
            },
        }
    } else {
        Err(MsgAsmReadError::BadArg(line.upper_word_string(2)))
    }
}

/// The number of words of a player status with fixed operands (see
/// `player_status_words`).
fn status_words(line: &AsmLine) -> (r: usize)
    requires
        line.ok(),
        line.wsv().len() >= 3,
    ensures
        r == player_status_words(upper(wd(line.t(), line.wsv(), 2))),
{
    if line.is_kw(2, "EXPLODE") || line.is_kw(2, "VOTE") {
        5
    } else if line.is_kw(2, "RTT") || line.is_kw(2, "TIMEOUT") || line.is_kw(2, "LIVES")
        || line.is_kw(2, "TIMELIMIT") || line.is_kw(2, "VOTEFAIL") || line.is_kw(2, "VOTEPASS") {
        4
    } else {
        3
    }
}

fn read_player(line: &AsmLine, out: &mut Vec<MwEv>) -> (r: Result<usize, MsgAsmReadError>)
    requires
        line.ok(),
    ensures
        read_as(asm_player(line.t(), line.wsv()), r, old(out)@, final(out)@),
{
    if line.n() < 3 {
        return Err(MsgAsmReadError::NotEnoughArgs);
    }
    let (a, b) = line.bounds(1);
    let ghost w = line.chars@.subrange(a as int, b as int);
    let sl = find_char(&line.chars, '/', a, b);
    proof {
        let k1 = sl - a;
        assert(w.subrange(0, k1) =~= line.chars@.subrange(a as int, sl as int));
        if sl < b {
            assert(w.subrange(k1 + 1, w.len() as int) =~= line.chars@.subrange(sl + 1, b as int));
        }
    }
    let plid = match parse_unsigned_at(&line.chars, a, sl, 255) {
        Some(p) => p as u8,
        None => return Err(MsgAsmReadError::BadArg(line.text.substring_char(a, sl).to_owned())),
    };
    let subplid = if sl >= b || sl + 1 == b {
        None
    } else {
        match parse_unsigned_at(&line.chars, sl + 1, b, 255) {
            Some(s) => Some(s as u8),
            None => return Err(MsgAsmReadError::BadArg(line.text.substring_char(a, sl).to_owned())),
        }
    };
    let (ev, boundless) = player_status(line)?;
    if !boundless && line.n() > status_words(line) {
        return Err(MsgAsmReadError::TooManyArgs);
    }
    push_one(out, MwEv::Player { plid: PlayerId::from_u8(plid), subplid, ev })
}

/// The events of the instruction on a line (see `asm_words`).
fn read_words(line: &AsmLine, out: &mut Vec<MwEv>) -> (r: Result<usize, MsgAsmReadError>)
    requires
        line.ok(),
    ensures
        read_as(asm_words(line.t(), line.wsv()), r, old(out)@, final(out)@),
{
    if line.n() == 0 {
        return Ok(0);
    }
    if line.is_kw(0, "DEBUG") {
        read_debug(line, out)
    } else if line.is_kw(0, "PLAYER") {
        read_player(line, out)
    } else if line.is_kw(0, "TILE") {
        read_tile(line, out)
    } else if line.is_kw(0, "DIGITS") {
        read_multi(line, out, 0, PlayerId::Neutral, 1)
    } else if line.is_kw(0, "OWNER") {
        read_owner(line, out)
    } else if line.is_kw(0, "FLAG") {
        read_flag(line, out)
    } else if line.is_kw(0, "CITRES") || line.is_kw(0, "CITTRANS") || line.is_kw(0, "CITMONEY")
        || line.is_kw(0, "CITINCOME") || line.is_kw(0, "CITTRADE") {
        let op = line.upper_word_string(0);
        read_cit(line, out, &op)
    } else if line.is_kw(0, "STRUCT") || line.is_kw(0, "NOSTRUCT") || line.is_kw(0, "STRUCTHP")
        || line.is_kw(0, "BUILDNEW") || line.is_kw(0, "BUILD") || line.is_kw(0, "ITEM")
        || line.is_kw(0, "SMOKE") || line.is_kw(0, "UNSMOKE") {
        let op = line.upper_word_string(0);
        read_at(line, out, &op)
    } else if line.is_kw(0, "EXPLODE") {
        read_multi(line, out, 1, PlayerId::Neutral, 1)
    } else if line.is_kw(0, "SHAKE") || line.is_kw(0, "NOP") {
        if line.n() > 1 {
            Err(MsgAsmReadError::TooManyArgs)
        } else if line.is_kw(0, "SHAKE") {
            push_one(out, MwEv::Tremor)
        } else {
            push_one(out, MwEv::Nop)
        }
    } else {
        Err(MsgAsmReadError::UnknownOp(line.upper_word_string(0)))
    }
}

/// The length of the first line of the bytes: up to and including the
/// first `\n`, or all of them.
pub open spec fn line_len(data: Seq<u8>) -> int {
    let i = find_byte(data, 10, 0);
    if i < data.len() { i + 1 } else { data.len() as int }
}

/// The first index at or after `i` that holds `b`, or the length.
pub open spec fn find_byte(data: Seq<u8>, b: u8, i: int) -> int
    decreases data.len() - i,
{
    if i >= data.len() { data.len() as int } else if data[i] == b { i } else { find_byte(data, b, i + 1) }
}

/// What reading the first line of the bytes gives: an I/O error if the
/// line is not UTF-8 text, else the events of the instruction on it.
pub open spec fn asm_read(data: Seq<u8>) -> AsmParsed {
    let line = data.subrange(0, line_len(data));
    if !valid_utf8(line) {
        fail(AsmErr::Io)
    } else {
        asm_line(decode_utf8(line))
    }
}

/// The instruction text of a line (the code part of its characters).
fn read_text(line: &str, out: &mut Vec<MwEv>) -> (r: Result<usize, MsgAsmReadError>)
    ensures
        read_as(asm_line(line@), r, old(out)@, final(out)@),
{
    let all = chars_of(line);
    let (a, b) = code_bounds(&all);
    let text = line.substring_char(a, b);
    let chars = chars_of(text);
    let ws = words_of(&chars);
    let asm_line_ = AsmLine { text, chars, ws };
    read_words(&asm_line_, out)
}

/// The instruction named on a line (upper-cased), if there is one.
pub open spec fn line_op(line: Seq<char>) -> Option<Seq<char>> {
    let t = code_part(line);
    let ws = words(t);
    if ws.len() == 0 { None } else { Some(upper(wd(t, ws, 0))) }
}

/// `DECONSTRUCT y,x`
pub open spec fn asm_deconstruct(t: Seq<char>, ws: Seq<(int, int)>) -> AsmParsed {
    match arity(ws, 2) {
        Some(e) => fail(e),
        None => match pos_arg(wd(t, ws, 1)) {
            Err(e) => fail(e),
            Ok(pos) => AsmParsed::Done(seq![MwEvV::StructureGone { pos }]),
        },
    }
}

/// The events of a line in the instruction set of low-level messages: the
/// same instructions as `asm_line`, except that a structure is removed by
/// `DECONSTRUCT` and there is no `DEBUG` (nor `NOSTRUCT`).
pub open spec fn msg_asm_line(line: Seq<char>) -> AsmParsed {
    let t = code_part(line);
    let ws = words(t);
    if ws.len() == 0 {
        AsmParsed::Done(seq![])
    } else {
        let op = upper(wd(t, ws, 0));
        if op == "DEBUG"@ || op == "NOSTRUCT"@ {
            fail(AsmErr::UnknownOp(op))
        } else if op == "DECONSTRUCT"@ {
            asm_deconstruct(t, ws)
        } else {
            asm_words(t, ws)
        }
    }
}

/// An outcome whose events all have a low-level message (no player events)
/// and whose error, if any, is not an input error.
pub open spec fn parsed_plain(p: AsmParsed) -> bool {
    match p {
        AsmParsed::Done(evs) => forall|i: int| 0 <= i < evs.len() ==> !(#[trigger] evs[i] is Player),
        AsmParsed::Fail(e, evs) => !(e is Io) && forall|i: int| 0 <= i < evs.len() ==> !(#[trigger] evs[i] is Player),
    }
}

proof fn lemma_plain_prepend(e: MwEvV, p: AsmParsed)
    requires
        !(e is Player),
        parsed_plain(p),
    ensures
        parsed_plain(after_events(seq![e], p)),
{
    match p {
        AsmParsed::Done(evs) => {
            let all = seq![e] + evs;
            assert forall|i: int| 0 <= i < all.len() implies !(#[trigger] all[i] is Player) by {
                if i > 0 {
                    assert(all[i] == evs[i - 1]);
                }
            }
        },
        AsmParsed::Fail(x, evs) => {
            let all = seq![e] + evs;
            assert forall|i: int| 0 <= i < all.len() implies !(#[trigger] all[i] is Player) by {
                if i > 0 {
                    assert(all[i] == evs[i - 1]);
                }
            }
        },
    }
}

proof fn lemma_multi_plain(t: Seq<char>, ws: Seq<(int, int)>, k: int, kind: int, plid: PlayerId)
    ensures
        parsed_plain(multi_from(t, ws, k, kind, plid)),
    decreases ws.len() - k,
{
    if k < ws.len() && k >= 0 {
        lemma_multi_plain(t, ws, k + 1, kind, plid);
        let a = wd(t, ws, k);
        let ev: Result<MwEvV, AsmErr> = if kind == 0 {
            digit_arg(a)
        } else {
            match pos_arg(a) {
                Err(e) => Err(e),
                Ok(pos) => Ok(if kind == 1 { MwEvV::Explode { pos } } else { MwEvV::TileOwner { pos, plid } }),
            }
        };
        match ev {
            Err(e) => {},
            Ok(e) => lemma_plain_prepend(e, multi_from(t, ws, k + 1, kind, plid)),
        }
    }
}

/// A line that does not name `PLAYER` gives no player events, and no input
/// error: every event it gives has a low-level message.
#[verifier::spinoff_prover]
#[verifier::rlimit(40)]
pub proof fn lemma_msg_asm_line_plain(line: Seq<char>)
    requires
        line_op(line) != Some("PLAYER"@),
    ensures
        parsed_plain(msg_asm_line(line)),
{
    let t = code_part(line);
    let ws = words(t);
    if ws.len() > 0 {
        lemma_multi_plain(t, ws, 1, 0, PlayerId::Neutral);
        lemma_multi_plain(t, ws, 1, 1, PlayerId::Neutral);
        if ws.len() >= 2 {
            match pu8(wd(t, ws, 1)) {
                Some(p) => lemma_multi_plain(t, ws, 2, 2, PlayerId::from_value(p)),
                None => {},
            }
        }
    }
}

/// The events of a line in the instruction set of low-level messages (see
/// `msg_asm_line`).
pub(crate) fn read_msg_text(line: &str, out: &mut Vec<MwEv>) -> (r: Result<usize, MsgAsmReadError>)
    ensures
        read_as(msg_asm_line(line@), r, old(out)@, final(out)@),
{
    let all = chars_of(line);
    let (a, b) = code_bounds(&all);
    let text = line.substring_char(a, b);
    let chars = chars_of(text);
    let ws = words_of(&chars);
    let l = AsmLine { text, chars, ws };
    if l.n() == 0 {
        return Ok(0);
    }
    if l.is_kw(0, "DEBUG") || l.is_kw(0, "NOSTRUCT") {
        Err(MsgAsmReadError::UnknownOp(l.upper_word_string(0)))
    } else if l.is_kw(0, "DECONSTRUCT") {
        check_arity(&l, 2)?;
        let pos = pos_or_err(&l, 1)?;
        push_one(out, MwEv::StructureGone { pos })
    } else {
        read_words(&l, out)
    }
}

impl MsgAsmRead {
    /// A new reader.
    pub fn new() -> (r: Self) {
        MsgAsmRead {}
    }

    /// Read the instruction on the first line of `data` (up to and
    /// including the first newline, or all of it), appending its events to
    /// `out`. Returns the number of bytes of the line, and the number of
    /// events read or the error. A line that holds no instruction (empty, or
    /// only a comment after `;`) gives no events. On an error, `out` keeps
    /// the events of the operands read before it.
    pub fn read(&mut self, data: &[u8], out: &mut Vec<MwEv>) -> (r: (usize, Result<usize, MsgAsmReadError>))
        ensures
            r.0 == line_len(data@),
            read_as(asm_read(data@), r.1, old(out)@, final(out)@),
    {
        let n = data.len();
        let mut end: usize = 0;
        while end < n && data[end] != 10
            invariant
                end <= n == data@.len(),
                find_byte(data@, 10, 0) == find_byte(data@, 10, end as int),
            decreases n - end,
        {
            end = end + 1;
        }
        if end < n {
            end = end + 1;
        }
        let mut bytes: Vec<u8> = Vec::new();
        let mut i: usize = 0;
        while i < end
            invariant
                i <= end <= n == data@.len(),
                bytes@ == data@.subrange(0, i as int),
            decreases end - i,
        {
            bytes.push(data[i]);
            i = i + 1;
        }
        proof {
            assert(bytes@ == data@.subrange(0, line_len(data@)));
        }
        match string_from_utf8(bytes) {
            None => (end, Err(MsgAsmReadError::Io)),
            Some(s) => (end, read_text(s.as_str(), out)),
        }
    }
}

} // verus!
