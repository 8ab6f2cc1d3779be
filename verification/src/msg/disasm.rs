//! The text form of low-level messages ([`Msg`]): writing them one
//! instruction per line, and reading an instruction into a buffer.

use vstd::prelude::*;
use vstd::string::StringExecFns;
use crate::grid::pos::Pos;
use super::assembly::{MsgDisasmError, MsgAsmError, MsgAsmReadError, AsmErr, AsmParsed, msg_asm_line, line_op,
    read_msg_text, lemma_msg_asm_line_plain, parsed_plain, read_as, gained};
use super::repr::{msg_of, ev_has_msg};
use crate::game::event::{MwEv, MwEvV};
use super::assembly_enc::{dec_nat, dec_int, pos_text, push_dec, push_int, push_pos};
use super::repr::{Msg, MsgItem, MsgStructureKind, MsgTileKind};

verus! {

/// The name of a structure kind.
pub open spec fn msg_structure_text(k: MsgStructureKind) -> Seq<char> {
    match k {
        MsgStructureKind::Road => "road"@,
        MsgStructureKind::Bridge => "bridge"@,
        MsgStructureKind::Wall => "wall"@,
        MsgStructureKind::Tower => "tower"@,
    }
}

/// The name of an item kind.
pub open spec fn msg_item_text(k: MsgItem) -> Seq<char> {
    match k {
        MsgItem::NoItem => "none"@,
        MsgItem::Decoy => "decoy"@,
        MsgItem::Mine => "mine"@,
        MsgItem::Trap => "trap"@,
    }
}

/// The name of a tile kind.
pub open spec fn msg_tile_text(k: MsgTileKind) -> Seq<char> {
    match k {
        MsgTileKind::Water => "water"@,
        MsgTileKind::Regular => "regular"@,
        MsgTileKind::Fertile => "fertile"@,
        MsgTileKind::Foundation => "foundation"@,
        MsgTileKind::Destroyed => "destroyed"@,
        MsgTileKind::Mountain => "mountain"@,
        MsgTileKind::Forest => "forest"@,
    }
}

/// The line of text of a message other than a player message, newline
/// included.
pub open spec fn msg_line(m: Msg) -> Seq<char> {
    (match m {
        Msg::DigitCapture { pos, digit, asterisk } => "DIGITS "@ + dec_nat(digit as nat)
            + (if asterisk { "*"@ } else { seq![] }) + "/"@ + pos_text(pos),
        Msg::TileOwner { pos, plid } => "OWNER "@ + dec_nat(plid.value() as nat) + " "@ + pos_text(pos),
        Msg::CitRes { cit, res } => "CITRES "@ + dec_nat(cit as nat) + " "@ + dec_nat(res as nat),
        Msg::CitMoneyTransact { cit, amount } => "CITTRANS "@ + dec_nat(cit as nat) + " "@ + dec_int(amount as int),
        Msg::CitMoney { cit, money } => "CITMONEY "@ + dec_nat(cit as nat) + " "@ + dec_nat(money as nat),
        Msg::CitIncome { cit, money, income } => "CITINCOME "@ + dec_nat(cit as nat) + " "@ + dec_nat(money as nat)
            + " "@ + dec_nat(income as nat),
        Msg::CitTradeInfo { cit, export, import } => "CITTRADE "@ + dec_nat(cit as nat) + " "@ + dec_nat(export as nat)
            + " "@ + dec_nat(import as nat),
        Msg::RevealStructure { pos, kind } => "STRUCT "@ + pos_text(pos) + " "@ + msg_structure_text(kind),
        Msg::StructureGone { pos } => "DECONSTRUCT "@ + pos_text(pos),
        Msg::StructureHp { pos, hp } => "STRUCTHP "@ + pos_text(pos) + " "@ + dec_nat(hp as nat),
        Msg::BuildNew { pos, kind, pts } => "BUILDNEW "@ + pos_text(pos) + " "@ + msg_structure_text(kind) + " "@
            + dec_nat(pts as nat),
        Msg::Construction { pos, current, rate } => "BUILD "@ + pos_text(pos) + " "@ + dec_nat(current as nat) + " "@
            + dec_nat(rate as nat),
        Msg::RevealItem { pos, item } => "ITEM "@ + pos_text(pos) + " "@ + msg_item_text(item),
        Msg::Explode { pos } => "EXPLODE "@ + pos_text(pos),
        Msg::Smoke { pos } => "SMOKE "@ + pos_text(pos),
        Msg::Unsmoke { pos } => "UNSMOKE "@ + pos_text(pos),
        Msg::Tremor => "SHAKE"@,
        Msg::Nop => "NOP"@,
        Msg::Flag { plid, pos } => "FLAG "@ + dec_nat(plid.value() as nat) + " "@ + pos_text(pos),
        Msg::TileKind { pos, kind } => "TILE "@ + pos_text(pos) + " "@ + msg_tile_text(kind),
        Msg::Player { .. } => seq![],
    }) + "\n"@
}

/// The text of the messages of `s` that come before index `n`, one line each.
pub open spec fn msgs_text(s: Seq<Msg>, n: int) -> Seq<char>
    decreases n,
{
    if n <= 0 { seq![] } else { msgs_text(s, n - 1) + msg_line(s[n - 1]) }
}

fn structure_name(k: MsgStructureKind) -> (r: &'static str)
    ensures
        r@ == msg_structure_text(k),
{
    match k {
        MsgStructureKind::Road => "road",
        MsgStructureKind::Bridge => "bridge",
        MsgStructureKind::Wall => "wall",
        MsgStructureKind::Tower => "tower",
    }
}

fn item_name(k: MsgItem) -> (r: &'static str)
    ensures
        r@ == msg_item_text(k),
{
    match k {
        MsgItem::NoItem => "none",
        MsgItem::Decoy => "decoy",
        MsgItem::Mine => "mine",
        MsgItem::Trap => "trap",
    }
}

fn tile_name(k: MsgTileKind) -> (r: &'static str)
    ensures
        r@ == msg_tile_text(k),
{
    match k {
        MsgTileKind::Water => "water",
        MsgTileKind::Regular => "regular",
        MsgTileKind::Fertile => "fertile",
        MsgTileKind::Foundation => "foundation",
        MsgTileKind::Destroyed => "destroyed",
        MsgTileKind::Mountain => "mountain",
        MsgTileKind::Forest => "forest",
    }
}

impl Msg {
    /// Write the first message of `buffer` as one line of text, appending it
    /// to `out`, and return how many messages were written: 1, or 0 for an
    /// empty buffer. Player messages have no text form.
    pub fn disasm_one(buffer: &[Msg], out: &mut String) -> (r: Result<usize, MsgDisasmError>)
        requires
            buffer@.len() > 0 ==> !(buffer@[0] is Player),
        ensures
            buffer@.len() == 0 ==> (r matches Ok(0usize) && final(out)@ == old(out)@),
            buffer@.len() > 0 ==> (r matches Ok(1usize) && final(out)@ == old(out)@ + msg_line(buffer@[0])),
    {
        if buffer.len() == 0 {
            return Ok(0);
        }
        let ghost base = out@;
        match &buffer[0] {
            Msg::DigitCapture { pos, digit, asterisk } => {
                out.append("DIGITS ");
                push_dec(out, *digit as u64);
                if *asterisk {
                    out.append("*");
                }
                out.append("/");
                push_pos(out, *pos);
            },
            Msg::TileOwner { pos, plid } => {
                out.append("OWNER ");
                push_dec(out, plid.to_u8() as u64);
                out.append(" ");
                push_pos(out, *pos);
            },
            Msg::CitRes { cit, res } => {
                out.append("CITRES ");
                push_dec(out, *cit as u64);
                out.append(" ");
                push_dec(out, *res as u64);
            },
            Msg::CitMoneyTransact { cit, amount } => {
                out.append("CITTRANS ");
                push_dec(out, *cit as u64);
                out.append(" ");
                push_int(out, *amount as i64);
            },
            Msg::CitMoney { cit, money } => {
                out.append("CITMONEY ");
                push_dec(out, *cit as u64);
                out.append(" ");
                push_dec(out, *money as u64);
            },
            Msg::CitIncome { cit, money, income } => {
                out.append("CITINCOME ");
                push_dec(out, *cit as u64);
                out.append(" ");
                push_dec(out, *money as u64);
                out.append(" ");
                push_dec(out, *income as u64);
            },
            Msg::CitTradeInfo { cit, export, import } => {
                out.append("CITTRADE ");
                push_dec(out, *cit as u64);
                out.append(" ");
                push_dec(out, *export as u64);
                out.append(" ");
                push_dec(out, *import as u64);
            },
            Msg::RevealStructure { pos, kind } => {
                out.append("STRUCT ");
                push_pos(out, *pos);
                out.append(" ");
                out.append(structure_name(*kind));
            },
            Msg::StructureGone { pos } => {
                out.append("DECONSTRUCT ");
                push_pos(out, *pos);
            },
            Msg::StructureHp { pos, hp } => {
                out.append("STRUCTHP ");
                push_pos(out, *pos);
                out.append(" ");
                push_dec(out, *hp as u64);
            },
            Msg::BuildNew { pos, kind, pts } => {
                out.append("BUILDNEW ");
                push_pos(out, *pos);
                out.append(" ");
                out.append(structure_name(*kind));
                out.append(" ");
                push_dec(out, *pts as u64);
            },
            Msg::Construction { pos, current, rate } => {
                out.append("BUILD ");
                push_pos(out, *pos);
                out.append(" ");
                push_dec(out, *current as u64);
                out.append(" ");
                push_dec(out, *rate as u64);
            },
            Msg::RevealItem { pos, item } => {
                out.append("ITEM ");
                push_pos(out, *pos);
                out.append(" ");
                out.append(item_name(*item));
            },
            Msg::Explode { pos } => {
                out.append("EXPLODE ");
                push_pos(out, *pos);
            },
            Msg::Smoke { pos } => {
                out.append("SMOKE ");
                push_pos(out, *pos);
            },
            Msg::Unsmoke { pos } => {
                out.append("UNSMOKE ");
                push_pos(out, *pos);
            },
            Msg::Tremor => {
                out.append("SHAKE");
            },
            Msg::Nop => {
                out.append("NOP");
            },
            Msg::Flag { plid, pos } => {
                out.append("FLAG ");
                push_dec(out, plid.to_u8() as u64);
                out.append(" ");
                push_pos(out, *pos);
            },
            Msg::TileKind { pos, kind } => {
                out.append("TILE ");
                push_pos(out, *pos);
                out.append(" ");
                out.append(tile_name(*kind));
            },
            Msg::Player { .. } => {},
        }
        out.append("\n");
        assert(out@ =~= base + msg_line(buffer@[0]));
        Ok(1)
    }

    /// Write every message of `buffer` as text, one line each, and return
    /// how many were written. Player messages have no text form.
    pub fn disasm_all(buffer: &[Msg], out: &mut String) -> (r: (usize, Result<(), (usize, MsgDisasmError)>))
        requires
            forall|i: int| 0 <= i < buffer@.len() ==> !(#[trigger] buffer@[i] is Player),
        ensures
            r.0 == buffer@.len(),
            r.1 is Ok,
            final(out)@ == old(out)@ + msgs_text(buffer@, buffer@.len() as int),
    {
        let mut i: usize = 0;
        while i < buffer.len()
            invariant
                0 <= i <= buffer@.len(),
                forall|k: int| 0 <= k < buffer@.len() ==> !(#[trigger] buffer@[k] is Player),
                out@ == old(out)@ + msgs_text(buffer@, i as int),
            decreases buffer@.len() - i,
        {
            let rest = vstd::slice::slice_subrange(buffer, i, buffer.len());
            assert(rest@[0] == buffer@[i as int]);
            let _ = Msg::disasm_one(rest, out);
            assert(out@ =~= old(out)@ + msgs_text(buffer@, i + 1));
            i = i + 1;
        }
        (i, Ok(()))
    }
}

/// The mathematical value of a [`MsgAsmError`].
pub enum MsgAsmErrV {
    BufferFull,
    UnknownOp(Seq<char>),
    BadArg(Seq<char>),
    NotEnoughArgs,
    TooManyArgs,
}

impl View for MsgAsmError {
    type V = MsgAsmErrV;

    open spec fn view(&self) -> MsgAsmErrV {
        match self {
            MsgAsmError::BufferFull => MsgAsmErrV::BufferFull,
            MsgAsmError::UnknownOp(s) => MsgAsmErrV::UnknownOp(s@),
            MsgAsmError::BadArg(s) => MsgAsmErrV::BadArg(s@),
            MsgAsmError::NotEnoughArgs => MsgAsmErrV::NotEnoughArgs,
            MsgAsmError::TooManyArgs => MsgAsmErrV::TooManyArgs,
        }
    }
}

/// A reading error as an error of reading into a buffer (text that is read
/// as a `&str` has no input error; see `lemma_msg_asm_line_plain`).
pub open spec fn asm_err_of(e: AsmErr) -> MsgAsmErrV {
    match e {
        AsmErr::UnknownOp(s) => MsgAsmErrV::UnknownOp(s),
        AsmErr::BadArg(s) => MsgAsmErrV::BadArg(s),
        AsmErr::NotEnoughArgs => MsgAsmErrV::NotEnoughArgs,
        AsmErr::TooManyArgs => MsgAsmErrV::TooManyArgs,
        AsmErr::Io => MsgAsmErrV::BadArg(seq![]),
    }
}

/// What reading an instruction into a buffer of `cap` messages gives: the
/// result, and the messages written at the front of the buffer. The messages
/// of the operands are written in order; the first that finds no room ends
/// the reading with `BufferFull`, else it ends as the instruction does.
pub open spec fn msg_asm_one(line: Seq<char>, cap: nat) -> (Result<nat, MsgAsmErrV>, Seq<Msg>) {
    let (evs, err): (Seq<MwEvV>, Option<AsmErr>) = match msg_asm_line(line) {
        AsmParsed::Done(e) => (e, None),
        AsmParsed::Fail(x, e) => (e, Some(x)),
    };
    let ms = evs.map_values(|e: MwEvV| msg_of(e));
    if ms.len() > cap {
        (Err(MsgAsmErrV::BufferFull), ms.take(cap as int))
    } else {
        match err {
            None => (Ok(ms.len()), ms),
            Some(x) => (Err(asm_err_of(x)), ms),
        }
    }
}

fn asm_error_of(e: MsgAsmReadError) -> (r: MsgAsmError)
    ensures
        r@ == asm_err_of(e@),
{
    match e {
        MsgAsmReadError::UnknownOp(s) => MsgAsmError::UnknownOp(s),
        MsgAsmReadError::BadArg(s) => MsgAsmError::BadArg(s),
        MsgAsmReadError::NotEnoughArgs => MsgAsmError::NotEnoughArgs,
        MsgAsmReadError::TooManyArgs => MsgAsmError::TooManyArgs,
        MsgAsmReadError::Io => MsgAsmError::BadArg(String::new()),
    }
}

impl Msg {
    /// Read the instruction in `source` (one line; a comment after `;` and
    /// surrounding white space are ignored) into the front of `buffer`,
    /// and return how many messages were written: 0 for a line with no
    /// instruction. Player instructions have no reading.
    pub fn asm_one(source: &str, buffer: &mut [Msg]) -> (r: Result<usize, MsgAsmError>)
        requires
            line_op(source@) != Some("PLAYER"@),
        ensures
            final(buffer)@.len() == old(buffer)@.len(),
            ({
                let (res, ms) = msg_asm_one(source@, old(buffer)@.len());
                &&& final(buffer)@ == ms + old(buffer)@.skip(ms.len() as int)
                &&& match res {
                    Ok(n) => r matches Ok(k) && k == n,
                    Err(e) => r matches Err(x) && x@ == e,
                }
            }),
    {
        let mut evs: Vec<MwEv> = Vec::new();
        let res = read_msg_text(source, &mut evs);
        let ghost p = msg_asm_line(source@);
        let ghost ev_v: Seq<MwEvV> = match p {
            AsmParsed::Done(e) => e,
            AsmParsed::Fail(_, e) => e,
        };
        let ghost ms = ev_v.map_values(|e: MwEvV| msg_of(e));
        let ghost b0 = buffer@;
        proof {
            lemma_msg_asm_line_plain(source@);
            assert(gained(seq![], evs@, ev_v));
            assert forall|j: int| 0 <= j < ev_v.len() implies (#[trigger] evs@[j])@ == ev_v[j] by {
                assert(evs@[0 + j] == evs@[j]);
            }
            assert(ms.len() == ev_v.len());
        }
        let mut i: usize = 0;
        while i < evs.len()
            invariant
                0 <= i <= evs@.len(),
                evs@.len() == ev_v.len(),
                forall|j: int| 0 <= j < ev_v.len() ==> (#[trigger] evs@[j])@ == ev_v[j],
                forall|j: int| 0 <= j < ev_v.len() ==> !(#[trigger] ev_v[j] is Player),
                ms == ev_v.map_values(|e: MwEvV| msg_of(e)),
                ms.len() == ev_v.len(),
                p == msg_asm_line(source@),
                ev_v == (match p { AsmParsed::Done(e) => e, AsmParsed::Fail(_, e) => e }),
                i <= b0.len(),
                b0 == old(buffer)@,
                buffer@.len() == b0.len(),
                buffer@ == ms.take(i as int) + b0.skip(i as int),
            decreases evs@.len() - i,
        {
            if i >= buffer.len() {
                proof {
                    assert(i == b0.len());
                    assert(ms.len() > b0.len());
                    assert(ms.take(b0.len() as int).len() == b0.len());
                    assert(msg_asm_one(source@, b0.len()).0 == Err::<nat, MsgAsmErrV>(MsgAsmErrV::BufferFull));
                    assert(msg_asm_one(source@, b0.len()).1 == ms.take(b0.len() as int));
                }
                return Err(MsgAsmError::BufferFull);
            }
            assert(!(ev_v[i as int] is Player));
            let m = Msg::of_ev(&evs[i]);
            buffer[i] = m;
            proof {
                assert(buffer@ =~= ms.take(i + 1) + b0.skip(i + 1));
            }
            i = i + 1;
        }
        proof {
            assert(ms.take(i as int) =~= ms);
        }
        match res {
            Ok(n) => Ok(n),
            Err(e) => Err(asm_error_of(e)),
        }
    }
}

} // verus!
