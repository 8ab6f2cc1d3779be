//! Writing events in the text form, one instruction per line.

use vstd::prelude::*;
use vstd::string::StringExecFns;
use vstd::utf8::encode_utf8;
use crate::plid::PlayerId;
use crate::grid::pos::Pos;
use crate::time::dur_millis;
use crate::game::{ItemKind, StructureKind, TileKind};
use crate::game::event::{MwEv, MwEvV, PlayerEv, PlayerEvV};
use super::bin_enc::evs_view;
use super::assembly::{MsgAsmWrite, MsgAsmWriteError};

verus! {

/// The character of a decimal digit.
pub open spec fn digit_char(d: nat) -> char {
    if d == 0 { '0' } else if d == 1 { '1' } else if d == 2 { '2' } else if d == 3 { '3' }
    else if d == 4 { '4' } else if d == 5 { '5' } else if d == 6 { '6' } else if d == 7 { '7' }
    else if d == 8 { '8' } else { '9' }
}

/// A number written in decimal, without leading zeros.
pub open spec fn dec_nat(n: nat) -> Seq<char>
    decreases n,
{
    if n < 10 { seq![digit_char(n)] } else { dec_nat(n / 10).push(digit_char(n % 10)) }
}

/// An integer written in decimal, with `-` before a negative one.
pub open spec fn dec_int(v: int) -> Seq<char> {
    if v < 0 { seq!['-'] + dec_nat((-v) as nat) } else { dec_nat(v as nat) }
}

/// A position written `y,x`.
pub open spec fn pos_text(p: Pos) -> Seq<char> {
    dec_int(p.0 as int) + seq![','] + dec_int(p.1 as int)
}

/// The name of a structure kind.
pub open spec fn structure_text(k: StructureKind) -> Seq<char> {
    match k {
        StructureKind::Road => "road"@,
        StructureKind::Bridge => "bridge"@,
        StructureKind::Barricade => "wall"@,
        StructureKind::WatchTower => "tower"@,
    }
}

/// The name of an item kind.
pub open spec fn item_text(k: ItemKind) -> Seq<char> {
    match k {
        ItemKind::Safe => "none"@,
        ItemKind::Decoy => "decoy"@,
        ItemKind::Mine => "mine"@,
        ItemKind::Trap => "trap"@,
    }
}

/// The name of a tile kind: both kinds of foundation are `foundation`.
pub open spec fn tile_text(k: TileKind) -> Seq<char> {
    match k {
        TileKind::Water => "water"@,
        TileKind::Regular => "regular"@,
        TileKind::Fertile => "fertile"@,
        TileKind::FoundationStruct => "foundation"@,
        TileKind::FoundationRoad => "foundation"@,
        TileKind::Destroyed => "destroyed"@,
        TileKind::Mountain => "mountain"@,
        TileKind::Forest => "forest"@,
    }
}

/// The status part of a `PLAYER` instruction, with the space before it.
pub open spec fn status_text(ev: PlayerEvV) -> Seq<char> {
    match ev {
        PlayerEvV::Joined { name } => " JOIN "@ + name,
        PlayerEvV::NetRttInfo { duration } => " RTT "@ + dec_nat(dur_millis(duration.0) as nat),
        PlayerEvV::Timeout { duration } => " TIMEOUT "@ + dec_nat(dur_millis(duration.0) as nat),
        PlayerEvV::TimeoutFinished => " RESUME"@,
        PlayerEvV::Exploded { pos, killer } => " EXPLODE "@ + pos_text(pos) + " "@ + dec_nat(killer.value() as nat),
        PlayerEvV::LivesRemain { lives } => " LIVES "@ + dec_nat(lives as nat),
        PlayerEvV::Protected => " PROTECT"@,
        PlayerEvV::Unprotected => " UNPROTECT"@,
        PlayerEvV::Eliminated => " ELIMINATE"@,
        PlayerEvV::Surrendered => " SURRENDER"@,
        PlayerEvV::Disconnected => " LEAVE"@,
        PlayerEvV::Kicked => " KICK"@,
        PlayerEvV::MatchTimeRemain { secs } => " TIMELIMIT "@ + dec_nat(secs as nat),
        PlayerEvV::ChatAll { text } => " CHATALL "@ + text,
        PlayerEvV::ChatFriendly { text } => " CHAT "@ + text,
        PlayerEvV::VoteNew { id, l10nkey } => " VOTENEW "@ + dec_nat(id as nat) + " "@ + l10nkey,
        PlayerEvV::VoteNo { id } => " VOTE "@ + dec_nat(id as nat) + " N"@,
        PlayerEvV::VoteYes { id } => " VOTE "@ + dec_nat(id as nat) + " Y"@,
        PlayerEvV::VoteFail { id } => " VOTEFAIL "@ + dec_nat(id as nat),
        PlayerEvV::VotePass { id } => " VOTEPASS "@ + dec_nat(id as nat),
    }
}

/// Whether an event can follow `first` in the instruction that `first`
/// starts: digits after digits, explosions after explosions, tile owners of
/// the same player after a tile owner.
pub open spec fn joins(first: MwEvV, e: MwEvV) -> bool {
    match first {
        MwEvV::DigitCapture { .. } => e is DigitCapture,
        MwEvV::Explode { .. } => e is Explode,
        MwEvV::TileOwner { plid, .. } => e matches MwEvV::TileOwner { plid: p, .. } && p == plid,
        _ => false,
    }
}

/// How many events an instruction started by `first` can take in all.
pub open spec fn run_limit(first: MwEvV) -> nat {
    match first {
        MwEvV::DigitCapture { .. } => 16,
        MwEvV::Explode { .. } => 16,
        MwEvV::TileOwner { .. } => 8,
        _ => 1,
    }
}

/// The number of events from index 1 on that join `msgs[0]`, the first `j`
/// of them counted (the run stops at the first that does not join).
pub open spec fn run_upto(msgs: Seq<MwEvV>, j: nat) -> nat
    decreases j,
{
    if j <= 1 {
        1
    } else {
        let r = run_upto(msgs, (j - 1) as nat);
        if r == j - 1 && j - 1 < msgs.len() && joins(msgs[0], msgs[j - 1]) { j } else { r }
    }
}

/// The number of events that the instruction for `msgs[0]` takes.
pub open spec fn run_len(msgs: Seq<MwEvV>) -> nat {
    run_upto(msgs, run_limit(msgs[0]))
}

/// The operand that an event adds to the instruction it is in.
pub open spec fn operand(e: MwEvV) -> Seq<char> {
    match e {
        MwEvV::DigitCapture { pos, digit, asterisk } =>
            dec_nat(digit as nat) + (if asterisk { "*"@ } else { seq![] }) + "/"@ + pos_text(pos),
        MwEvV::Explode { pos } => pos_text(pos),
        MwEvV::TileOwner { pos, .. } => pos_text(pos),
        _ => seq![],
    }
}

/// The operands of the events at indices `1 .. j`, each after a space.
pub open spec fn operands(msgs: Seq<MwEvV>, j: nat) -> Seq<char>
    decreases j,
{
    if j <= 1 { seq![] } else { operands(msgs, (j - 1) as nat) + " "@ + operand(msgs[j - 1]) }
}

/// The line for one event (without its newline), when it stands alone.
pub open spec fn single_text(e: MwEvV) -> Seq<char> {
    match e {
        MwEvV::Debug(i, pos) => "DEBUG "@ + dec_nat(i as nat) + " "@ + pos_text(pos),
        MwEvV::Player { plid, subplid, ev } => "PLAYER "@ + dec_nat(plid.value() as nat)
            + (match subplid { Some(s) => "/"@ + dec_nat(s as nat), None => seq![] }) + status_text(ev),
        MwEvV::DigitCapture { .. } => "DIGITS "@ + operand(e),
        MwEvV::TileOwner { pos, plid } => "OWNER "@ + dec_nat(plid.value() as nat) + " "@ + pos_text(pos),
        MwEvV::Explode { pos } => "EXPLODE "@ + pos_text(pos),
        MwEvV::CitRes { cit, res } => "CITRES "@ + dec_nat(cit as nat) + " "@ + dec_nat(res as nat),
        MwEvV::CitMoneyTransact { cit, amount } => "CITTRANS "@ + dec_nat(cit as nat) + " "@ + dec_int(amount as int),
        MwEvV::CitMoney { cit, money } => "CITMONEY "@ + dec_nat(cit as nat) + " "@ + dec_nat(money as nat),
        MwEvV::CitIncome { cit, money, income } => "CITINCOME "@ + dec_nat(cit as nat) + " "@ + dec_nat(money as nat)
            + " "@ + dec_nat(income as nat),
        MwEvV::CitTradeInfo { cit, export, import } => "CITTRADE "@ + dec_nat(cit as nat) + " "@ + dec_nat(export as nat)
            + " "@ + dec_nat(import as nat),
        MwEvV::RevealStructure { pos, kind } => "STRUCT "@ + pos_text(pos) + " "@ + structure_text(kind),
        MwEvV::StructureGone { pos } => "NOSTRUCT "@ + pos_text(pos),
        MwEvV::StructureHp { pos, hp } => "STRUCTHP "@ + pos_text(pos) + " "@ + dec_nat(hp as nat),
        MwEvV::BuildNew { pos, kind, pts } => "BUILDNEW "@ + pos_text(pos) + " "@ + structure_text(kind) + " "@
            + dec_nat(pts as nat),
        MwEvV::Construction { pos, current, rate } => "BUILD "@ + pos_text(pos) + " "@ + dec_nat(current as nat) + " "@
            + dec_nat(rate as nat),
        MwEvV::RevealItem { pos, item } => "ITEM "@ + pos_text(pos) + " "@ + item_text(item),
        MwEvV::Smoke { pos } => "SMOKE "@ + pos_text(pos),
        MwEvV::Unsmoke { pos } => "UNSMOKE "@ + pos_text(pos),
        MwEvV::Tremor => "SHAKE"@,
        MwEvV::Nop => "NOP"@,
        MwEvV::Flag { plid, pos } => "FLAG "@ + dec_nat(plid.value() as nat) + " "@ + pos_text(pos),
        MwEvV::TileKind { pos, kind } => "TILE "@ + pos_text(pos) + " "@ + tile_text(kind),
    }
}

/// The line of the instruction for the events at the front of a non-empty
/// sequence: the first event's line, the operands of the events that join
/// it, and a newline.
pub open spec fn asm_text(msgs: Seq<MwEvV>) -> Seq<char> {
    single_text(msgs[0]) + operands(msgs, run_len(msgs)) + "\n"@
}

/// What writing gives: the number of events taken, and the bytes written.
/// Nothing is written when there are no events or the line does not fit
/// in `max` bytes.
pub open spec fn asm_encode(msgs: Seq<MwEvV>, max: nat) -> (nat, Seq<u8>) {
    if msgs.len() == 0 {
        (0, seq![])
    } else {
        let bytes = encode_utf8(asm_text(msgs));
        if bytes.len() > max { (0, seq![]) } else { (run_len(msgs), bytes) }
    }
}

/// Once a run stops, it stays stopped.
proof fn lemma_run_stops(v: Seq<MwEvV>, n: nat, m: nat)
    requires
        1 <= n < m,
        run_upto(v, n) == n,
        !(n < v.len() && joins(v[0], v[n as int])),
    ensures
        run_upto(v, m) == n,
    decreases m,
{
    if m > n + 1 {
        lemma_run_stops(v, n, (m - 1) as nat);
    }
}

/// A decimal digit as a one-character string.
fn digit_str(d: u64) -> (r: &'static str)
    requires
        d < 10,
    ensures
        r@ == seq![digit_char(d as nat)],
{
    proof {
        reveal_strlit("0");
        reveal_strlit("1");
        reveal_strlit("2");
        reveal_strlit("3");
        reveal_strlit("4");
        reveal_strlit("5");
        reveal_strlit("6");
        reveal_strlit("7");
        reveal_strlit("8");
        reveal_strlit("9");
    }
    if d == 0 { "0" } else if d == 1 { "1" } else if d == 2 { "2" } else if d == 3 { "3" }
    else if d == 4 { "4" } else if d == 5 { "5" } else if d == 6 { "6" } else if d == 7 { "7" }
    else if d == 8 { "8" } else { "9" }
}

/// Append a number in decimal.
pub(crate) fn push_dec(buf: &mut String, v: u64)
    ensures
        final(buf)@ == old(buf)@ + dec_nat(v as nat),
    decreases v,
{
    if v >= 10 {
        push_dec(buf, v / 10);
    }
    buf.append(digit_str(v % 10));
    proof {
        if v >= 10 {
            assert(old(buf)@ + dec_nat(v as nat) =~= old(buf)@ + dec_nat((v / 10) as nat) + seq![digit_char((v % 10) as nat)]);
        } else {
            assert(old(buf)@ + dec_nat(v as nat) =~= old(buf)@ + seq![digit_char((v % 10) as nat)]);
        }
    }
}

/// Append an integer in decimal.
pub(crate) fn push_int(buf: &mut String, v: i64)
    ensures
        final(buf)@ == old(buf)@ + dec_int(v as int),
{
    if v < 0 {
        proof {
            reveal_strlit("-");
        }
        buf.append("-");
        let m: u64 = (0 - (v as i128)) as u64;
        push_dec(buf, m);
        assert(final(buf)@ =~= old(buf)@ + dec_int(v as int));
    } else {
        push_dec(buf, v as u64);
    }
}

/// Append a position.
pub(crate) fn push_pos(buf: &mut String, p: Pos)
    ensures
        final(buf)@ == old(buf)@ + pos_text(p),
{
    proof {
        reveal_strlit(",");
    }
    push_int(buf, p.y() as i64);
    buf.append(",");
    push_int(buf, p.x() as i64);
    assert(final(buf)@ =~= old(buf)@ + pos_text(p));
}

/// Append the status part of a `PLAYER` instruction.
fn push_status(buf: &mut String, ev: &PlayerEv)
    ensures
        final(buf)@ == old(buf)@ + status_text(ev@),
{
    match ev {
        PlayerEv::Joined { name } => {
            buf.append(" JOIN ");
            buf.append(name.as_str());
        },
        PlayerEv::NetRttInfo { duration } => {
            buf.append(" RTT ");
            push_dec(buf, duration.as_millis() as u64);
        },
        PlayerEv::Timeout { duration } => {
            buf.append(" TIMEOUT ");
            push_dec(buf, duration.as_millis() as u64);
        },
        PlayerEv::TimeoutFinished => buf.append(" RESUME"),
        PlayerEv::Exploded { pos, killer } => {
            buf.append(" EXPLODE ");
            push_pos(buf, *pos);
            buf.append(" ");
            push_dec(buf, killer.to_u8() as u64);
        },
        PlayerEv::LivesRemain { lives } => {
            buf.append(" LIVES ");
            push_dec(buf, *lives as u64);
        },
        PlayerEv::Protected => buf.append(" PROTECT"),
        PlayerEv::Unprotected => buf.append(" UNPROTECT"),
        PlayerEv::Eliminated => buf.append(" ELIMINATE"),
        PlayerEv::Surrendered => buf.append(" SURRENDER"),
        PlayerEv::Disconnected => buf.append(" LEAVE"),
        PlayerEv::Kicked => buf.append(" KICK"),
        PlayerEv::MatchTimeRemain { secs } => {
            buf.append(" TIMELIMIT ");
            push_dec(buf, *secs as u64);
        },
        PlayerEv::ChatAll { text } => {
            buf.append(" CHATALL ");
            buf.append(text.as_str());
        },
        PlayerEv::ChatFriendly { text } => {
            buf.append(" CHAT ");
            buf.append(text.as_str());
        },
        PlayerEv::VoteNew { id, l10nkey } => {
            buf.append(" VOTENEW ");
            push_dec(buf, *id as u64);
            buf.append(" ");
            buf.append(l10nkey.as_str());
        },
        PlayerEv::VoteNo { id } => {
            buf.append(" VOTE ");
            push_dec(buf, *id as u64);
            buf.append(" N");
        },
        PlayerEv::VoteYes { id } => {
            buf.append(" VOTE ");
            push_dec(buf, *id as u64);
            buf.append(" Y");
        },
        PlayerEv::VoteFail { id } => {
            buf.append(" VOTEFAIL ");
            push_dec(buf, *id as u64);
        },
        PlayerEv::VotePass { id } => {
            buf.append(" VOTEPASS ");
            push_dec(buf, *id as u64);
        },
    }
    assert(final(buf)@ =~= old(buf)@ + status_text(ev@));
}

/// Append the operand of an event (see `operand`).
fn push_operand(buf: &mut String, e: &MwEv)
    ensures
        final(buf)@ == old(buf)@ + operand(e@),
{
    match e {
        MwEv::DigitCapture { pos, digit, asterisk } => {
            push_dec(buf, *digit as u64);
            if *asterisk {
                buf.append("*");
            }
            buf.append("/");
            push_pos(buf, *pos);
        },
        MwEv::Explode { pos } => push_pos(buf, *pos),
        MwEv::TileOwner { pos, .. } => push_pos(buf, *pos),
        _ => {},
    }
    assert(final(buf)@ =~= old(buf)@ + operand(e@));
}

/// Append the line of one event, without its newline (see `single_text`).
#[verifier::rlimit(30)]
fn push_single(buf: &mut String, e: &MwEv)
    ensures
        final(buf)@ == old(buf)@ + single_text(e@),
{
    match e {
        MwEv::Debug(i, pos) => {
            buf.append("DEBUG ");
            push_dec(buf, *i as u64);
            buf.append(" ");
            push_pos(buf, *pos);
        },
        MwEv::Player { plid, subplid, ev } => {
            buf.append("PLAYER ");
            push_dec(buf, plid.to_u8() as u64);
            match subplid {
                Some(s) => {
                    buf.append("/");
                    push_dec(buf, *s as u64);
                },
                None => {},
            }
            push_status(buf, ev);
        },
        MwEv::DigitCapture { .. } => {
            buf.append("DIGITS ");
            push_operand(buf, e);
        },
        MwEv::TileOwner { pos, plid } => {
            buf.append("OWNER ");
            push_dec(buf, plid.to_u8() as u64);
            buf.append(" ");
            push_pos(buf, *pos);
        },
        MwEv::Explode { pos } => {
            buf.append("EXPLODE ");
            push_pos(buf, *pos);
        },
        MwEv::CitRes { cit, res } => {
            buf.append("CITRES ");
            push_dec(buf, *cit as u64);
            buf.append(" ");
            push_dec(buf, *res as u64);
        },
        MwEv::CitMoneyTransact { cit, amount } => {
            buf.append("CITTRANS ");
            push_dec(buf, *cit as u64);
            buf.append(" ");
            push_int(buf, *amount as i64);
        },
        MwEv::CitMoney { cit, money } => {
            buf.append("CITMONEY ");
            push_dec(buf, *cit as u64);
            buf.append(" ");
            push_dec(buf, *money as u64);
        },
        MwEv::CitIncome { cit, money, income } => {
            buf.append("CITINCOME ");
            push_dec(buf, *cit as u64);
            buf.append(" ");
            push_dec(buf, *money as u64);
            buf.append(" ");
            push_dec(buf, *income as u64);
        },
        MwEv::CitTradeInfo { cit, export, import } => {
            buf.append("CITTRADE ");
            push_dec(buf, *cit as u64);
            buf.append(" ");
            push_dec(buf, *export as u64);
            buf.append(" ");
            push_dec(buf, *import as u64);
        },
        MwEv::RevealStructure { pos, kind } => {
            buf.append("STRUCT ");
            push_pos(buf, *pos);
            buf.append(" ");
            buf.append(structure_name(*kind));
        },
        MwEv::StructureGone { pos } => {
            buf.append("NOSTRUCT ");
            push_pos(buf, *pos);
        },
        MwEv::StructureHp { pos, hp } => {
            buf.append("STRUCTHP ");
            push_pos(buf, *pos);
            buf.append(" ");
            push_dec(buf, *hp as u64);
        },
        MwEv::BuildNew { pos, kind, pts } => {
            buf.append("BUILDNEW ");
            push_pos(buf, *pos);
            buf.append(" ");
            buf.append(structure_name(*kind));
            buf.append(" ");
            push_dec(buf, *pts as u64);
        },
        MwEv::Construction { pos, current, rate } => {
            buf.append("BUILD ");
            push_pos(buf, *pos);
            buf.append(" ");
            push_dec(buf, *current as u64);
            buf.append(" ");
            push_dec(buf, *rate as u64);
        },
        MwEv::RevealItem { pos, item } => {
            buf.append("ITEM ");
            push_pos(buf, *pos);
            buf.append(" ");
            buf.append(item_name(*item));
        },
        MwEv::Smoke { pos } => {
            buf.append("SMOKE ");
            push_pos(buf, *pos);
        },
        MwEv::Unsmoke { pos } => {
            buf.append("UNSMOKE ");
            push_pos(buf, *pos);
        },
        MwEv::Tremor => buf.append("SHAKE"),
        MwEv::Nop => buf.append("NOP"),
        MwEv::Flag { plid, pos } => {
            buf.append("FLAG ");
            push_dec(buf, plid.to_u8() as u64);
            buf.append(" ");
            push_pos(buf, *pos);
        },
        MwEv::TileKind { pos, kind } => {
            buf.append("TILE ");
            push_pos(buf, *pos);
            buf.append(" ");
            buf.append(tile_name(*kind));
        },
    }
    assert(final(buf)@ =~= old(buf)@ + single_text(e@));
}

fn structure_name(k: StructureKind) -> (r: &'static str)
    ensures
        r@ == structure_text(k),
{
    match k {
        StructureKind::Road => "road",
        StructureKind::Bridge => "bridge",
        StructureKind::Barricade => "wall",
        StructureKind::WatchTower => "tower",
    }
}

fn item_name(k: ItemKind) -> (r: &'static str)
    ensures
        r@ == item_text(k),
{
    match k {
        ItemKind::Safe => "none",
        ItemKind::Decoy => "decoy",
        ItemKind::Mine => "mine",
        ItemKind::Trap => "trap",
    }
}

fn tile_name(k: TileKind) -> (r: &'static str)
    ensures
        r@ == tile_text(k),
{
    match k {
        TileKind::Water => "water",
        TileKind::Regular => "regular",
        TileKind::Fertile => "fertile",
        TileKind::FoundationStruct => "foundation",
        TileKind::FoundationRoad => "foundation",
        TileKind::Destroyed => "destroyed",
        TileKind::Mountain => "mountain",
        TileKind::Forest => "forest",
    }
}

/// Whether `e` joins the instruction started by `first` (see `joins`).
fn joins_exec(first: &MwEv, e: &MwEv) -> (r: bool)
    ensures
        r == joins(first@, e@),
{
    match first {
        MwEv::DigitCapture { .. } => matches!(e, MwEv::DigitCapture { .. }),
        MwEv::Explode { .. } => matches!(e, MwEv::Explode { .. }),
        MwEv::TileOwner { plid, .. } => match e {
            MwEv::TileOwner { plid: p, .. } => *p == *plid,
            _ => false,
        },
        _ => false,
    }
}

fn limit_exec(first: &MwEv) -> (r: usize)
    ensures
        r == run_limit(first@),
{
    match first {
        MwEv::DigitCapture { .. } => 16,
        MwEv::Explode { .. } => 16,
        MwEv::TileOwner { .. } => 8,
        _ => 1,
    }
}

impl MsgAsmWrite {
    /// A new writer.
    pub fn new() -> (r: Self) {
        MsgAsmWrite {}
    }

    /// Write the events at the front of `msgs` as one line of text,
    /// appending its bytes to `out` if they fit in `max_bytes`. Consecutive
    /// digit events (up to 16), explosions (up to 16) and tile-owner events of
    /// one player (up to 8) share a line. Returns the number of events
    /// written and the number of bytes; `(0, 0)` when `msgs` is empty or the
    /// line does not fit.
    pub fn write(&mut self, out: &mut Vec<u8>, msgs: &[MwEv], max_bytes: usize) -> (r: Result<(usize, usize), MsgAsmWriteError>)
        ensures
            r matches Ok((n, len)) && n == asm_encode(evs_view(msgs@), max_bytes as nat).0
                && len == asm_encode(evs_view(msgs@), max_bytes as nat).1.len()
                && final(out)@ == old(out)@ + asm_encode(evs_view(msgs@), max_bytes as nat).1,
    {
        let ghost v = evs_view(msgs@);
        if msgs.len() == 0 {
            assert(out@ =~= old(out)@ + seq![]);
            return Ok((0, 0));
        }
        let first = &msgs[0];
        assert(v[0] == first@);
        let mut buf = String::new();
        push_single(&mut buf, first);
        let limit = limit_exec(first);
        let mut n: usize = 1;
        let mut done = false;
        while !done && n < limit
            invariant
                1 <= n <= limit,
                limit == run_limit(v[0]),
                v == evs_view(msgs@),
                v.len() == msgs@.len() > 0,
                first@ == v[0],
                buf@ == single_text(v[0]) + operands(v, n as nat),
                run_upto(v, n as nat) == n,
                done ==> run_upto(v, limit as nat) == n,
            decreases limit - n + (if done { 0int } else { 1int }),
        {
            if n < msgs.len() && joins_exec(first, &msgs[n]) {
                assert(v[n as int] == msgs@[n as int]@);
                buf.append(" ");
                push_operand(&mut buf, &msgs[n]);
                n = n + 1;
                assert(buf@ =~= single_text(v[0]) + operands(v, n as nat));
            } else {
                proof {
                    lemma_run_stops(v, n as nat, limit as nat);
                }
                done = true;
            }
        }
        buf.append("\n");
        let bytes = buf.as_str().as_bytes();
        let len = bytes.len();
        if len > max_bytes {
            assert(out@ =~= old(out)@ + seq![]);
            return Ok((0, 0));
        }
        out.extend_from_slice(bytes);
        Ok((n, len))
    }
}

} // verus!
