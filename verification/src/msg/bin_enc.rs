//! Binary encoding of game event messages.

use vstd::prelude::*;
use vstd::utf8::*;
use vstd::string::StringSliceAdditionalSpecFns;
use crate::plid::PlayerId;
use crate::grid::pos::Pos;
use crate::game::event::{MwEv, MwEvV, PlayerEv, PlayerEvV};
use super::bin::{MsgBinWrite, MsgBinWriteError};

verus! {

/// The values of a sequence of events.
pub open spec fn evs_view(s: Seq<MwEv>) -> Seq<MwEvV> {
    s.map_values(|e: MwEv| e@)
}

/// The two bytes of a position: y first, then x.
pub open spec fn pos_bytes(p: Pos) -> Seq<u8> {
    seq![p.0 as u8, p.1 as u8]
}

/// One coordinate byte of a position (`c == 0`: y, else x).
pub open spec fn pos_byte(p: Pos, c: int) -> u8 {
    if c == 0 { p.0 as u8 } else { p.1 as u8 }
}

/// A 16-bit value, big-endian.
pub open spec fn be16_bytes(v: u16) -> Seq<u8> {
    seq![(v / 256) as u8, (v % 256) as u8]
}

/// A 32-bit value, big-endian.
pub open spec fn be32_bytes(v: u32) -> Seq<u8> {
    seq![(v / 0x1000000) as u8, (v / 0x10000 % 256) as u8, (v / 256 % 256) as u8, (v % 256) as u8]
}

/// The position of a tile event that can be packed with others.
pub open spec fn ev_pos(e: MwEvV) -> Pos {
    match e {
        MwEvV::TileOwner { pos, .. } => pos,
        MwEvV::Explode { pos } => pos,
        MwEvV::DigitCapture { pos, .. } => pos,
        _ => Pos(0, 0),
    }
}

/// The positions of the first `k` events, two bytes each.
pub open spec fn run_pos_bytes(msgs: Seq<MwEvV>, k: nat) -> Seq<u8> {
    Seq::new(2 * k, |j: int| pos_byte(ev_pos(msgs[j / 2]), j % 2))
}

/// The 4-bit code of a digit: bit 3 the asterisk, bits 0-2 the digit.
pub open spec fn digit_nibble(digit: u8, asterisk: bool) -> u8 {
    ((if asterisk { 8int } else { 0int }) + digit % 8) as u8
}

/// The digit code of a digit event.
pub open spec fn ev_nibble(e: MwEvV) -> u8 {
    match e {
        MwEvV::DigitCapture { digit, asterisk, .. } => digit_nibble(digit, asterisk),
        _ => 0,
    }
}

/// The packed digit codes of the first `k + 1` events: two per byte, the
/// earlier one in the high half.
pub open spec fn digit_bytes(msgs: Seq<MwEvV>, k: nat) -> Seq<u8> {
    Seq::new(k / 2 + 1, |m: int| (ev_nibble(msgs[2 * m]) * 16
        + (if 2 * m + 1 <= k { ev_nibble(msgs[2 * m + 1]) as int } else { 0int })) as u8)
}

/// How many of the events after the first (at most 7) join a tile-owner
/// message: while they are tile-owner events of the same player and fit.
pub open spec fn owner_run(msgs: Seq<MwEvV>, plid: PlayerId, max: nat, k: nat) -> nat
    decreases 7 - k,
{
    if k >= 7 || k + 1 >= msgs.len() {
        k
    } else if (msgs[k + 1int] matches MwEvV::TileOwner { plid: p2, .. } && p2 == plid) && 3 + 2 * k + 2 <= max {
        owner_run(msgs, plid, max, k + 1)
    } else {
        k
    }
}

/// How many of the events after the first (at most 15) join an explosion
/// message: while they are explosions and fit.
pub open spec fn explode_run(msgs: Seq<MwEvV>, max: nat, k: nat) -> nat
    decreases 15 - k,
{
    if k >= 15 || k + 1 >= msgs.len() {
        k
    } else if msgs[k + 1int] is Explode && 3 + 2 * k + 2 <= max {
        explode_run(msgs, max, k + 1)
    } else {
        k
    }
}

/// The size of a packed digit message of `k + 1` tiles.
pub open spec fn digit_msg_len(k: nat) -> nat {
    4 + 2 * k + k / 2
}

/// How many of the events after the first (at most 7) join a digit message:
/// while they are digit events and fit.
pub open spec fn digit_run(msgs: Seq<MwEvV>, max: nat, k: nat) -> nat
    decreases 7 - k,
{
    if k >= 7 || k + 1 >= msgs.len() {
        k
    } else if msgs[k + 1int] is DigitCapture && digit_msg_len(k) + 2 + k % 2 <= max {
        digit_run(msgs, max, k + 1)
    } else {
        k
    }
}

/// The largest character boundary of `bytes` at or below `i`.
pub open spec fn boundary_at_or_below(bytes: Seq<u8>, i: nat) -> nat
    decreases i,
{
    if i == 0 || is_char_boundary(bytes, i as int) {
        i
    } else {
        boundary_at_or_below(bytes, (i - 1) as nat)
    }
}

/// How many bytes of a text go on the wire: all of it up to 255 bytes, else
/// the longest prefix of at most 255 bytes that ends on a character boundary.
pub open spec fn text_len(t: Seq<char>) -> nat {
    let b = encode_utf8(t);
    if b.len() <= 255 { b.len() } else { boundary_at_or_below(b, 255) }
}

/// A text field: its length byte and its (possibly shortened) bytes.
pub open spec fn text_field(t: Seq<char>) -> Seq<u8> {
    seq![text_len(t) as u8] + encode_utf8(t).subrange(0, text_len(t) as int)
}

/// The code of a player event and the size of its message apart from text
/// bytes: the three header bytes and the fixed payload.
pub open spec fn player_status(ev: PlayerEvV) -> (u8, nat) {
    match ev {
        PlayerEvV::Joined { .. } => (0x00, 4),
        PlayerEvV::NetRttInfo { .. } => (0x01, 4),
        PlayerEvV::Timeout { .. } => (0x02, 4),
        PlayerEvV::TimeoutFinished => (0x03, 3),
        PlayerEvV::Exploded { .. } => (0x04, 6),
        PlayerEvV::LivesRemain { .. } => (0x05, 4),
        PlayerEvV::Protected => (0x06, 3),
        PlayerEvV::Unprotected => (0x07, 3),
        PlayerEvV::Eliminated => (0x08, 3),
        PlayerEvV::Surrendered => (0x09, 3),
        PlayerEvV::Disconnected => (0x0A, 3),
        PlayerEvV::Kicked => (0x0B, 3),
        PlayerEvV::ChatAll { .. } => (0x10, 4),
        PlayerEvV::ChatFriendly { .. } => (0x11, 4),
        PlayerEvV::MatchTimeRemain { .. } => (0x12, 5),
        PlayerEvV::VoteNew { .. } => (0x13, 5),
        PlayerEvV::VoteNo { .. } => (0x0C, 4),
        PlayerEvV::VoteYes { .. } => (0x0D, 4),
        PlayerEvV::VoteFail { .. } => (0x0E, 4),
        PlayerEvV::VotePass { .. } => (0x0F, 4),
    }
}

/// The text bytes that a player event puts on the wire (0 when it has no text).
pub open spec fn player_text_len(ev: PlayerEvV) -> nat {
    match ev {
        PlayerEvV::Joined { name } => text_len(name),
        PlayerEvV::ChatAll { text } => text_len(text),
        PlayerEvV::ChatFriendly { text } => text_len(text),
        PlayerEvV::VoteNew { l10nkey, .. } => text_len(l10nkey),
        _ => 0,
    }
}

/// The bytes of a player event after its code.
pub open spec fn player_payload(ev: PlayerEvV) -> Seq<u8> {
    match ev {
        PlayerEvV::Joined { name } => text_field(name),
        PlayerEvV::NetRttInfo { duration } => seq![duration.0],
        PlayerEvV::Timeout { duration } => seq![duration.0],
        PlayerEvV::Exploded { pos, killer } => pos_bytes(pos) + seq![killer.value()],
        PlayerEvV::LivesRemain { lives } => seq![lives],
        PlayerEvV::MatchTimeRemain { secs } => be16_bytes(secs),
        PlayerEvV::VoteNo { id } => seq![id],
        PlayerEvV::VoteYes { id } => seq![id],
        PlayerEvV::VoteFail { id } => seq![id],
        PlayerEvV::VotePass { id } => seq![id],
        PlayerEvV::ChatAll { text } => text_field(text),
        PlayerEvV::ChatFriendly { text } => text_field(text),
        PlayerEvV::VoteNew { id, l10nkey } => seq![id] + text_field(l10nkey),
        _ => seq![],
    }
}

/// The byte that holds the player (low half) and sub-player (high half, 15
/// for none).
pub open spec fn player_byte(plid: PlayerId, subplid: Option<u8>) -> u8 {
    (plid.value() % 16 + 16 * match subplid {
        Some(x) => x % 16,
        None => 15,
    }) as u8
}

/// What encoding the events at the front of `msgs` gives, with at most
/// `max` bytes available.
pub enum BinEncoded {
    /// The number of events taken, the size reported, and the bytes written.
    Wrote(nat, nat, Seq<u8>),
    /// An event holds a value that cannot be encoded.
    Invalid(u32),
}

/// The encoding of a player event.
pub open spec fn encode_player(plid: PlayerId, subplid: Option<u8>, ev: PlayerEvV, max: nat) -> BinEncoded {
    if max < player_status(ev).1 + player_text_len(ev) {
        BinEncoded::Wrote(0, 0, seq![])
    } else {
        BinEncoded::Wrote(1, player_status(ev).1 + player_text_len(ev),
            seq![0u8, player_byte(plid, subplid), player_status(ev).0] + player_payload(ev))
    }
}

/// A message of `n` bytes that stands for one event, if it fits.
pub open spec fn encode_one(n: nat, bytes: Seq<u8>, max: nat) -> BinEncoded {
    if max < n {
        BinEncoded::Wrote(0, 0, seq![])
    } else {
        BinEncoded::Wrote(1, n, bytes)
    }
}

/// The encoding of an event that always stands alone in its message.
pub open spec fn encode_single(e: MwEvV, max: nat) -> BinEncoded {
    match e {
        MwEvV::Nop => BinEncoded::Wrote(1, 0, seq![]),
        MwEvV::Debug(i, pos) => encode_one(4, seq![0x0Eu8, i] + pos_bytes(pos), max),
        MwEvV::Tremor => BinEncoded::Wrote(1, 1, seq![0x01u8]),
        MwEvV::Smoke { pos } => encode_one(3, seq![0x02u8] + pos_bytes(pos), max),
        MwEvV::Unsmoke { pos } => encode_one(3, seq![0x03u8] + pos_bytes(pos), max),
        MwEvV::CitMoney { cit, money } => if max < 6 {
            BinEncoded::Wrote(0, 0, seq![])
        } else if money >= 0x80000000 {
            BinEncoded::Invalid(money)
        } else {
            BinEncoded::Wrote(1, 6, seq![0x04u8, cit] + be32_bytes(money))
        },
        MwEvV::CitIncome { cit, money, income } => if max < 8 {
            BinEncoded::Wrote(0, 0, seq![])
        } else if money >= 0x80000000 {
            BinEncoded::Invalid(money)
        } else {
            BinEncoded::Wrote(1, 8, seq![0x04u8, cit] + be32_bytes((money + 0x80000000) as u32) + be16_bytes(income))
        },
        MwEvV::CitMoneyTransact { cit, amount } => encode_one(4, seq![0x05u8, cit] + be16_bytes(amount as u16), max),
        MwEvV::CitRes { cit, res } => encode_one(4, seq![0x06u8, cit] + be16_bytes(res), max),
        MwEvV::CitTradeInfo { cit, export, import } => encode_one(4, seq![0x07u8, cit, export, import], max),
        MwEvV::Flag { plid, pos } => encode_one(4, seq![0x0Fu8, plid.value()] + pos_bytes(pos), max),
        MwEvV::StructureGone { pos } => encode_one(3, seq![0x20u8] + pos_bytes(pos), max),
        MwEvV::StructureHp { pos, hp } => if max < 3 {
            BinEncoded::Wrote(0, 0, seq![])
        } else if hp > 0x0F {
            BinEncoded::Invalid(hp as u32)
        } else {
            BinEncoded::Wrote(1, 3, seq![(0x20 + hp) as u8] + pos_bytes(pos))
        },
        MwEvV::BuildNew { pos, kind, pts } => encode_one(5, seq![(0x40 + kind.code()) as u8] + pos_bytes(pos) + be16_bytes(pts), max),
        MwEvV::Construction { pos, current, rate } => encode_one(7, seq![0x4Fu8] + pos_bytes(pos) + be16_bytes(current) + be16_bytes(rate), max),
        MwEvV::RevealStructure { pos, kind } => encode_one(3, seq![(0x50 + kind.code()) as u8] + pos_bytes(pos), max),
        MwEvV::RevealItem { pos, item } => encode_one(3, seq![(0x10 + item.code()) as u8] + pos_bytes(pos), max),
        MwEvV::TileKind { pos, kind } => encode_one(3, seq![(0x70 + kind.code()) as u8] + pos_bytes(pos), max),
        _ => BinEncoded::Wrote(0, 0, seq![]),
    }
}

/// The encoding of the events at the front of `msgs`: one message, which
/// may pack several tile events of the same kind.
#[verifier::opaque]
pub open spec fn bin_encode(msgs: Seq<MwEvV>, max: nat) -> BinEncoded {
    if max == 0 || msgs.len() == 0 {
        BinEncoded::Wrote(0, 0, seq![])
    } else {
        match msgs[0] {
            MwEvV::Player { plid, subplid, ev } => encode_player(plid, subplid, ev, max),
            MwEvV::TileOwner { pos, plid } => if max < 3 {
                BinEncoded::Wrote(0, 0, seq![])
            } else {
                let k = owner_run(msgs, plid, max, 0);
                BinEncoded::Wrote(1 + k, 3 + 2 * k, seq![(0x80 + 16 * k + plid.value() % 16) as u8] + run_pos_bytes(msgs, k + 1))
            },
            MwEvV::Explode { pos } => if max < 3 {
                BinEncoded::Wrote(0, 0, seq![])
            } else {
                let k = explode_run(msgs, max, 0);
                BinEncoded::Wrote(1 + k, 3 + 2 * k, seq![(0x30 + k) as u8] + run_pos_bytes(msgs, k + 1))
            },
            MwEvV::DigitCapture { pos, digit, asterisk } => {
                let k = digit_run(msgs, max, 0);
                if k == 0 {
                    encode_one(3, seq![(0x60 + digit_nibble(digit, asterisk)) as u8] + pos_bytes(pos), max)
                } else {
                    BinEncoded::Wrote(1 + k, digit_msg_len(k), seq![(0x80 + 16 * k) as u8] + run_pos_bytes(msgs, k + 1) + digit_bytes(msgs, k))
                }
            },
            _ => encode_single(msgs[0], max),
        }
    }
}

/// The effect of an encoding on the output and the result.
pub open spec fn encoded_as(enc: BinEncoded, r: Result<(usize, usize), MsgBinWriteError>, before: Seq<u8>, after: Seq<u8>) -> bool {
    match enc {
        BinEncoded::Wrote(n, nb, bytes) => r matches Ok((a, b)) && a == n && b == nb && after == before + bytes,
        BinEncoded::Invalid(v) => r == Err::<(usize, usize), MsgBinWriteError>(MsgBinWriteError::InvalidValue(v))
            && after == before,
    }
}

// ---------------------------------------------------------------------------
// Writing
// ---------------------------------------------------------------------------

/// `boundary_at_or_below` does not go above its starting point.
proof fn lemma_boundary_at_or_below_le(bytes: Seq<u8>, i: nat)
    ensures
        boundary_at_or_below(bytes, i) <= i,
    decreases i,
{
    if i > 0 && !is_char_boundary(bytes, i as int) {
        lemma_boundary_at_or_below_le(bytes, (i - 1) as nat);
    }
}

/// The bytes of a text on the wire are no more than its encoding.
pub proof fn lemma_text_len_le(t: Seq<char>)
    ensures
        text_len(t) <= encode_utf8(t).len(),
        text_field(t).len() == 1 + text_len(t),
{
    lemma_boundary_at_or_below_le(encode_utf8(t), 255);
}

fn push_pos(out: &mut Vec<u8>, p: Pos)
    ensures
        final(out)@ == old(out)@ + pos_bytes(p),
{
    out.push(p.0 as u8);
    out.push(p.1 as u8);
    assert(final(out)@ =~= old(out)@ + pos_bytes(p));
}

fn push_be16(out: &mut Vec<u8>, v: u16)
    ensures
        final(out)@ == old(out)@ + be16_bytes(v),
{
    out.push((v / 256) as u8);
    out.push((v % 256) as u8);
    assert(final(out)@ =~= old(out)@ + be16_bytes(v));
}

fn push_be32(out: &mut Vec<u8>, v: u32)
    ensures
        final(out)@ == old(out)@ + be32_bytes(v),
{
    out.push((v / 0x1000000) as u8);
    out.push((v / 0x10000 % 256) as u8);
    out.push((v / 256 % 256) as u8);
    out.push((v % 256) as u8);
    assert(final(out)@ =~= old(out)@ + be32_bytes(v));
}

/// The number of bytes of a text that go on the wire.
fn text_prefix_len(s: &String) -> (n: usize)
    ensures
        n == text_len(s@),
        n <= 255,
        n <= encode_utf8(s@).len(),
{
    let st = s.as_str();
    let len = st.as_bytes().len();
    let ghost b = encode_utf8(s@);
    assert(st.spec_bytes() == b);
    if len <= 255 {
        return len;
    }
    let mut i: usize = 255;
    while i > 0 && !st.is_char_boundary(i)
        invariant
            i <= 255,
            st@ == s@,
            b == encode_utf8(s@),
            b.len() > 255,
            boundary_at_or_below(b, 255) == boundary_at_or_below(b, i as nat),
        decreases i,
    {
        i = i - 1;
    }
    proof {
        lemma_boundary_at_or_below_le(b, 255);
        assert(boundary_at_or_below(b, i as nat) == i);
    }
    i
}

/// Append a text field: its length byte, then its bytes.
fn push_text(out: &mut Vec<u8>, s: &String)
    ensures
        final(out)@ == old(out)@ + text_field(s@),
{
    let n = text_prefix_len(s);
    out.push(n as u8);
    let b = s.as_str().as_bytes();
    let ghost base = old(out)@ + seq![n as u8];
    assert(out@ =~= base);
    let mut i: usize = 0;
    while i < n
        invariant
            i <= n,
            n <= b@.len(),
            b@ == encode_utf8(s@),
            out@ == base + b@.subrange(0, i as int),
        decreases n - i,
    {
        out.push(b[i]);
        i = i + 1;
        assert(out@ =~= base + b@.subrange(0, i as int));
    }
    assert(final(out)@ =~= old(out)@ + text_field(s@));
}

/// The position of a tile event that can be packed with others.
fn tile_pos(e: &MwEv) -> (p: Pos)
    ensures
        p == ev_pos(e@),
{
    match e {
        MwEv::TileOwner { pos, .. } => *pos,
        MwEv::Explode { pos } => *pos,
        MwEv::DigitCapture { pos, .. } => *pos,
        _ => Pos(0, 0),
    }
}

/// The digit code of a digit event.
fn nibble_of(e: &MwEv) -> (r: u8)
    ensures
        r == ev_nibble(e@),
        r < 16,
{
    match e {
        MwEv::DigitCapture { digit, asterisk, .. } => (if *asterisk { 8u8 } else { 0u8 }) + *digit % 8,
        _ => 0,
    }
}

/// Append the positions of the first `k + 1` events.
fn push_run_positions(out: &mut Vec<u8>, msgs: &[MwEv], k: usize)
    requires
        k < msgs.len(),
    ensures
        final(out)@ == old(out)@ + run_pos_bytes(evs_view(msgs@), (k + 1) as nat),
{
    let ghost v = evs_view(msgs@);
    let ghost base = old(out)@;
    let mut j: usize = 0;
    assert(out@ =~= base + run_pos_bytes(v, 0));
    while j <= k
        invariant
            j <= k + 1,
            k < msgs.len(),
            v == evs_view(msgs@),
            out@ == base + run_pos_bytes(v, j as nat),
        decreases k + 1 - j,
    {
        let p = tile_pos(&msgs[j]);
        assert(v[j as int] == msgs@[j as int]@);
        push_pos(out, p);
        assert(run_pos_bytes(v, (j + 1) as nat) =~= run_pos_bytes(v, j as nat) + pos_bytes(ev_pos(v[j as int])));
        j = j + 1;
    }
}

/// Append the packed digit codes of the first `k + 1` events.
fn push_digit_codes(out: &mut Vec<u8>, msgs: &[MwEv], k: usize)
    requires
        k < msgs.len(),
    ensures
        final(out)@ == old(out)@ + digit_bytes(evs_view(msgs@), k as nat),
{
    let ghost v = evs_view(msgs@);
    let ghost base = old(out)@;
    let ghost all = digit_bytes(v, k as nat);
    let mut m: usize = 0;
    assert(out@ =~= base + all.subrange(0, 0));
    while m <= k / 2
        invariant
            m <= k / 2 + 1,
            k < msgs.len(),
            v == evs_view(msgs@),
            all == digit_bytes(v, k as nat),
            out@ == base + all.subrange(0, m as int),
        decreases k / 2 + 1 - m,
    {
        let hi = nibble_of(&msgs[2 * m]);
        assert(v[2 * m as int] == msgs@[2 * m as int]@);
        let lo = if 2 * m + 1 <= k {
            assert(v[2 * m + 1] == msgs@[2 * m + 1]@);
            nibble_of(&msgs[2 * m + 1])
        } else {
            0
        };
        let byte = hi * 16 + lo;
        out.push(byte);
        assert(all[m as int] == byte);
        assert(all.subrange(0, m + 1) =~= all.subrange(0, m as int).push(byte));
        m = m + 1;
    }
    assert(all.subrange(0, m as int) =~= all);
}

impl MsgBinWrite {
    /// Encode a player event.
    fn write_player(&mut self, out: &mut Vec<u8>, plid: PlayerId, subplid: Option<u8>, ev: &PlayerEv, max_bytes: usize) -> (r: (usize, usize))
        ensures
            match encode_player(plid, subplid, ev@, max_bytes as nat) {
                BinEncoded::Wrote(n, nb, bytes) => r.0 == n && r.1 == nb && final(out)@ == old(out)@ + bytes,
                BinEncoded::Invalid(_) => false,
            },
    {
        let (code, size): (u8, usize) = match ev {
            PlayerEv::Joined { .. } => (0x00, 4),
            PlayerEv::NetRttInfo { .. } => (0x01, 4),
            PlayerEv::Timeout { .. } => (0x02, 4),
            PlayerEv::TimeoutFinished => (0x03, 3),
            PlayerEv::Exploded { .. } => (0x04, 6),
            PlayerEv::LivesRemain { .. } => (0x05, 4),
            PlayerEv::Protected => (0x06, 3),
            PlayerEv::Unprotected => (0x07, 3),
            PlayerEv::Eliminated => (0x08, 3),
            PlayerEv::Surrendered => (0x09, 3),
            PlayerEv::Disconnected => (0x0A, 3),
            PlayerEv::Kicked => (0x0B, 3),
            PlayerEv::ChatAll { .. } => (0x10, 4),
            PlayerEv::ChatFriendly { .. } => (0x11, 4),
            PlayerEv::MatchTimeRemain { .. } => (0x12, 5),
            PlayerEv::VoteNew { .. } => (0x13, 5),
            PlayerEv::VoteNo { .. } => (0x0C, 4),
            PlayerEv::VoteYes { .. } => (0x0D, 4),
            PlayerEv::VoteFail { .. } => (0x0E, 4),
            PlayerEv::VotePass { .. } => (0x0F, 4),
        };
        let strlen: usize = match ev {
            PlayerEv::Joined { name } => text_prefix_len(name),
            PlayerEv::ChatAll { text } => text_prefix_len(text),
            PlayerEv::ChatFriendly { text } => text_prefix_len(text),
            PlayerEv::VoteNew { l10nkey, .. } => text_prefix_len(l10nkey),
            _ => 0,
        };
        assert(code == player_status(ev@).0 && size == player_status(ev@).1 && strlen == player_text_len(ev@));
        if max_bytes < size + strlen {
            return (0, 0);
        }
        let sub: u8 = match subplid {
            Some(x) => x % 16,
            None => 15,
        };
        let byte1: u8 = plid.to_u8() % 16 + 16 * sub;
        let ghost base = old(out)@ + seq![0u8, player_byte(plid, subplid), code];
        out.push(0);
        out.push(byte1);
        out.push(code);
        assert(out@ =~= base);
        match ev {
            PlayerEv::Joined { name } => push_text(out, name),
            PlayerEv::NetRttInfo { duration } => out.push(duration.0),
            PlayerEv::Timeout { duration } => out.push(duration.0),
            PlayerEv::Exploded { pos, killer } => {
                push_pos(out, *pos);
                out.push(killer.to_u8());
            },
            PlayerEv::LivesRemain { lives } => out.push(*lives),
            PlayerEv::MatchTimeRemain { secs } => push_be16(out, *secs),
            PlayerEv::VoteNo { id } => out.push(*id),
            PlayerEv::VoteYes { id } => out.push(*id),
            PlayerEv::VoteFail { id } => out.push(*id),
            PlayerEv::VotePass { id } => out.push(*id),
            PlayerEv::ChatAll { text } => push_text(out, text),
            PlayerEv::ChatFriendly { text } => push_text(out, text),
            PlayerEv::VoteNew { id, l10nkey } => {
                out.push(*id);
                push_text(out, l10nkey);
            },
            _ => {},
        }
        assert(final(out)@ =~= base + player_payload(ev@));
        (1, size + strlen)
    }

    /// Encode a run of tile-owner events.
    fn write_owner(&mut self, out: &mut Vec<u8>, msgs: &[MwEv], plid: PlayerId, max_bytes: usize) -> (r: (usize, usize))
        requires
            msgs.len() > 0,
            max_bytes >= 3,
        ensures
            ({
                let k = owner_run(evs_view(msgs@), plid, max_bytes as nat, 0);
                &&& r.0 == 1 + k
                &&& r.1 == 3 + 2 * k
                &&& final(out)@ == old(out)@ + seq![(0x80 + 16 * k + plid.value() % 16) as u8] + run_pos_bytes(evs_view(msgs@), k + 1)
            }),
    {
        let ghost v = evs_view(msgs@);
        let ghost max = max_bytes as nat;
        let mut k: usize = 0;
        while k < 7 && k + 1 < msgs.len()
            invariant
                k <= 7,
                k < msgs.len(),
                v == evs_view(msgs@),
                max == max_bytes,
                owner_run(v, plid, max, 0) == owner_run(v, plid, max, k as nat),
            ensures
                k <= 7,
                k < msgs.len(),
                owner_run(v, plid, max, 0) == k,
            decreases 7 - k,
        {
            assert(v[k + 1] == msgs@[k + 1]@);
            let fits = match &msgs[k + 1] {
                MwEv::TileOwner { plid: p2, .. } => *p2 == plid && 3 + 2 * k + 2 <= max_bytes,
                _ => false,
            };
            if !fits {
                break;
            }
            k = k + 1;
        }
        let b0 = (0x80 + 16 * k + (plid.to_u8() % 16) as usize) as u8;
        out.push(b0);
        push_run_positions(out, msgs, k);
        (1 + k, 3 + 2 * k)
    }

    /// Encode a run of explosions.
    fn write_explode(&mut self, out: &mut Vec<u8>, msgs: &[MwEv], max_bytes: usize) -> (r: (usize, usize))
        requires
            msgs.len() > 0,
            max_bytes >= 3,
        ensures
            ({
                let k = explode_run(evs_view(msgs@), max_bytes as nat, 0);
                &&& r.0 == 1 + k
                &&& r.1 == 3 + 2 * k
                &&& final(out)@ == old(out)@ + seq![(0x30 + k) as u8] + run_pos_bytes(evs_view(msgs@), k + 1)
            }),
    {
        let ghost v = evs_view(msgs@);
        let ghost max = max_bytes as nat;
        let mut k: usize = 0;
        while k < 15 && k + 1 < msgs.len()
            invariant
                k <= 15,
                k < msgs.len(),
                v == evs_view(msgs@),
                max == max_bytes,
                explode_run(v, max, 0) == explode_run(v, max, k as nat),
            ensures
                k <= 15,
                k < msgs.len(),
                explode_run(v, max, 0) == k,
            decreases 15 - k,
        {
            assert(v[k + 1] == msgs@[k + 1]@);
            let fits = match &msgs[k + 1] {
                MwEv::Explode { .. } => 3 + 2 * k + 2 <= max_bytes,
                _ => false,
            };
            if !fits {
                break;
            }
            k = k + 1;
        }
        out.push((0x30 + k) as u8);
        push_run_positions(out, msgs, k);
        (1 + k, 3 + 2 * k)
    }

    /// Encode a digit event, packing the digit events that follow it.
    fn write_digits(&mut self, out: &mut Vec<u8>, msgs: &[MwEv], pos: Pos, digit: u8, asterisk: bool, max_bytes: usize) -> (r: (usize, usize))
        requires
            msgs.len() > 0,
            msgs@[0]@ == (MwEvV::DigitCapture { pos, digit, asterisk }),
        ensures
            ({
                let v = evs_view(msgs@);
                let k = digit_run(v, max_bytes as nat, 0);
                if k == 0 {
                    if max_bytes < 3 {
                        r == (0usize, 0usize) && final(out)@ == old(out)@
                    } else {
                        r == (1usize, 3usize) && final(out)@ == old(out)@ + seq![(0x60 + digit_nibble(digit, asterisk)) as u8] + pos_bytes(pos)
                    }
                } else {
                    r.0 == 1 + k && r.1 == digit_msg_len(k)
                        && final(out)@ == old(out)@ + seq![(0x80 + 16 * k) as u8] + run_pos_bytes(v, k + 1) + digit_bytes(v, k)
                }
            }),
    {
        let ghost v = evs_view(msgs@);
        let ghost max = max_bytes as nat;
        let mut k: usize = 0;
        while k < 7 && k + 1 < msgs.len()
            invariant
                k <= 7,
                k < msgs.len(),
                v == evs_view(msgs@),
                max == max_bytes,
                digit_run(v, max, 0) == digit_run(v, max, k as nat),
            ensures
                k <= 7,
                k < msgs.len(),
                digit_run(v, max, 0) == k,
            decreases 7 - k,
        {
            assert(v[k + 1] == msgs@[k + 1]@);
            let fits = match &msgs[k + 1] {
                MwEv::DigitCapture { .. } => 4 + 2 * k + k / 2 + 2 + k % 2 <= max_bytes,
                _ => false,
            };
            if !fits {
                break;
            }
            k = k + 1;
        }
        if k == 0 {
            if max_bytes < 3 {
                return (0, 0);
            }
            let nib: u8 = (if asterisk { 8u8 } else { 0u8 }) + digit % 8;
            out.push(0x60 + nib);
            push_pos(out, pos);
            return (1, 3);
        }
        let ghost base = old(out)@;
        out.push((0x80 + 16 * k) as u8);
        push_run_positions(out, msgs, k);
        push_digit_codes(out, msgs, k);
        assert(final(out)@ =~= base + seq![(0x80 + 16 * k) as u8] + run_pos_bytes(v, (k + 1) as nat) + digit_bytes(v, k as nat));
        (1 + k, 4 + 2 * k + k / 2)
    }
}

impl MsgBinWrite {
    /// Encode a money or resource event of a city.
    fn write_cit(&mut self, out: &mut Vec<u8>, e: &MwEv, max_bytes: usize) -> (r: Result<(usize, usize), MsgBinWriteError>)
        requires
            e is CitMoney || e is CitIncome || e is CitMoneyTransact || e is CitRes || e is CitTradeInfo,
        ensures
            encoded_as(encode_single(e@, max_bytes as nat), r, old(out)@, final(out)@),
    {
        let ghost base = old(out)@;
        match e {
            MwEv::CitMoney { cit, money } => {
                if max_bytes < 6 {
                    assert(out@ =~= base + seq![]);
                    return Ok((0, 0));
                }
                if *money >= 0x80000000 {
                    return Err(MsgBinWriteError::InvalidValue(*money));
                }
                out.push(0x04);
                out.push(*cit);
                push_be32(out, *money);
                assert(out@ =~= base + (seq![0x04u8, *cit] + be32_bytes(*money)));
                Ok((1, 6))
            },
            MwEv::CitIncome { cit, money, income } => {
                if max_bytes < 8 {
                    assert(out@ =~= base + seq![]);
                    return Ok((0, 0));
                }
                if *money >= 0x80000000 {
                    return Err(MsgBinWriteError::InvalidValue(*money));
                }
                out.push(0x04);
                out.push(*cit);
                push_be32(out, *money + 0x80000000);
                push_be16(out, *income);
                assert(out@ =~= base + (seq![0x04u8, *cit] + be32_bytes((*money + 0x80000000) as u32) + be16_bytes(*income)));
                Ok((1, 8))
            },
            MwEv::CitMoneyTransact { cit, amount } => {
                if max_bytes < 4 {
                    assert(out@ =~= base + seq![]);
                    return Ok((0, 0));
                }
                out.push(0x05);
                out.push(*cit);
                push_be16(out, *amount as u16);
                assert(out@ =~= base + (seq![0x05u8, *cit] + be16_bytes(*amount as u16)));
                Ok((1, 4))
            },
            MwEv::CitRes { cit, res } => {
                if max_bytes < 4 {
                    assert(out@ =~= base + seq![]);
                    return Ok((0, 0));
                }
                out.push(0x06);
                out.push(*cit);
                push_be16(out, *res);
                assert(out@ =~= base + (seq![0x06u8, *cit] + be16_bytes(*res)));
                Ok((1, 4))
            },
            MwEv::CitTradeInfo { cit, export, import } => {
                if max_bytes < 4 {
                    assert(out@ =~= base + seq![]);
                    return Ok((0, 0));
                }
                out.push(0x07);
                out.push(*cit);
                out.push(*export);
                out.push(*import);
                assert(out@ =~= base + seq![0x07u8, *cit, *export, *import]);
                Ok((1, 4))
            },
            _ => Ok((0, 0)),
        }
    }

    /// Encode a message of three bytes: a code and a position.
    fn write_code_pos(&mut self, out: &mut Vec<u8>, code: u8, pos: Pos, max_bytes: usize) -> (r: Result<(usize, usize), MsgBinWriteError>)
        ensures
            encoded_as(encode_one(3, seq![code] + pos_bytes(pos), max_bytes as nat), r, old(out)@, final(out)@),
    {
        let ghost base = old(out)@;
        if max_bytes < 3 {
            assert(out@ =~= base + seq![]);
            return Ok((0, 0));
        }
        out.push(code);
        push_pos(out, pos);
        assert(out@ =~= base + (seq![code] + pos_bytes(pos)));
        Ok((1, 3))
    }

    /// Encode an event that always stands alone in its message.
    fn write_single(&mut self, out: &mut Vec<u8>, e: &MwEv, max_bytes: usize) -> (r: Result<(usize, usize), MsgBinWriteError>)
        requires
            !(e is Player || e is TileOwner || e is Explode || e is DigitCapture),
        ensures
            encoded_as(encode_single(e@, max_bytes as nat), r, old(out)@, final(out)@),
    {
        let ghost base = old(out)@;
        match e {
            MwEv::Nop => {
                assert(out@ =~= base + seq![]);
                Ok((1, 0))
            },
            MwEv::Debug(i, pos) => {
                if max_bytes < 4 {
                    assert(out@ =~= base + seq![]);
                    return Ok((0, 0));
                }
                out.push(0x0E);
                out.push(*i);
                push_pos(out, *pos);
                assert(out@ =~= base + (seq![0x0Eu8, *i] + pos_bytes(*pos)));
                Ok((1, 4))
            },
            MwEv::Tremor => {
                out.push(0x01);
                assert(out@ =~= base + seq![0x01u8]);
                Ok((1, 1))
            },
            MwEv::Smoke { pos } => self.write_code_pos(out, 0x02, *pos, max_bytes),
            MwEv::Unsmoke { pos } => self.write_code_pos(out, 0x03, *pos, max_bytes),
            MwEv::CitMoney { .. } | MwEv::CitIncome { .. } | MwEv::CitMoneyTransact { .. }
            | MwEv::CitRes { .. } | MwEv::CitTradeInfo { .. } => self.write_cit(out, e, max_bytes),
            MwEv::Flag { plid, pos } => {
                if max_bytes < 4 {
                    assert(out@ =~= base + seq![]);
                    return Ok((0, 0));
                }
                out.push(0x0F);
                out.push(plid.to_u8());
                push_pos(out, *pos);
                assert(out@ =~= base + (seq![0x0Fu8, plid.value()] + pos_bytes(*pos)));
                Ok((1, 4))
            },
            MwEv::StructureGone { pos } => self.write_code_pos(out, 0x20, *pos, max_bytes),
            MwEv::StructureHp { pos, hp } => {
                if max_bytes < 3 {
                    assert(out@ =~= base + seq![]);
                    return Ok((0, 0));
                }
                if *hp > 0x0F {
                    return Err(MsgBinWriteError::InvalidValue(*hp as u32));
                }
                self.write_code_pos(out, 0x20 + *hp, *pos, max_bytes)
            },
            MwEv::BuildNew { pos, kind, pts } => {
                if max_bytes < 5 {
                    assert(out@ =~= base + seq![]);
                    return Ok((0, 0));
                }
                out.push(0x40 + kind.to_u8());
                push_pos(out, *pos);
                push_be16(out, *pts);
                assert(out@ =~= base + (seq![(0x40 + kind.code()) as u8] + pos_bytes(*pos) + be16_bytes(*pts)));
                Ok((1, 5))
            },
            MwEv::Construction { pos, current, rate } => {
                if max_bytes < 7 {
                    assert(out@ =~= base + seq![]);
                    return Ok((0, 0));
                }
                out.push(0x4F);
                push_pos(out, *pos);
                push_be16(out, *current);
                push_be16(out, *rate);
                assert(out@ =~= base + (seq![0x4Fu8] + pos_bytes(*pos) + be16_bytes(*current) + be16_bytes(*rate)));
                Ok((1, 7))
            },
            MwEv::RevealStructure { pos, kind } => self.write_code_pos(out, 0x50 + kind.to_u8(), *pos, max_bytes),
            MwEv::RevealItem { pos, item } => self.write_code_pos(out, 0x10 + item.to_u8(), *pos, max_bytes),
            MwEv::TileKind { pos, kind } => self.write_code_pos(out, 0x70 + kind.to_u8(), *pos, max_bytes),
            _ => Ok((0, 0)),
        }
    }

    /// Encode the events at the front of `msgs` as one message, appending
    /// its bytes to `out`, using at most `max_bytes` bytes (0 events are
    /// taken when the message does not fit). Consecutive tile-owner events of
    /// one player, explosions, and digit events are packed together. Returns
    /// the number of events taken and the size of the message. On error,
    /// `out` is unchanged.
    pub fn write(&mut self, out: &mut Vec<u8>, msgs: &[MwEv], max_bytes: usize) -> (r: Result<(usize, usize), MsgBinWriteError>)
        ensures
            encoded_as(bin_encode(evs_view(msgs@), max_bytes as nat), r, old(out)@, final(out)@),
            r matches Ok((_, nb)) ==> final(out)@.len() == old(out)@.len() + nb && nb <= max_bytes,
    {
        let ghost v = evs_view(msgs@);
        let ghost base = old(out)@;
        proof {
            crate::msg::bin_laws::lemma_bin_encode_size(v, max_bytes as nat);
            crate::msg::bin_laws::lemma_bin_encode_bounds(v, max_bytes as nat);
            reveal(bin_encode);
        }
        if max_bytes == 0 || msgs.len() == 0 {
            assert(out@ =~= base + seq![]);
            return Ok((0, 0));
        }
        assert(v[0] == msgs@[0]@);
        let r = match &msgs[0] {
            MwEv::Player { plid, subplid, ev } => {
                let r = self.write_player(out, *plid, *subplid, ev, max_bytes);
                Ok(r)
            },
            MwEv::TileOwner { plid, .. } => {
                if max_bytes < 3 {
                    assert(out@ =~= base + seq![]);
                    return Ok((0, 0));
                }
                let r = self.write_owner(out, msgs, *plid, max_bytes);
                Ok(r)
            },
            MwEv::Explode { .. } => {
                if max_bytes < 3 {
                    assert(out@ =~= base + seq![]);
                    return Ok((0, 0));
                }
                let r = self.write_explode(out, msgs, max_bytes);
                Ok(r)
            },
            MwEv::DigitCapture { pos, digit, asterisk } => {
                let r = self.write_digits(out, msgs, *pos, *digit, *asterisk, max_bytes);
                proof {
                    if digit_run(v, max_bytes as nat, 0) == 0 && max_bytes < 3 {
                        assert(final(out)@ =~= base + seq![]);
                    }
                }
                Ok(r)
            },
            e => self.write_single(out, e, max_bytes),
        };
        proof {
            if let BinEncoded::Wrote(n, nb, bytes) = bin_encode(v, max_bytes as nat) {
                assert(out@ =~= base + bytes);
            }
        }
        r
    }
}

} // verus!
