//! What the binary decoder gives back of what the binary encoder wrote.

use vstd::prelude::*;
use vstd::utf8::*;
use crate::plid::PlayerId;
use crate::grid::pos::Pos;
use crate::game::event::{MwEvV, PlayerEvV};
use crate::game::{item_kinds_declared, lemma_item_kind_code_is_declaration_index};
use super::bin::{bin_decode, BinDecoded, pos_of_bytes, be16, be32};
use super::bin_enc::{lemma_text_len_le, 
    BinEncoded, bin_encode, encode_single, encode_one, encode_player, pos_bytes, be16_bytes,
    be32_bytes, text_len, text_field, player_text_len, player_status, player_payload, player_byte,
    owner_run, explode_run, digit_run, run_pos_bytes, ev_pos, digit_nibble, digit_msg_len,
};

verus! {

/// Whether the text of a player event fits whole in its message.
pub open spec fn player_ev_roundtrips(ev: PlayerEvV) -> bool {
    match ev {
        PlayerEvV::Joined { name } => encode_utf8(name).len() <= 255,
        PlayerEvV::ChatAll { text } => encode_utf8(text).len() <= 255,
        PlayerEvV::ChatFriendly { text } => encode_utf8(text).len() <= 255,
        PlayerEvV::VoteNew { l10nkey, .. } => encode_utf8(l10nkey).len() <= 255,
        PlayerEvV::Exploded { killer, .. } => killer.wf(),
        _ => true,
    }
}

/// Whether an event comes back unchanged from the binary encoding: the
/// fields that the encoding holds in fewer bits are in range, texts fit in
/// 255 bytes, and the event is none of those that the encoding does not give
/// back (a no-op writes nothing; an income update comes back with its flag
/// bit set in the money field; a structure at 0 hp comes back as gone; a
/// tile owned by nobody comes back as a packed digit message).
pub open spec fn bin_roundtrips(e: MwEvV) -> bool {
    match e {
        MwEvV::Nop => false,
        MwEvV::Player { plid, subplid, ev } => plid.wf() && plid.value() < 16
            && (subplid matches Some(x) ==> x < 15) && player_ev_roundtrips(ev),
        MwEvV::CitMoney { money, .. } => money < 0x80000000,
        MwEvV::CitIncome { .. } => false,
        MwEvV::Flag { plid, .. } => plid.wf(),
        MwEvV::StructureHp { hp, .. } => 1 <= hp <= 15,
        MwEvV::DigitCapture { digit, .. } => digit < 8,
        MwEvV::TileOwner { plid, .. } => plid.wf() && 1 <= plid.value() < 16,
        _ => true,
    }
}

proof fn lemma_plid_roundtrip(p: PlayerId)
    requires
        p.wf(),
    ensures
        PlayerId::from_value(p.value()) == p,
{
}

proof fn lemma_pos_roundtrip(p: Pos)
    ensures
        pos_of_bytes(p.0 as u8, p.1 as u8) == p,
{
    let y = p.0;
    let x = p.1;
    assert((y as u8) as i8 == y) by (bit_vector);
    assert((x as u8) as i8 == x) by (bit_vector);
}

proof fn lemma_be16_roundtrip(v: u16)
    ensures
        be16((v / 256) as u8, (v % 256) as u8) == v,
{
}

proof fn lemma_be32_roundtrip(v: u32)
    ensures
        be32((v / 0x1000000) as u8, (v / 0x10000 % 256) as u8, (v / 256 % 256) as u8, (v % 256) as u8) == v,
{
    assert((v / 0x1000000) * 0x1000000 + (v / 0x10000 % 256) * 0x10000 + (v / 256 % 256) * 0x100 + v % 256 == v)
        by (nonlinear_arith);
}

proof fn lemma_i16_roundtrip(a: i16)
    ensures
        ((a as u16) as i16) == a,
{
    assert(((a as u16) as i16) == a) by (bit_vector);
}

proof fn lemma_roundtrip_debug(e: MwEvV, max: nat, rest: Seq<u8>)
    requires
        e is Debug,
        bin_roundtrips(e),
        encode_single(e, max) matches BinEncoded::Wrote(n, _, bytes) && n > 0,
    ensures
        bin_decode(encode_single(e, max)->Wrote_2 + rest) == BinDecoded::Done(encode_single(e, max)->Wrote_2.len(), seq![e]),
{
    let bytes = encode_single(e, max)->Wrote_2;
    let data = bytes + rest;
    if let MwEvV::Debug(i, pos) = e {
            lemma_pos_roundtrip(pos);
            assert(data[0] == 0x0E && data[1] == i && data[2] == pos.0 as u8 && data[3] == pos.1 as u8);
    }
}

proof fn lemma_roundtrip_tremor(e: MwEvV, max: nat, rest: Seq<u8>)
    requires
        e is Tremor,
        bin_roundtrips(e),
        encode_single(e, max) matches BinEncoded::Wrote(n, _, bytes) && n > 0,
    ensures
        bin_decode(encode_single(e, max)->Wrote_2 + rest) == BinDecoded::Done(encode_single(e, max)->Wrote_2.len(), seq![e]),
{
    let bytes = encode_single(e, max)->Wrote_2;
    let data = bytes + rest;

        assert(data[0] == 1);
}

proof fn lemma_roundtrip_smoke(e: MwEvV, max: nat, rest: Seq<u8>)
    requires
        e is Smoke,
        bin_roundtrips(e),
        encode_single(e, max) matches BinEncoded::Wrote(n, _, bytes) && n > 0,
    ensures
        bin_decode(encode_single(e, max)->Wrote_2 + rest) == BinDecoded::Done(encode_single(e, max)->Wrote_2.len(), seq![e]),
{
    let bytes = encode_single(e, max)->Wrote_2;
    let data = bytes + rest;
    if let MwEvV::Smoke { pos } = e {
            lemma_pos_roundtrip(pos);
            assert(data[0] == 2 && data[1] == pos.0 as u8 && data[2] == pos.1 as u8);
    }
}

proof fn lemma_roundtrip_unsmoke(e: MwEvV, max: nat, rest: Seq<u8>)
    requires
        e is Unsmoke,
        bin_roundtrips(e),
        encode_single(e, max) matches BinEncoded::Wrote(n, _, bytes) && n > 0,
    ensures
        bin_decode(encode_single(e, max)->Wrote_2 + rest) == BinDecoded::Done(encode_single(e, max)->Wrote_2.len(), seq![e]),
{
    let bytes = encode_single(e, max)->Wrote_2;
    let data = bytes + rest;
    if let MwEvV::Unsmoke { pos } = e {
            lemma_pos_roundtrip(pos);
            assert(data[0] == 3 && data[1] == pos.0 as u8 && data[2] == pos.1 as u8);
    }
}

proof fn lemma_roundtrip_cit_money(e: MwEvV, max: nat, rest: Seq<u8>)
    requires
        e is CitMoney,
        bin_roundtrips(e),
        encode_single(e, max) matches BinEncoded::Wrote(n, _, bytes) && n > 0,
    ensures
        bin_decode(encode_single(e, max)->Wrote_2 + rest) == BinDecoded::Done(encode_single(e, max)->Wrote_2.len(), seq![e]),
{
    let bytes = encode_single(e, max)->Wrote_2;
    let data = bytes + rest;
    if let MwEvV::CitMoney { cit, money } = e {
            lemma_be32_roundtrip(money);
            assert(data[0] == 4 && data[1] == cit && data[2] == (money / 0x1000000) as u8
                && data[3] == (money / 0x10000 % 256) as u8 && data[4] == (money / 256 % 256) as u8
                && data[5] == (money % 256) as u8);
    }
}

proof fn lemma_roundtrip_cit_money_transact(e: MwEvV, max: nat, rest: Seq<u8>)
    requires
        e is CitMoneyTransact,
        bin_roundtrips(e),
        encode_single(e, max) matches BinEncoded::Wrote(n, _, bytes) && n > 0,
    ensures
        bin_decode(encode_single(e, max)->Wrote_2 + rest) == BinDecoded::Done(encode_single(e, max)->Wrote_2.len(), seq![e]),
{
    let bytes = encode_single(e, max)->Wrote_2;
    let data = bytes + rest;
    if let MwEvV::CitMoneyTransact { cit, amount } = e {
            let v = amount as u16;
            lemma_be16_roundtrip(v);
            lemma_i16_roundtrip(amount);
            assert(data[0] == 5 && data[1] == cit && data[2] == (v / 256) as u8 && data[3] == (v % 256) as u8);
    }
}

proof fn lemma_roundtrip_cit_res(e: MwEvV, max: nat, rest: Seq<u8>)
    requires
        e is CitRes,
        bin_roundtrips(e),
        encode_single(e, max) matches BinEncoded::Wrote(n, _, bytes) && n > 0,
    ensures
        bin_decode(encode_single(e, max)->Wrote_2 + rest) == BinDecoded::Done(encode_single(e, max)->Wrote_2.len(), seq![e]),
{
    let bytes = encode_single(e, max)->Wrote_2;
    let data = bytes + rest;
    if let MwEvV::CitRes { cit, res } = e {
            lemma_be16_roundtrip(res);
            assert(data[0] == 6 && data[1] == cit && data[2] == (res / 256) as u8 && data[3] == (res % 256) as u8);
    }
}

proof fn lemma_roundtrip_cit_trade_info(e: MwEvV, max: nat, rest: Seq<u8>)
    requires
        e is CitTradeInfo,
        bin_roundtrips(e),
        encode_single(e, max) matches BinEncoded::Wrote(n, _, bytes) && n > 0,
    ensures
        bin_decode(encode_single(e, max)->Wrote_2 + rest) == BinDecoded::Done(encode_single(e, max)->Wrote_2.len(), seq![e]),
{
    let bytes = encode_single(e, max)->Wrote_2;
    let data = bytes + rest;
    if let MwEvV::CitTradeInfo { cit, export, import } = e {
            assert(data[0] == 7 && data[1] == cit && data[2] == export && data[3] == import);
    }
}

proof fn lemma_roundtrip_flag(e: MwEvV, max: nat, rest: Seq<u8>)
    requires
        e is Flag,
        bin_roundtrips(e),
        encode_single(e, max) matches BinEncoded::Wrote(n, _, bytes) && n > 0,
    ensures
        bin_decode(encode_single(e, max)->Wrote_2 + rest) == BinDecoded::Done(encode_single(e, max)->Wrote_2.len(), seq![e]),
{
    let bytes = encode_single(e, max)->Wrote_2;
    let data = bytes + rest;
    if let MwEvV::Flag { plid, pos } = e {
            lemma_pos_roundtrip(pos);
            lemma_plid_roundtrip(plid);
            assert(data[0] == 0x0F && data[1] == plid.value() && data[2] == pos.0 as u8 && data[3] == pos.1 as u8);
    }
}

proof fn lemma_roundtrip_structure_gone(e: MwEvV, max: nat, rest: Seq<u8>)
    requires
        e is StructureGone,
        bin_roundtrips(e),
        encode_single(e, max) matches BinEncoded::Wrote(n, _, bytes) && n > 0,
    ensures
        bin_decode(encode_single(e, max)->Wrote_2 + rest) == BinDecoded::Done(encode_single(e, max)->Wrote_2.len(), seq![e]),
{
    let bytes = encode_single(e, max)->Wrote_2;
    let data = bytes + rest;
    if let MwEvV::StructureGone { pos } = e {
            lemma_pos_roundtrip(pos);
            assert(data[0] == 0x20 && data[1] == pos.0 as u8 && data[2] == pos.1 as u8);
    }
}

proof fn lemma_roundtrip_structure_hp(e: MwEvV, max: nat, rest: Seq<u8>)
    requires
        e is StructureHp,
        bin_roundtrips(e),
        encode_single(e, max) matches BinEncoded::Wrote(n, _, bytes) && n > 0,
    ensures
        bin_decode(encode_single(e, max)->Wrote_2 + rest) == BinDecoded::Done(encode_single(e, max)->Wrote_2.len(), seq![e]),
{
    let bytes = encode_single(e, max)->Wrote_2;
    let data = bytes + rest;
    if let MwEvV::StructureHp { pos, hp } = e {
            lemma_pos_roundtrip(pos);
            assert(data[0] == 0x20 + hp && data[1] == pos.0 as u8 && data[2] == pos.1 as u8);
    }
}

proof fn lemma_roundtrip_build_new(e: MwEvV, max: nat, rest: Seq<u8>)
    requires
        e is BuildNew,
        bin_roundtrips(e),
        encode_single(e, max) matches BinEncoded::Wrote(n, _, bytes) && n > 0,
    ensures
        bin_decode(encode_single(e, max)->Wrote_2 + rest) == BinDecoded::Done(encode_single(e, max)->Wrote_2.len(), seq![e]),
{
    let bytes = encode_single(e, max)->Wrote_2;
    let data = bytes + rest;
    if let MwEvV::BuildNew { pos, kind, pts } = e {
            lemma_pos_roundtrip(pos);
            lemma_be16_roundtrip(pts);
            assert(data[0] == 0x40 + kind.code() && data[1] == pos.0 as u8 && data[2] == pos.1 as u8
                && data[3] == (pts / 256) as u8 && data[4] == (pts % 256) as u8);
    }
}

proof fn lemma_roundtrip_construction(e: MwEvV, max: nat, rest: Seq<u8>)
    requires
        e is Construction,
        bin_roundtrips(e),
        encode_single(e, max) matches BinEncoded::Wrote(n, _, bytes) && n > 0,
    ensures
        bin_decode(encode_single(e, max)->Wrote_2 + rest) == BinDecoded::Done(encode_single(e, max)->Wrote_2.len(), seq![e]),
{
    let bytes = encode_single(e, max)->Wrote_2;
    let data = bytes + rest;
    if let MwEvV::Construction { pos, current, rate } = e {
            lemma_pos_roundtrip(pos);
            lemma_be16_roundtrip(current);
            lemma_be16_roundtrip(rate);
            assert(data[0] == 0x4F && data[1] == pos.0 as u8 && data[2] == pos.1 as u8
                && data[3] == (current / 256) as u8 && data[4] == (current % 256) as u8
                && data[5] == (rate / 256) as u8 && data[6] == (rate % 256) as u8);
    }
}

proof fn lemma_roundtrip_reveal_structure(e: MwEvV, max: nat, rest: Seq<u8>)
    requires
        e is RevealStructure,
        bin_roundtrips(e),
        encode_single(e, max) matches BinEncoded::Wrote(n, _, bytes) && n > 0,
    ensures
        bin_decode(encode_single(e, max)->Wrote_2 + rest) == BinDecoded::Done(encode_single(e, max)->Wrote_2.len(), seq![e]),
{
    let bytes = encode_single(e, max)->Wrote_2;
    let data = bytes + rest;
    if let MwEvV::RevealStructure { pos, kind } = e {
            lemma_pos_roundtrip(pos);
            assert(data[0] == 0x50 + kind.code() && data[1] == pos.0 as u8 && data[2] == pos.1 as u8);
    }
}

proof fn lemma_roundtrip_reveal_item(e: MwEvV, max: nat, rest: Seq<u8>)
    requires
        e is RevealItem,
        bin_roundtrips(e),
        encode_single(e, max) matches BinEncoded::Wrote(n, _, bytes) && n > 0,
    ensures
        bin_decode(encode_single(e, max)->Wrote_2 + rest) == BinDecoded::Done(encode_single(e, max)->Wrote_2.len(), seq![e]),
{
    let bytes = encode_single(e, max)->Wrote_2;
    let data = bytes + rest;
    if let MwEvV::RevealItem { pos, item } = e {
            lemma_pos_roundtrip(pos);
            assert(data[0] == 0x10 + item.code() && data[1] == pos.0 as u8 && data[2] == pos.1 as u8);
    }
}

proof fn lemma_roundtrip_tile_kind(e: MwEvV, max: nat, rest: Seq<u8>)
    requires
        e is TileKind,
        bin_roundtrips(e),
        encode_single(e, max) matches BinEncoded::Wrote(n, _, bytes) && n > 0,
    ensures
        bin_decode(encode_single(e, max)->Wrote_2 + rest) == BinDecoded::Done(encode_single(e, max)->Wrote_2.len(), seq![e]),
{
    let bytes = encode_single(e, max)->Wrote_2;
    let data = bytes + rest;
    if let MwEvV::TileKind { pos, kind } = e {
            lemma_pos_roundtrip(pos);
            assert(data[0] == 0x70 + kind.code() && data[1] == pos.0 as u8 && data[2] == pos.1 as u8);
    }
}

/// An event that stands alone in its message comes back from it.
proof fn lemma_single_roundtrip(e: MwEvV, max: nat, rest: Seq<u8>)
    requires
        !(e is Player || e is TileOwner || e is Explode || e is DigitCapture),
        bin_roundtrips(e),
        encode_single(e, max) matches BinEncoded::Wrote(n, _, bytes) && n > 0,
    ensures
        bin_decode(encode_single(e, max)->Wrote_2 + rest) == BinDecoded::Done(encode_single(e, max)->Wrote_2.len(), seq![e]),
{
    match e {
        MwEvV::Debug(..) => lemma_roundtrip_debug(e, max, rest),
        MwEvV::Tremor => lemma_roundtrip_tremor(e, max, rest),
        MwEvV::Smoke { .. } => lemma_roundtrip_smoke(e, max, rest),
        MwEvV::Unsmoke { .. } => lemma_roundtrip_unsmoke(e, max, rest),
        MwEvV::CitMoney { .. } => lemma_roundtrip_cit_money(e, max, rest),
        MwEvV::CitMoneyTransact { .. } => lemma_roundtrip_cit_money_transact(e, max, rest),
        MwEvV::CitRes { .. } => lemma_roundtrip_cit_res(e, max, rest),
        MwEvV::CitTradeInfo { .. } => lemma_roundtrip_cit_trade_info(e, max, rest),
        MwEvV::Flag { .. } => lemma_roundtrip_flag(e, max, rest),
        MwEvV::StructureGone { .. } => lemma_roundtrip_structure_gone(e, max, rest),
        MwEvV::StructureHp { .. } => lemma_roundtrip_structure_hp(e, max, rest),
        MwEvV::BuildNew { .. } => lemma_roundtrip_build_new(e, max, rest),
        MwEvV::Construction { .. } => lemma_roundtrip_construction(e, max, rest),
        MwEvV::RevealStructure { .. } => lemma_roundtrip_reveal_structure(e, max, rest),
        MwEvV::RevealItem { .. } => lemma_roundtrip_reveal_item(e, max, rest),
        MwEvV::TileKind { .. } => lemma_roundtrip_tile_kind(e, max, rest),
        _ => {},
    }
}

proof fn lemma_player_byte(a: u8, b: u8)
    requires
        a < 16,
        b < 16,
    ensures
        ((a + 16 * b) as u8) & 0x0Fu8 == a,
        (((a + 16 * b) as u8) & 0xF0u8) >> 4u8 == b,
{
    assert(((a + 16 * b) as u8) & 0x0Fu8 == a) by (bit_vector)
        requires a < 16, b < 16;
    assert((((a + 16 * b) as u8) & 0xF0u8) >> 4u8 == b) by (bit_vector)
        requires a < 16, b < 16;
}

/// A text field that fits whole comes back from the bytes that follow `pre`.
proof fn lemma_text_roundtrip(t: Seq<char>, pre: Seq<u8>, rest: Seq<u8>)
    requires
        encode_utf8(t).len() <= 255,
    ensures
        text_len(t) == encode_utf8(t).len(),
        text_field(t).len() == 1 + encode_utf8(t).len(),
        (pre + text_field(t) + rest)[pre.len() as int] == encode_utf8(t).len(),
        (pre + text_field(t) + rest).subrange(pre.len() + 1int, pre.len() + 1int + encode_utf8(t).len()) == encode_utf8(t),
        valid_utf8(encode_utf8(t)),
        decode_utf8(encode_utf8(t)) == t,
{
    let data = pre + text_field(t) + rest;
    assert(data.subrange(pre.len() + 1int, pre.len() + 1int + encode_utf8(t).len()) =~= encode_utf8(t));
    encode_utf8_valid_utf8(t);
    encode_utf8_decode_utf8(t);
}

/// A player event comes back from its message.
proof fn lemma_player_roundtrip(plid: PlayerId, subplid: Option<u8>, ev: PlayerEvV, max: nat, rest: Seq<u8>)
    requires
        bin_roundtrips(MwEvV::Player { plid, subplid, ev }),
        encode_player(plid, subplid, ev, max) matches BinEncoded::Wrote(n, _, bytes) && n > 0,
    ensures
        bin_decode(encode_player(plid, subplid, ev, max)->Wrote_2 + rest)
            == BinDecoded::Done(encode_player(plid, subplid, ev, max)->Wrote_2.len(), seq![MwEvV::Player { plid, subplid, ev }]),
{
    let bytes = encode_player(plid, subplid, ev, max)->Wrote_2;
    let data = bytes + rest;
    let pre = seq![0u8, player_byte(plid, subplid), player_status(ev).0];
    let sub: u8 = match subplid { Some(x) => x, None => 15 };
    lemma_player_byte(plid.value(), sub);
    lemma_plid_roundtrip(plid);
    assert(player_byte(plid, subplid) == (plid.value() + 16 * sub) as u8);
    assert(data[0] == 0 && data[1] == player_byte(plid, subplid) && data[2] == player_status(ev).0);
    match ev {
        PlayerEvV::Joined { name } => {
            lemma_text_roundtrip(name, pre, rest);
            assert(data =~= pre + text_field(name) + rest);
        },
        PlayerEvV::ChatAll { text } => {
            lemma_text_roundtrip(text, pre, rest);
            assert(data =~= pre + text_field(text) + rest);
        },
        PlayerEvV::ChatFriendly { text } => {
            lemma_text_roundtrip(text, pre, rest);
            assert(data =~= pre + text_field(text) + rest);
        },
        PlayerEvV::VoteNew { id, l10nkey } => {
            lemma_text_roundtrip(l10nkey, pre.push(id), rest);
            assert(data =~= pre.push(id) + text_field(l10nkey) + rest);
            assert(data[3] == id);
        },
        PlayerEvV::Exploded { pos, killer } => {
            lemma_pos_roundtrip(pos);
            lemma_plid_roundtrip(killer);
            assert(data[3] == pos.0 as u8 && data[4] == pos.1 as u8 && data[5] == killer.value());
        },
        PlayerEvV::MatchTimeRemain { secs } => {
            lemma_be16_roundtrip(secs);
            assert(data[3] == (secs / 256) as u8 && data[4] == (secs % 256) as u8);
        },
        PlayerEvV::NetRttInfo { duration } => {
            assert(data[3] == duration.0);
        },
        PlayerEvV::Timeout { duration } => {
            assert(data[3] == duration.0);
        },
        PlayerEvV::LivesRemain { lives } => {
            assert(data[3] == lives);
        },
        PlayerEvV::VoteNo { id } => {
            assert(data[3] == id);
        },
        PlayerEvV::VoteYes { id } => {
            assert(data[3] == id);
        },
        PlayerEvV::VoteFail { id } => {
            assert(data[3] == id);
        },
        PlayerEvV::VotePass { id } => {
            assert(data[3] == id);
        },
        _ => {},
    }
}

proof fn lemma_owner_run(msgs: Seq<MwEvV>, plid: PlayerId, max: nat, k: nat)
    requires
        k <= 7,
        k < msgs.len(),
    ensures
        k <= owner_run(msgs, plid, max, k) <= 7,
        owner_run(msgs, plid, max, k) < msgs.len(),
        forall|i: int| k < i <= owner_run(msgs, plid, max, k)
            ==> (#[trigger] msgs[i] matches MwEvV::TileOwner { plid: p2, .. } && p2 == plid),
    decreases 7 - k,
{
    if k < 7 && k + 1 < msgs.len() && (msgs[k + 1int] matches MwEvV::TileOwner { plid: p2, .. } && p2 == plid) && 3 + 2 * k + 2 <= max {
        lemma_owner_run(msgs, plid, max, k + 1);
    }
}

proof fn lemma_explode_run(msgs: Seq<MwEvV>, max: nat, k: nat)
    requires
        k <= 15,
        k < msgs.len(),
    ensures
        k <= explode_run(msgs, max, k) <= 15,
        explode_run(msgs, max, k) < msgs.len(),
        forall|i: int| k < i <= explode_run(msgs, max, k) ==> #[trigger] msgs[i] is Explode,
    decreases 15 - k,
{
    if k < 15 && k + 1 < msgs.len() && msgs[k + 1int] is Explode && 3 + 2 * k + 2 <= max {
        lemma_explode_run(msgs, max, k + 1);
    }
}

proof fn lemma_owner_byte(r: u8, v: u8)
    requires
        r < 8,
        1 <= v < 16,
    ensures
        ((0x80 + 16 * r + v) as u8) >= 0x80,
        (((0x80 + 16 * r + v) as u8) & 0x70u8) >> 4u8 == r,
        ((0x80 + 16 * r + v) as u8) & 0x0Fu8 == v,
{
    assert(((0x80 + 16 * r + v) as u8) >= 0x80) by (bit_vector)
        requires r < 8, v < 16;
    assert((((0x80 + 16 * r + v) as u8) & 0x70u8) >> 4u8 == r) by (bit_vector)
        requires r < 8, v < 16;
    assert(((0x80 + 16 * r + v) as u8) & 0x0Fu8 == v) by (bit_vector)
        requires r < 8, v < 16;
}

/// A run of tile-owner events comes back from its message.
proof fn lemma_owner_roundtrip(msgs: Seq<MwEvV>, max: nat, rest: Seq<u8>)
    requires
        msgs.len() > 0,
        msgs[0] is TileOwner,
        bin_roundtrips(msgs[0]),
        max >= 3,
    ensures
        ({
            let plid = msgs[0]->TileOwner_plid;
            let k = owner_run(msgs, plid, max, 0);
            let bytes = seq![(0x80 + 16 * k + plid.value() % 16) as u8] + run_pos_bytes(msgs, k + 1);
            bin_decode(bytes + rest) == BinDecoded::Done(bytes.len(), msgs.subrange(0, k + 1int))
        }),
{
    let plid = msgs[0]->TileOwner_plid;
    let k = owner_run(msgs, plid, max, 0);
    lemma_owner_run(msgs, plid, max, 0);
    let b0 = (0x80 + 16 * k + plid.value() % 16) as u8;
    let bytes = seq![b0] + run_pos_bytes(msgs, k + 1);
    let data = bytes + rest;
    lemma_owner_byte(k as u8, plid.value());
    lemma_plid_roundtrip(plid);
    assert(data[0] == b0);
    let n = k + 1;
    assert forall|i: int| 0 <= i < n implies (MwEvV::TileOwner { pos: pos_of_bytes(data[1 + 2 * i], data[2 + 2 * i]), plid }) == #[trigger] msgs[i] by {
        assert(msgs[i] matches MwEvV::TileOwner { plid: p2, .. } && p2 == plid);
        let pos = ev_pos(msgs[i]);
        lemma_pos_roundtrip(pos);
        assert(data[1 + 2 * i] == run_pos_bytes(msgs, n)[2 * i]);
        assert(data[2 + 2 * i] == run_pos_bytes(msgs, n)[2 * i + 1]);
    }
    assert(Seq::new(n as nat, |i: int| MwEvV::TileOwner { pos: pos_of_bytes(data[1 + 2 * i], data[2 + 2 * i]), plid }) =~= msgs.subrange(0, n as int));
}

/// A run of explosions comes back from its message.
proof fn lemma_explode_roundtrip(msgs: Seq<MwEvV>, max: nat, rest: Seq<u8>)
    requires
        msgs.len() > 0,
        msgs[0] is Explode,
        max >= 3,
    ensures
        ({
            let k = explode_run(msgs, max, 0);
            let bytes = seq![(0x30 + k) as u8] + run_pos_bytes(msgs, k + 1);
            bin_decode(bytes + rest) == BinDecoded::Done(bytes.len(), msgs.subrange(0, k + 1int))
        }),
{
    let k = explode_run(msgs, max, 0);
    lemma_explode_run(msgs, max, 0);
    let b0 = (0x30 + k) as u8;
    let bytes = seq![b0] + run_pos_bytes(msgs, k + 1);
    let data = bytes + rest;
    assert(data[0] == b0);
    let n = k + 1;
    assert forall|i: int| 0 <= i < n implies (MwEvV::Explode { pos: pos_of_bytes(data[1 + 2 * i], data[2 + 2 * i]) }) == #[trigger] msgs[i] by {
        assert(msgs[i] is Explode);
        let pos = ev_pos(msgs[i]);
        lemma_pos_roundtrip(pos);
        assert(data[1 + 2 * i] == run_pos_bytes(msgs, n)[2 * i]);
        assert(data[2 + 2 * i] == run_pos_bytes(msgs, n)[2 * i + 1]);
    }
    assert(Seq::new(n as nat, |i: int| MwEvV::Explode { pos: pos_of_bytes(data[1 + 2 * i], data[2 + 2 * i]) }) =~= msgs.subrange(0, n as int));
}

/// A digit event that is not packed with others comes back from its message.
proof fn lemma_digit_roundtrip(pos: Pos, digit: u8, asterisk: bool, rest: Seq<u8>)
    requires
        digit < 8,
    ensures
        ({
            let bytes = seq![(0x60 + digit_nibble(digit, asterisk)) as u8] + pos_bytes(pos);
            bin_decode(bytes + rest) == BinDecoded::Done(3, seq![MwEvV::DigitCapture { pos, digit, asterisk }])
        }),
{
    let b0 = (0x60 + digit_nibble(digit, asterisk)) as u8;
    let data = seq![b0] + pos_bytes(pos) + rest;
    lemma_pos_roundtrip(pos);
    assert(data[0] == b0 && data[1] == pos.0 as u8 && data[2] == pos.1 as u8);
}

/// Decoding gives back what encoding wrote: the message that `write` puts
/// in front of any further bytes decodes, with `read`, to the events that
/// `write` took, and takes exactly the bytes written. This holds when each
/// of those events survives the encoding (see `bin_roundtrips`) and the
/// message is not a packed run of several digit events, whose packed
/// digits the decoder does not read back in the order they were written.
pub proof fn lemma_bin_roundtrip(msgs: Seq<MwEvV>, max: nat, rest: Seq<u8>)
    requires
        bin_encode(msgs, max) is Wrote,
        bin_encode(msgs, max)->Wrote_0 > 0,
        forall|i: int| 0 <= i < bin_encode(msgs, max)->Wrote_0 ==> bin_roundtrips(#[trigger] msgs[i]),
        !(msgs[0] is DigitCapture && bin_encode(msgs, max)->Wrote_0 > 1),
    ensures
        bin_decode(bin_encode(msgs, max)->Wrote_2 + rest)
            == BinDecoded::Done(bin_encode(msgs, max)->Wrote_2.len(), msgs.subrange(0, bin_encode(msgs, max)->Wrote_0 as int)),
{
    reveal(bin_encode);
    let n = bin_encode(msgs, max)->Wrote_0;
    assert(bin_roundtrips(msgs[0]));
    match msgs[0] {
        MwEvV::Player { plid, subplid, ev } => {
            lemma_player_roundtrip(plid, subplid, ev, max, rest);
            assert(msgs.subrange(0, 1) =~= seq![msgs[0]]);
        },
        MwEvV::TileOwner { .. } => {
            lemma_owner_roundtrip(msgs, max, rest);
        },
        MwEvV::Explode { .. } => {
            lemma_explode_roundtrip(msgs, max, rest);
        },
        MwEvV::DigitCapture { pos, digit, asterisk } => {
            lemma_digit_roundtrip(pos, digit, asterisk, rest);
            assert(msgs.subrange(0, 1) =~= seq![msgs[0]]);
        },
        _ => {
            lemma_single_roundtrip(msgs[0], max, rest);
            assert(msgs.subrange(0, 1) =~= seq![msgs[0]]);
        },
    }
}

proof fn lemma_owner_run_fits(msgs: Seq<MwEvV>, plid: PlayerId, max: nat, k: nat)
    requires
        3 + 2 * k <= max,
    ensures
        3 + 2 * owner_run(msgs, plid, max, k) <= max,
    decreases 7 - k,
{
    if k < 7 && k + 1 < msgs.len() && (msgs[k + 1int] matches MwEvV::TileOwner { plid: p2, .. } && p2 == plid) && 3 + 2 * k + 2 <= max {
        lemma_owner_run_fits(msgs, plid, max, k + 1);
    }
}

proof fn lemma_explode_run_fits(msgs: Seq<MwEvV>, max: nat, k: nat)
    requires
        3 + 2 * k <= max,
    ensures
        3 + 2 * explode_run(msgs, max, k) <= max,
    decreases 15 - k,
{
    if k < 15 && k + 1 < msgs.len() && msgs[k + 1int] is Explode && 3 + 2 * k + 2 <= max {
        lemma_explode_run_fits(msgs, max, k + 1);
    }
}

proof fn lemma_digit_run(msgs: Seq<MwEvV>, max: nat, k: nat)
    requires
        k <= 7,
        k < msgs.len(),
        k > 0 ==> digit_msg_len(k) <= max,
    ensures
        k <= digit_run(msgs, max, k) <= 7,
        digit_run(msgs, max, k) < msgs.len(),
        digit_run(msgs, max, k) > 0 ==> digit_msg_len(digit_run(msgs, max, k)) <= max,
    decreases 7 - k,
{
    if k < 7 && k + 1 < msgs.len() && msgs[k + 1int] is DigitCapture && digit_msg_len(k) + 2 + k % 2 <= max {
        assert(digit_msg_len(k + 1) == digit_msg_len(k) + 2 + k % 2);
        lemma_digit_run(msgs, max, k + 1);
    }
}

/// An encoded message never takes more events than it is given, reports no
/// more bytes than allowed, and takes no event only when it writes nothing.
pub proof fn lemma_bin_encode_bounds(msgs: Seq<MwEvV>, max: nat)
    ensures
        bin_encode(msgs, max) matches BinEncoded::Wrote(n, nb, bytes) ==> {
            &&& n <= msgs.len()
            &&& nb <= max
            &&& (n == 0 ==> nb == 0 && bytes.len() == 0)
        },
{
    reveal(bin_encode);
    if max > 0 && msgs.len() > 0 {
        match msgs[0] {
            MwEvV::TileOwner { plid, .. } => {
                if max >= 3 {
                    lemma_owner_run(msgs, plid, max, 0);
                    lemma_owner_run_fits(msgs, plid, max, 0);
                }
            },
            MwEvV::Explode { .. } => {
                if max >= 3 {
                    lemma_explode_run(msgs, max, 0);
                    lemma_explode_run_fits(msgs, max, 0);
                }
            },
            MwEvV::DigitCapture { .. } => {
                lemma_digit_run(msgs, max, 0);
            },
            _ => {},
        }
    }
}

/// A player event's message is as long as the size it reports.
proof fn lemma_player_size(plid: PlayerId, subplid: Option<u8>, ev: PlayerEvV, max: nat)
    ensures
        encode_player(plid, subplid, ev, max) matches BinEncoded::Wrote(_, nb, bytes) ==> nb == bytes.len(),
{
    let tl = player_text_len(ev);
    match ev {
        PlayerEvV::Joined { name } => lemma_text_len_le(name),
        PlayerEvV::ChatAll { text } => lemma_text_len_le(text),
        PlayerEvV::ChatFriendly { text } => lemma_text_len_le(text),
        PlayerEvV::VoteNew { l10nkey, .. } => lemma_text_len_le(l10nkey),
        _ => {},
    }
}

/// An event that stands alone writes as many bytes as it reports.
proof fn lemma_single_size(e: MwEvV, max: nat)
    ensures
        encode_single(e, max) matches BinEncoded::Wrote(_, nb, bytes) ==> nb == bytes.len(),
{
}

/// The size that an encoded message reports is the number of bytes it
/// writes.
pub proof fn lemma_bin_encode_size(msgs: Seq<MwEvV>, max: nat)
    ensures
        bin_encode(msgs, max) matches BinEncoded::Wrote(_, nb, bytes) ==> nb == bytes.len(),
{
    reveal(bin_encode);
    if max > 0 && msgs.len() > 0 {
        match msgs[0] {
            MwEvV::Player { plid, subplid, ev } => lemma_player_size(plid, subplid, ev, max),
            MwEvV::TileOwner { .. } => {},
            MwEvV::Explode { .. } => {},
            MwEvV::DigitCapture { .. } => {},
            _ => lemma_single_size(msgs[0], max),
        }
    }
}

/// Decoding a message from non-empty input takes at least one byte and one
/// event, and no more bytes than there are.
pub proof fn lemma_bin_decode_bounds(data: Seq<u8>)
    ensures
        bin_decode(data) matches BinDecoded::Done(n, evs) ==> {
            &&& n <= data.len()
            &&& (data.len() > 0 ==> n >= 1 && evs.len() >= 1)
        },
{
}


/// An item reveal is written as one 3-byte message whose first byte is
/// 0x10 plus the item kind's place in the declaration of `ItemKind` (safe
/// 0x10, mine 0x11, decoy 0x12, trap 0x13), then the position; and a first
/// byte of 0x10 to 0x13 reads back as the kind declared at that place.
pub proof fn lemma_bin_item_reveal_bytes(i: int, pos: Pos, max: nat, y: u8, x: u8, rest: Seq<u8>)
    requires
        0 <= i < 4,
        max >= 3,
    ensures
        bin_encode(seq![MwEvV::RevealItem { pos, item: item_kinds_declared()[i] }], max)
            == BinEncoded::Wrote(1, 3, seq![(0x10 + i) as u8, pos.0 as u8, pos.1 as u8]),
        bin_decode(seq![(0x10 + i) as u8, y, x] + rest)
            == BinDecoded::Done(3, seq![MwEvV::RevealItem { pos: pos_of_bytes(y, x), item: item_kinds_declared()[i] }]),
{
    reveal(bin_encode);
    lemma_item_kind_code_is_declaration_index();
    let item = item_kinds_declared()[i];
    assert(item.code() == i);
    let data = seq![(0x10 + i) as u8, y, x] + rest;
    assert(data[0] == 0x10 + i && data[1] == y && data[2] == x);
    assert(data[0] % 16 == i);
    let e = MwEvV::RevealItem { pos, item };
    let msgs = seq![e];
    assert(msgs[0] == e);
    assert((0x10 + item.code()) as u8 == (0x10 + i) as u8);
    assert(seq![(0x10 + item.code()) as u8] + pos_bytes(pos) =~= seq![(0x10 + i) as u8, pos.0 as u8, pos.1 as u8]);
    assert(encode_single(e, max) == BinEncoded::Wrote(1, 3, seq![(0x10 + i) as u8, pos.0 as u8, pos.1 as u8]));
    assert(bin_encode(msgs, max) == encode_single(e, max));
}

} // verus!
