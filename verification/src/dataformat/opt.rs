//! State and outcome of optimization passes over message sequences.

use vstd::prelude::*;
use crate::plid::PlayerId;
use crate::grid::pos::Pos;
use crate::msg::repr::{Msg, MsgPlayer};

verus! {

/// State kept between optimization passes. It holds nothing yet.
#[derive(Debug, Clone, Copy, PartialEq, Eq, Structural)]
pub struct OptimizerState {}

impl Default for OptimizerState {
    fn default() -> (r: Self)
        ensures
            r == (OptimizerState {}),
    {
        OptimizerState {}
    }
}

/// Output from an optimization pass.
#[derive(Debug, Clone, Copy, PartialEq, Eq, Structural)]
pub enum OptimizerResult {
    /// Further runs will not optimize things further; proceed to encoding.
    Good,
    /// Further runs might optimize things further; run again if you want to try.
    Dirty,
    /// The data is bad/invalid, the input sequence is malformed. Data is now clobbered.
    Bad,
}

/// A player id as a number below 512 that tells every id apart: 0 for the
/// spectator view, `n + 1` for player `n`.
pub open spec fn plid_key(p: PlayerId) -> int {
    match p {
        PlayerId::Neutral => 0,
        PlayerId::Player(n) => n + 1,
    }
}

/// A position as a number below 65536.
pub open spec fn pos_key(p: Pos) -> int {
    (p.0 + 128) * 256 + (p.1 + 128)
}

/// The rank of a player status message, in the order of its variants.
pub open spec fn status_rank(s: MsgPlayer) -> int {
    match s {
        MsgPlayer::Joined => 0,
        MsgPlayer::NetRttInfo { .. } => 1,
        MsgPlayer::Timeout { .. } => 2,
        MsgPlayer::TimeoutFinished => 3,
        MsgPlayer::Exploded { .. } => 4,
        MsgPlayer::LivesRemain { .. } => 5,
        MsgPlayer::Protected => 6,
        MsgPlayer::Unprotected => 7,
        MsgPlayer::Eliminated => 8,
        MsgPlayer::Surrendered => 9,
        MsgPlayer::Disconnected => 10,
        MsgPlayer::Kicked => 11,
        MsgPlayer::MatchTimeRemain { .. } => 12,
    }
}

/// The fields of a player status message as a number below 2^25.
pub open spec fn status_fields(s: MsgPlayer) -> int {
    match s {
        MsgPlayer::NetRttInfo { duration } => duration.0 as int,
        MsgPlayer::Timeout { duration } => duration.0 as int,
        MsgPlayer::Exploded { pos, killer } => pos_key(pos) * 512 + plid_key(killer),
        MsgPlayer::LivesRemain { lives } => lives as int,
        MsgPlayer::MatchTimeRemain { secs } => secs as int,
        _ => 0,
    }
}

/// The rank of a message in the order of the optimizer: by kind, in the
/// order of the variants, with no-ops last.
pub open spec fn msg_rank(m: Msg) -> int {
    match m {
        Msg::Player { .. } => 0,
        Msg::Tremor => 1,
        Msg::Smoke { .. } => 2,
        Msg::Unsmoke { .. } => 3,
        Msg::CitMoney { .. } => 4,
        Msg::CitIncome { .. } => 5,
        Msg::CitMoneyTransact { .. } => 6,
        Msg::CitRes { .. } => 7,
        Msg::CitTradeInfo { .. } => 8,
        Msg::Flag { .. } => 9,
        Msg::StructureGone { .. } => 10,
        Msg::StructureHp { .. } => 11,
        Msg::Explode { .. } => 12,
        Msg::BuildNew { .. } => 13,
        Msg::Construction { .. } => 14,
        Msg::RevealStructure { .. } => 15,
        Msg::DigitCapture { .. } => 16,
        Msg::RevealItem { .. } => 17,
        Msg::TileKind { .. } => 18,
        Msg::TileOwner { .. } => 19,
        Msg::Nop => 20,
    }
}

/// The fields of a message as one number, the first field most
/// significant, which tells apart the messages of one kind.
pub open spec fn msg_fields(m: Msg) -> int {
    match m {
        Msg::Player { plid, subplid, status } =>
            ((plid_key(plid) * 512 + match subplid { None => 0int, Some(x) => x + 1 }) * 16 + status_rank(status))
                * 0x2000000 + status_fields(status),
        Msg::Smoke { pos } => pos_key(pos),
        Msg::Unsmoke { pos } => pos_key(pos),
        Msg::CitMoney { cit, money } => cit * 0x100000000 + money,
        Msg::CitIncome { cit, money, income } => (cit * 0x100000000 + money) * 65536 + income,
        Msg::CitMoneyTransact { cit, amount } => cit * 65536 + (amount + 32768),
        Msg::CitRes { cit, res } => cit * 65536 + res,
        Msg::CitTradeInfo { cit, export, import } => (cit * 256 + export) * 256 + import,
        Msg::Flag { plid, pos } => plid_key(plid) * 65536 + pos_key(pos),
        Msg::StructureGone { pos } => pos_key(pos),
        Msg::StructureHp { pos, hp } => pos_key(pos) * 256 + hp,
        Msg::Explode { pos } => pos_key(pos),
        Msg::BuildNew { pos, kind, pts } => (pos_key(pos) * 4 + kind.code()) * 65536 + pts,
        Msg::Construction { pos, current, rate } => (pos_key(pos) * 65536 + current) * 65536 + rate,
        Msg::RevealStructure { pos, kind } => pos_key(pos) * 4 + kind.code(),
        Msg::DigitCapture { pos, digit, asterisk } => (pos_key(pos) * 256 + digit) * 2 + if asterisk { 1int } else { 0int },
        Msg::RevealItem { pos, item } => pos_key(pos) * 4 + item.code(),
        Msg::TileKind { pos, kind } => pos_key(pos) * 8 + kind.code(),
        Msg::TileOwner { pos, plid } => pos_key(pos) * 512 + plid_key(plid),
        _ => 0,
    }
}

/// `a` comes before `b` in the optimizer's order.
pub open spec fn msg_before(a: Msg, b: Msg) -> bool {
    msg_rank(a) < msg_rank(b) || (msg_rank(a) == msg_rank(b) && msg_fields(a) < msg_fields(b))
}

/// Different player ids have different keys.
proof fn lemma_plid_key(a: PlayerId, b: PlayerId)
    ensures
        0 <= plid_key(a) < 512,
        plid_key(a) == plid_key(b) ==> a == b,
{
}

/// Different positions have different keys.
proof fn lemma_pos_key(a: Pos, b: Pos)
    ensures
        0 <= pos_key(a) < 65536,
        pos_key(a) == pos_key(b) ==> a == b,
{
}

/// Different player status messages have different rank and fields.
proof fn lemma_status_key(a: MsgPlayer, b: MsgPlayer)
    ensures
        0 <= status_rank(a) < 16,
        0 <= status_fields(a) < 0x2000000,
        status_rank(a) == status_rank(b) && status_fields(a) == status_fields(b) ==> a == b,
{
    match (a, b) {
        (MsgPlayer::Exploded { pos: p1, killer: k1 }, MsgPlayer::Exploded { pos: p2, killer: k2 }) => {
            lemma_pos_key(p1, p2);
            lemma_plid_key(k1, k2);
            lemma_plid_key(k2, k1);
            lemma_pos_key(p2, p1);
        },
        (MsgPlayer::Exploded { pos: p1, killer: k1 }, _) => {
            lemma_pos_key(p1, p1);
            lemma_plid_key(k1, k1);
        },
        _ => {},
    }
}

/// Messages with the same rank and fields are the same message: the
/// optimizer's order is total.
pub proof fn lemma_msg_key_injective(a: Msg, b: Msg)
    ensures
        msg_rank(a) == msg_rank(b) && msg_fields(a) == msg_fields(b) ==> a == b,
{
    if msg_rank(a) == msg_rank(b) && msg_fields(a) == msg_fields(b) {
        match (a, b) {
            (Msg::Player { plid: p1, subplid: s1, status: t1 }, Msg::Player { plid: p2, subplid: s2, status: t2 }) => {
                lemma_plid_key(p1, p2);
                lemma_plid_key(p2, p1);
                lemma_status_key(t1, t2);
                lemma_status_key(t2, t1);
                let u1: int = match s1 { None => 0int, Some(x) => x + 1 };
                let u2: int = match s2 { None => 0int, Some(x) => x + 1 };
                let h1 = (plid_key(p1) * 512 + u1) * 16 + status_rank(t1);
                let h2 = (plid_key(p2) * 512 + u2) * 16 + status_rank(t2);
                assert(h1 * 0x2000000 + status_fields(t1) == h2 * 0x2000000 + status_fields(t2));
                assert(h1 == h2) by (nonlinear_arith)
                    requires
                        h1 * 0x2000000 + status_fields(t1) == h2 * 0x2000000 + status_fields(t2),
                        0 <= status_fields(t1) < 0x2000000,
                        0 <= status_fields(t2) < 0x2000000;
            },
            (Msg::Flag { plid: p1, pos: q1 }, Msg::Flag { plid: p2, pos: q2 }) => {
                lemma_plid_key(p1, p2);
                lemma_pos_key(q1, q2);
                lemma_pos_key(q2, q1);
            },
            (Msg::TileOwner { plid: p1, pos: q1 }, Msg::TileOwner { plid: p2, pos: q2 }) => {
                lemma_plid_key(p1, p2);
                lemma_plid_key(p2, p1);
                lemma_pos_key(q1, q2);
            },
            (Msg::Smoke { pos: q1 }, Msg::Smoke { pos: q2 }) => lemma_pos_key(q1, q2),
            (Msg::Unsmoke { pos: q1 }, Msg::Unsmoke { pos: q2 }) => lemma_pos_key(q1, q2),
            (Msg::StructureGone { pos: q1 }, Msg::StructureGone { pos: q2 }) => lemma_pos_key(q1, q2),
            (Msg::Explode { pos: q1 }, Msg::Explode { pos: q2 }) => lemma_pos_key(q1, q2),
            (Msg::StructureHp { pos: q1, .. }, Msg::StructureHp { pos: q2, .. }) => lemma_pos_key(q1, q2),
            (Msg::BuildNew { pos: q1, .. }, Msg::BuildNew { pos: q2, .. }) => lemma_pos_key(q1, q2),
            (Msg::Construction { pos: q1, .. }, Msg::Construction { pos: q2, .. }) => lemma_pos_key(q1, q2),
            (Msg::RevealStructure { pos: q1, .. }, Msg::RevealStructure { pos: q2, .. }) => lemma_pos_key(q1, q2),
            (Msg::DigitCapture { pos: q1, .. }, Msg::DigitCapture { pos: q2, .. }) => lemma_pos_key(q1, q2),
            (Msg::RevealItem { pos: q1, .. }, Msg::RevealItem { pos: q2, .. }) => lemma_pos_key(q1, q2),
            (Msg::TileKind { pos: q1, .. }, Msg::TileKind { pos: q2, .. }) => lemma_pos_key(q1, q2),
            _ => {},
        }
    }
}

fn plid_key_exec(p: PlayerId) -> (r: u64)
    ensures
        r == plid_key(p),
{
    match p {
        PlayerId::Neutral => 0,
        PlayerId::Player(n) => n as u64 + 1,
    }
}

fn pos_key_exec(p: Pos) -> (r: u64)
    ensures
        r == pos_key(p),
{
    ((p.0 as i64 + 128) * 256 + (p.1 as i64 + 128)) as u64
}

/// The rank and fields of a message (see `msg_rank`, `msg_fields`).
fn msg_key(m: &Msg) -> (r: (u8, u64))
    ensures
        r.0 == msg_rank(*m),
        r.1 == msg_fields(*m),
{
    match m {
        Msg::Player { plid, subplid, status } => {
            let sub: u64 = match subplid {
                None => 0,
                Some(x) => *x as u64 + 1,
            };
            let (sr, sf): (u64, u64) = match status {
                MsgPlayer::Joined => (0, 0),
                MsgPlayer::NetRttInfo { duration } => (1, duration.0 as u64),
                MsgPlayer::Timeout { duration } => (2, duration.0 as u64),
                MsgPlayer::TimeoutFinished => (3, 0),
                MsgPlayer::Exploded { pos, killer } => (4, pos_key_exec(*pos) * 512 + plid_key_exec(*killer)),
                MsgPlayer::LivesRemain { lives } => (5, *lives as u64),
                MsgPlayer::Protected => (6, 0),
                MsgPlayer::Unprotected => (7, 0),
                MsgPlayer::Eliminated => (8, 0),
                MsgPlayer::Surrendered => (9, 0),
                MsgPlayer::Disconnected => (10, 0),
                MsgPlayer::Kicked => (11, 0),
                MsgPlayer::MatchTimeRemain { secs } => (12, *secs as u64),
            };
            (0, ((plid_key_exec(*plid) * 512 + sub) * 16 + sr) * 0x2000000 + sf)
        },
        Msg::Tremor => (1, 0),
        Msg::Smoke { pos } => (2, pos_key_exec(*pos)),
        Msg::Unsmoke { pos } => (3, pos_key_exec(*pos)),
        Msg::CitMoney { cit, money } => (4, *cit as u64 * 0x100000000 + *money as u64),
        Msg::CitIncome { cit, money, income } => (5, (*cit as u64 * 0x100000000 + *money as u64) * 65536 + *income as u64),
        Msg::CitMoneyTransact { cit, amount } => (6, *cit as u64 * 65536 + (*amount as i64 + 32768) as u64),
        Msg::CitRes { cit, res } => (7, *cit as u64 * 65536 + *res as u64),
        Msg::CitTradeInfo { cit, export, import } => (8, (*cit as u64 * 256 + *export as u64) * 256 + *import as u64),
        Msg::Flag { plid, pos } => (9, plid_key_exec(*plid) * 65536 + pos_key_exec(*pos)),
        Msg::StructureGone { pos } => (10, pos_key_exec(*pos)),
        Msg::StructureHp { pos, hp } => (11, pos_key_exec(*pos) * 256 + *hp as u64),
        Msg::Explode { pos } => (12, pos_key_exec(*pos)),
        Msg::BuildNew { pos, kind, pts } => (13, (pos_key_exec(*pos) * 4 + kind.to_u8() as u64) * 65536 + *pts as u64),
        Msg::Construction { pos, current, rate } => (14, (pos_key_exec(*pos) * 65536 + *current as u64) * 65536 + *rate as u64),
        Msg::RevealStructure { pos, kind } => (15, pos_key_exec(*pos) * 4 + kind.to_u8() as u64),
        Msg::DigitCapture { pos, digit, asterisk } => (16, (pos_key_exec(*pos) * 256 + *digit as u64) * 2 + if *asterisk { 1 } else { 0 }),
        Msg::RevealItem { pos, item } => (17, pos_key_exec(*pos) * 4 + item.to_u8() as u64),
        Msg::TileKind { pos, kind } => (18, pos_key_exec(*pos) * 8 + kind.to_u8() as u64),
        Msg::TileOwner { pos, plid } => (19, pos_key_exec(*pos) * 512 + plid_key_exec(*plid)),
        Msg::Nop => (20, 0),
    }
}

/// Strictly increasing in the optimizer's order (so without repeats).
pub open spec fn msgs_sorted(s: Seq<Msg>) -> bool {
    forall|i: int, j: int| 0 <= i < j < s.len() ==> msg_before(#[trigger] s[i], #[trigger] s[j])
}

/// What the optimizer makes of a sequence: the distinct messages other
/// than no-ops, in the optimizer's order.
pub open spec fn optimized(s: Seq<Msg>) -> Seq<Msg> {
    choose|t: Seq<Msg>| msgs_sorted(t) && t.to_set() == s.to_set().remove(Msg::Nop)
}

/// Two strictly sorted sequences of the same messages are the same.
pub proof fn lemma_sorted_unique(a: Seq<Msg>, b: Seq<Msg>)
    requires
        msgs_sorted(a),
        msgs_sorted(b),
        a.to_set() == b.to_set(),
    ensures
        a == b,
    decreases a.len(),
{
    if a.len() == 0 {
        if b.len() > 0 {
            assert(b.to_set().contains(b[0]));
        }
        assert(a =~= b);
    } else if b.len() == 0 {
        assert(a.to_set().contains(a[0]));
    } else {
        assert(a.to_set().contains(a[0]));
        assert(b.to_set().contains(a[0]));
        let j = choose|j: int| 0 <= j < b.len() && b[j] == a[0];
        assert(b.to_set().contains(b[0]));
        assert(a.to_set().contains(b[0]));
        let k = choose|k: int| 0 <= k < a.len() && a[k] == b[0];
        if j > 0 {
            assert(msg_before(b[0], b[j]));
            if k > 0 {
                assert(msg_before(a[0], a[k]));
            }
            assert(false);
        }
        let a2 = a.drop_first();
        let b2 = b.drop_first();
        assert forall|x: Msg| a2.to_set().contains(x) <==> b2.to_set().contains(x) by {
            if a2.to_set().contains(x) {
                let p = choose|p: int| 0 <= p < a2.len() && a2[p] == x;
                assert(a[p + 1] == x);
                assert(msg_before(a[0], a[p + 1]));
                assert(b.to_set().contains(x));
                let q = choose|q: int| 0 <= q < b.len() && b[q] == x;
                if q == 0 {
                    assert(false);
                }
                assert(b2[q - 1] == x);
            }
            if b2.to_set().contains(x) {
                let p = choose|p: int| 0 <= p < b2.len() && b2[p] == x;
                assert(b[p + 1] == x);
                assert(msg_before(b[0], b[p + 1]));
                assert(a.to_set().contains(x));
                let q = choose|q: int| 0 <= q < a.len() && a[q] == x;
                if q == 0 {
                    assert(false);
                }
                assert(a2[q - 1] == x);
            }
        }
        assert(a2.to_set() =~= b2.to_set());
        assert forall|i: int, jj: int| 0 <= i < jj < a2.len() implies msg_before(#[trigger] a2[i], #[trigger] a2[jj]) by {
            assert(a2[i] == a[i + 1] && a2[jj] == a[jj + 1]);
        }
        assert forall|i: int, jj: int| 0 <= i < jj < b2.len() implies msg_before(#[trigger] b2[i], #[trigger] b2[jj]) by {
            assert(b2[i] == b[i + 1] && b2[jj] == b[jj + 1]);
        }
        lemma_sorted_unique(a2, b2);
        assert(a =~= seq![a[0]] + a2);
        assert(b =~= seq![b[0]] + b2);
    }
}

/// Insert `m` into the strictly sorted `v`, unless it is there already.
fn insert_msg(v: &mut Vec<Msg>, m: Msg)
    requires
        msgs_sorted(old(v)@),
    ensures
        msgs_sorted(final(v)@),
        final(v)@.to_set() == old(v)@.to_set().insert(m),
{
    let (mr, mf) = msg_key(&m);
    let mut i: usize = 0;
    while i < v.len()
        invariant
            0 <= i <= v.len(),
            v@ == old(v)@,
            msgs_sorted(v@),
            mr == msg_rank(m),
            mf == msg_fields(m),
            forall|j: int| 0 <= j < i ==> msg_before(#[trigger] v@[j], m),
        ensures
            0 <= i <= v.len(),
            v@ == old(v)@,
            msgs_sorted(v@),
            forall|j: int| 0 <= j < i ==> msg_before(#[trigger] v@[j], m),
            i < v.len() ==> !msg_before(v@[i as int], m),
        decreases v.len() - i,
    {
        let (r, f) = msg_key(&v[i]);
        if !(r < mr || (r == mr && f < mf)) {
            break;
        }
        i = i + 1;
    }
    if i < v.len() {
        let (r, f) = msg_key(&v[i]);
        if r == mr && f == mf {
            proof {
                lemma_msg_key_injective(v@[i as int], m);
                assert(v@.to_set() =~= v@.to_set().insert(m));
            }
            return;
        }
    }
    let ghost s0 = v@;
    v.insert(i, m);
    proof {
        assert forall|a: int, b: int| 0 <= a < b < v@.len() implies msg_before(#[trigger] v@[a], #[trigger] v@[b]) by {
            if a < i && b == i {
            } else if a == i && b > i {
                assert(v@[b] == s0[b - 1]);
                assert(!msg_before(s0[i as int], m));
                assert(s0[i as int] != m);
                lemma_msg_key_injective(s0[i as int], m);
                if b - 1 > i {
                    assert(msg_before(s0[i as int], s0[b - 1]));
                }
            } else if b < i {
            } else if a < i && b > i {
                assert(v@[b] == s0[b - 1]);
            } else {
                assert(v@[a] == s0[a - 1]);
                assert(v@[b] == s0[b - 1]);
            }
        }
        assert(v@.to_set() =~= s0.to_set().insert(m)) by {
            assert forall|x: Msg| v@.to_set().contains(x) <==> s0.to_set().insert(m).contains(x) by {
                if v@.contains(x) {
                    let j = choose|j: int| 0 <= j < v@.len() && v@[j] == x;
                    if j < i {
                        assert(s0[j] == x);
                    } else if j > i {
                        assert(s0[j - 1] == x);
                    }
                }
                if s0.contains(x) {
                    let j = choose|j: int| 0 <= j < s0.len() && s0[j] == x;
                    if j < i {
                        assert(v@[j] == x);
                    } else {
                        assert(v@[j + 1] == x);
                    }
                }
                if x == m {
                    assert(v@[i as int] == m);
                }
            }
        }
    }
}

/// Performs a lossy optimization pass on a sequence of update messages:
/// it sorts them in the optimizer's order (by kind, no-ops last; see
/// `msg_before`), which brings together what can be merged, drops the
/// no-ops, and removes duplicates. The order matters to the game only within
/// a kind of message, so this is valid for the standard game mode alone.
/// The pass leaves nothing further to do: it reports `Good`.
pub fn optimize_mwseq_lossy(state: &mut OptimizerState, me: PlayerId, sequence: &mut Vec<Msg>) -> (r: OptimizerResult)
    ensures
        r == OptimizerResult::Good,
        msgs_sorted(final(sequence)@),
        final(sequence)@.to_set() == old(sequence)@.to_set().remove(Msg::Nop),
        final(sequence)@ == optimized(old(sequence)@),
        *final(state) == *old(state),
{
    let mut out: Vec<Msg> = Vec::new();
    let mut i: usize = 0;
    proof {
        assert(out@.to_set() =~= sequence@.take(0).to_set().remove(Msg::Nop));
    }
    while i < sequence.len()
        invariant
            0 <= i <= sequence@.len(),
            sequence@ == old(sequence)@,
            msgs_sorted(out@),
            out@.to_set() == sequence@.take(i as int).to_set().remove(Msg::Nop),
        decreases sequence@.len() - i,
    {
        let m = sequence[i];
        let ghost before = out@;
        proof {
            assert(sequence@.take(i + 1) =~= sequence@.take(i as int).push(m));
            sequence@.take(i as int).lemma_push_to_set_commute(m);
        }
        match m {
            Msg::Nop => {
                proof {
                    assert(out@.to_set() =~= sequence@.take(i + 1).to_set().remove(Msg::Nop));
                }
            },
            _ => {
                insert_msg(&mut out, m);
                proof {
                    assert(out@.to_set() =~= sequence@.take(i + 1).to_set().remove(Msg::Nop));
                }
            },
        }
        i = i + 1;
    }
    proof {
        assert(sequence@.take(i as int) =~= sequence@);
    }
    *sequence = out;
    proof {
        let t = optimized(old(sequence)@);
        assert(msgs_sorted(sequence@) && sequence@.to_set() == old(sequence)@.to_set().remove(Msg::Nop));
        lemma_sorted_unique(t, sequence@);
    }
    OptimizerResult::Good
}

} // verus!
