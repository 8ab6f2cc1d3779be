//! Streams of binary messages: encoding many events, decoding all messages.

use vstd::prelude::*;
use vstd::slice::slice_subrange;
use crate::game::event::{MwEv, MwEvV, PlayerEvV};
use super::bin::{bin_decode, BinDecoded, MsgBinRead, MsgBinReadError, MsgBinWrite, MsgBinWriteError};
use super::bin_enc::{bin_encode, BinEncoded, encoded_as, evs_view};
use super::bin_laws::{lemma_bin_encode_bounds, lemma_bin_decode_bounds, lemma_bin_roundtrip, bin_roundtrips};
use super::bin_enc::text_len;
use vstd::utf8::encode_utf8;

verus! {

/// The outcome of encoding a sequence of events as consecutive messages.
pub enum BinEncodedRun {
    /// The number of events taken, the total size reported, the bytes written.
    Done(nat, nat, Seq<u8>),
    /// An event could not be encoded; the bytes written before it.
    Failed(u32, Seq<u8>),
}

/// The outcome of a run that follows `n` events, `nb` reported bytes and
/// the bytes `b` already written.
pub open spec fn after_prefix(n: nat, nb: nat, b: Seq<u8>, r: BinEncodedRun) -> BinEncodedRun {
    match r {
        BinEncodedRun::Done(n2, nb2, b2) => BinEncodedRun::Done(n + n2, nb + nb2, b + b2),
        BinEncodedRun::Failed(v, b2) => BinEncodedRun::Failed(v, b + b2),
    }
}

/// Encode messages one after another while events remain and the last
/// message took at least one event. With `shrink`, each message gets the
/// budget that the sizes reported so far leave of `max`; else each gets `max`.
pub open spec fn bin_encode_run(msgs: Seq<MwEvV>, max: nat, shrink: bool) -> BinEncodedRun
    decreases msgs.len(),
{
    if msgs.len() == 0 {
        BinEncodedRun::Done(0, 0, seq![])
    } else {
        match bin_encode(msgs, max) {
            BinEncoded::Invalid(v) => BinEncodedRun::Failed(v, seq![]),
            BinEncoded::Wrote(n, nb, b) => if n == 0 || n > msgs.len() {
                BinEncodedRun::Done(0, 0, seq![])
            } else {
                after_prefix(n, nb, b, bin_encode_run(msgs.subrange(n as int, msgs.len() as int),
                    if shrink { (max - nb) as nat } else { max }, shrink))
            },
        }
    }
}

/// The effect of a run on the output.
pub open spec fn run_as(enc: BinEncodedRun, before: Seq<u8>, after: Seq<u8>) -> bool {
    match enc {
        BinEncodedRun::Done(_, _, bytes) => after == before + bytes,
        BinEncodedRun::Failed(_, bytes) => after == before + bytes,
    }
}

/// The events that all messages in `data` decode to, and the error that
/// stopped decoding, if any.
pub open spec fn bin_decode_all(data: Seq<u8>) -> (Seq<MwEvV>, Option<MsgBinReadError>)
    decreases data.len(),
{
    match bin_decode(data) {
        BinDecoded::Fail(e) => (seq![], Some(e)),
        BinDecoded::Done(n, evs) => if evs.len() == 0 || n == 0 || n > data.len() {
            (seq![], None)
        } else {
            let rest = bin_decode_all(data.subrange(n as int, data.len() as int));
            (evs + rest.0, rest.1)
        },
    }
}

proof fn lemma_after_prefix_assoc(a: nat, b: nat, w: Seq<u8>, n: nat, nb: nat, bb: Seq<u8>, r: BinEncodedRun)
    ensures
        after_prefix(a, b, w, after_prefix(n, nb, bb, r)) == after_prefix(a + n, b + nb, w + bb, r),
{
    match r {
        BinEncodedRun::Done(_, _, b2) => assert(w + (bb + b2) =~= (w + bb) + b2),
        BinEncodedRun::Failed(_, b2) => assert(w + (bb + b2) =~= (w + bb) + b2),
    }
}

impl MsgBinWrite {
    /// Encode events as consecutive messages into at most `max_bytes` bytes
    /// (as the sizes are reported), stopping when a message does not fit.
    /// Returns the number of events taken and the total reported size.
    pub fn write_many(&mut self, out: &mut Vec<u8>, msgs: &[MwEv], max_bytes: usize) -> (r: Result<(usize, usize), MsgBinWriteError>)
        ensures
            run_as(bin_encode_run(evs_view(msgs@), max_bytes as nat, true), old(out)@, final(out)@),
            match bin_encode_run(evs_view(msgs@), max_bytes as nat, true) {
                BinEncodedRun::Done(n, nb, _) => r matches Ok((a, b)) && a == n && b == nb,
                BinEncodedRun::Failed(v, _) => r == Err::<(usize, usize), MsgBinWriteError>(MsgBinWriteError::InvalidValue(v)),
            },
    {
        let ghost v = evs_view(msgs@);
        let ghost whole = bin_encode_run(v, max_bytes as nat, true);
        let ghost base = old(out)@;
        let mut start: usize = 0;
        let mut bytes_total: usize = 0;
        let mut done = false;
        proof {
            assert(v.subrange(0, v.len() as int) =~= v);
            assert(out@.subrange(base.len() as int, out@.len() as int) =~= Seq::<u8>::empty());
            assert(out@.subrange(0, base.len() as int) =~= base);
            match whole {
                BinEncodedRun::Done(_, _, b) => assert(Seq::<u8>::empty() + b =~= b),
                BinEncodedRun::Failed(_, b) => assert(Seq::<u8>::empty() + b =~= b),
            }
        }
        while !done && start < msgs.len()
            invariant
                start <= msgs.len(),
                bytes_total <= max_bytes,
                v == evs_view(msgs@),
                whole == bin_encode_run(v, max_bytes as nat, true),
                base == old(out)@,
                out@.len() >= base.len(),
                whole == after_prefix(start as nat, bytes_total as nat, out@.subrange(base.len() as int, out@.len() as int),
                    bin_encode_run(v.subrange(start as int, v.len() as int), (max_bytes - bytes_total) as nat, true)),
                out@.subrange(0, base.len() as int) == base,
                done ==> bin_encode_run(v.subrange(start as int, v.len() as int), (max_bytes - bytes_total) as nat, true)
                    == BinEncodedRun::Done(0, 0, seq![]),
            decreases msgs.len() - start + (if done { 0int } else { 1int }),
        {
            let rest = slice_subrange(msgs, start, msgs.len());
            let ghost rv = v.subrange(start as int, v.len() as int);
            assert(evs_view(rest@) =~= rv);
            let ghost before = out@;
            proof {
                lemma_bin_encode_bounds(rv, (max_bytes - bytes_total) as nat);
            }
            match self.write(out, rest, max_bytes - bytes_total) {
                Err(e) => {
                    proof {
                        let m = (max_bytes - bytes_total) as nat;
                        assert(bin_encode(rv, m) is Invalid);
                        assert(bin_encode_run(rv, m, true) == BinEncodedRun::Failed(bin_encode(rv, m)->Invalid_0, seq![]));
                        assert(out@ =~= base + out@.subrange(base.len() as int, out@.len() as int));
                        assert(out@.subrange(base.len() as int, out@.len() as int) + seq![]
                            =~= out@.subrange(base.len() as int, out@.len() as int));
                    }
                    assert(run_as(whole, base, out@));
                    return Err(e);
                },
                Ok((n, nb)) => {
                    if n == 0 {
                        assert(out@ =~= before);
                        done = true;
                    } else {
                        proof {
                            let m = (max_bytes - bytes_total) as nat;
                            let b = bin_encode(rv, m)->Wrote_2;
                            assert(out@ == before + b);
                            let tail = bin_encode_run(rv.subrange(n as int, rv.len() as int), (m - nb) as nat, true);
                            assert(bin_encode_run(rv, m, true) == after_prefix(n as nat, nb as nat, b, tail));
                            lemma_after_prefix_assoc(start as nat, bytes_total as nat,
                                before.subrange(base.len() as int, before.len() as int), n as nat, nb as nat, b, tail);
                            assert(rv.subrange(n as int, rv.len() as int) =~= v.subrange(start + n, v.len() as int));
                            assert(out@.subrange(base.len() as int, out@.len() as int)
                                =~= before.subrange(base.len() as int, before.len() as int) + b);
                            assert(out@.subrange(0, base.len() as int) =~= before.subrange(0, base.len() as int));
                        }
                        start = start + n;
                        bytes_total = bytes_total + nb;
                    }
                },
            }
        }
        proof {
            if !done {
                assert(v.subrange(start as int, v.len() as int) =~= Seq::<MwEvV>::empty());
            }
            assert(out@.subrange(base.len() as int, out@.len() as int) + seq![]
                =~= out@.subrange(base.len() as int, out@.len() as int));
            assert(out@ =~= base + out@.subrange(base.len() as int, out@.len() as int));
        }
        Ok((start, bytes_total))
    }
}

impl MsgBinWrite {
    /// Encode all events as consecutive messages, with no limit on size.
    pub fn write_all(&mut self, out: &mut Vec<u8>, msgs: &[MwEv]) -> (r: Result<(), MsgBinWriteError>)
        ensures
            run_as(bin_encode_run(evs_view(msgs@), usize::MAX as nat, false), old(out)@, final(out)@),
            match bin_encode_run(evs_view(msgs@), usize::MAX as nat, false) {
                BinEncodedRun::Done(_, _, _) => r is Ok,
                BinEncodedRun::Failed(v, _) => r == Err::<(), MsgBinWriteError>(MsgBinWriteError::InvalidValue(v)),
            },
    {
        let ghost v = evs_view(msgs@);
        let ghost max = usize::MAX as nat;
        let ghost whole = bin_encode_run(v, max, false);
        let ghost base = old(out)@;
        let mut start: usize = 0;
        let ghost mut n_total: nat = 0;
        let ghost mut b_total: nat = 0;
        let mut done = false;
        proof {
            assert(v.subrange(0, v.len() as int) =~= v);
            assert(out@.subrange(base.len() as int, out@.len() as int) =~= Seq::<u8>::empty());
            assert(out@.subrange(0, base.len() as int) =~= base);
            match whole {
                BinEncodedRun::Done(_, _, b) => assert(Seq::<u8>::empty() + b =~= b),
                BinEncodedRun::Failed(_, b) => assert(Seq::<u8>::empty() + b =~= b),
            }
        }
        while !done && start < msgs.len()
            invariant
                start <= msgs.len(),
                v == evs_view(msgs@),
                max == usize::MAX,
                whole == bin_encode_run(v, max, false),
                base == old(out)@,
                out@.len() >= base.len(),
                whole == after_prefix(n_total, b_total, out@.subrange(base.len() as int, out@.len() as int),
                    bin_encode_run(v.subrange(start as int, v.len() as int), max, false)),
                out@.subrange(0, base.len() as int) == base,
                done ==> bin_encode_run(v.subrange(start as int, v.len() as int), max, false)
                    == BinEncodedRun::Done(0, 0, seq![]),
            decreases msgs.len() - start + (if done { 0int } else { 1int }),
        {
            let rest = slice_subrange(msgs, start, msgs.len());
            let ghost rv = v.subrange(start as int, v.len() as int);
            assert(evs_view(rest@) =~= rv);
            let ghost before = out@;
            proof {
                lemma_bin_encode_bounds(rv, max);
            }
            match self.write(out, rest, usize::MAX) {
                Err(e) => {
                    proof {
                        assert(bin_encode(rv, max) is Invalid);
                        assert(bin_encode_run(rv, max, false) == BinEncodedRun::Failed(bin_encode(rv, max)->Invalid_0, seq![]));
                        assert(out@ =~= base + out@.subrange(base.len() as int, out@.len() as int));
                        assert(out@.subrange(base.len() as int, out@.len() as int) + seq![]
                            =~= out@.subrange(base.len() as int, out@.len() as int));
                    }
                    return Err(e);
                },
                Ok((n, nb)) => {
                    if n == 0 {
                        assert(out@ =~= before);
                        done = true;
                    } else {
                        proof {
                            let b = bin_encode(rv, max)->Wrote_2;
                            assert(out@ == before + b);
                            let tail = bin_encode_run(rv.subrange(n as int, rv.len() as int), max, false);
                            assert(bin_encode_run(rv, max, false) == after_prefix(n as nat, nb as nat, b, tail));
                            lemma_after_prefix_assoc(n_total, b_total,
                                before.subrange(base.len() as int, before.len() as int), n as nat, nb as nat, b, tail);
                            assert(rv.subrange(n as int, rv.len() as int) =~= v.subrange(start + n, v.len() as int));
                            assert(out@.subrange(base.len() as int, out@.len() as int)
                                =~= before.subrange(base.len() as int, before.len() as int) + b);
                            assert(out@.subrange(0, base.len() as int) =~= before.subrange(0, base.len() as int));
                            n_total = n_total + n as nat;
                            b_total = b_total + nb as nat;
                        }
                        start = start + n;
                    }
                },
            }
        }
        proof {
            if !done {
                assert(v.subrange(start as int, v.len() as int) =~= Seq::<MwEvV>::empty());
            }
            assert(out@.subrange(base.len() as int, out@.len() as int) + seq![]
                =~= out@.subrange(base.len() as int, out@.len() as int));
            assert(out@ =~= base + out@.subrange(base.len() as int, out@.len() as int));
        }
        Ok(())
    }
}

impl MsgBinRead {
    /// Decode all messages in `data`, appending their events to `out`, and
    /// return how many events there were. On error, the events of the
    /// messages before the bad one stay in `out`.
    pub fn read_all(&mut self, data: &[u8], out: &mut Vec<MwEv>) -> (r: Result<usize, MsgBinReadError>)
        ensures
            ({
                let (evs, err) = bin_decode_all(data@);
                &&& final(out)@.len() == old(out)@.len() + evs.len()
                &&& forall|i: int| 0 <= i < old(out)@.len() ==> #[trigger] final(out)@[i] == old(out)@[i]
                &&& forall|j: int| 0 <= j < evs.len() ==> #[trigger] final(out)@[old(out)@.len() + j]@ == evs[j]
                &&& match err {
                    None => r == Ok::<usize, MsgBinReadError>(evs.len() as usize),
                    Some(e) => r == Err::<usize, MsgBinReadError>(e),
                }
            }),
    {
        let ghost whole = bin_decode_all(data@);
        let ghost old_out = old(out)@;
        let ghost mut acc: Seq<MwEvV> = seq![];
        let mut off: usize = 0;
        let old_len = out.len();
        let mut done = false;
        assert(data@.subrange(0, data@.len() as int) =~= data@);
        assert(whole.0 =~= acc + whole.0);
        while !done && off < data.len()
            invariant
                off <= data.len(),
                whole == bin_decode_all(data@),
                old_out == old(out)@,
                old_len == old_out.len(),
                out@.len() == old_out.len() + acc.len(),
                forall|i: int| 0 <= i < old_out.len() ==> #[trigger] out@[i] == old_out[i],
                forall|j: int| 0 <= j < acc.len() ==> #[trigger] out@[old_out.len() + j]@ == acc[j],
                whole.0 == acc + bin_decode_all(data@.subrange(off as int, data@.len() as int)).0,
                whole.1 == bin_decode_all(data@.subrange(off as int, data@.len() as int)).1,
                done ==> bin_decode_all(data@.subrange(off as int, data@.len() as int)) == (Seq::<MwEvV>::empty(), None::<MsgBinReadError>),
            decreases data.len() - off + (if done { 0int } else { 1int }),
        {
            let rest = slice_subrange(data, off, data.len());
            let ghost rd = data@.subrange(off as int, data@.len() as int);
            proof {
                lemma_bin_decode_bounds(rd);
            }
            let ghost before = out@;
            match self.read(rest, out) {
                Err(e) => {
                    proof {
                        assert(bin_decode_all(rd) == (Seq::<MwEvV>::empty(), Some(e)));
                        assert(whole.0 =~= acc);
                    }
                    return Err(e);
                },
                Ok((used, k)) => {
                    let ghost evs = bin_decode(rd)->Done_1;
                    proof {
                        assert(rd.subrange(used as int, rd.len() as int) =~= data@.subrange(off + used, data@.len() as int));
                        assert forall|i: int| 0 <= i < old_out.len() implies #[trigger] out@[i] == old_out[i] by {
                            assert(out@[i] == before[i]);
                        }
                        assert forall|j: int| 0 <= j < acc.len() + k implies #[trigger] out@[old_out.len() + j]@ == (acc + evs)[j] by {
                            if j < acc.len() {
                                assert(out@[old_out.len() + j] == before[old_out.len() + j]);
                            } else {
                                assert(out@[before.len() + (j - acc.len())]@ == evs[j - acc.len()]);
                            }
                        }
                        assert(whole.0 =~= (acc + evs) + bin_decode_all(data@.subrange(off + used, data@.len() as int)).0);
                        acc = acc + evs;
                    }
                    if k == 0 {
                        done = true;
                    } else {
                        off = off + used;
                    }
                },
            }
        }
        proof {
            if !done {
                assert(data@.subrange(off as int, data@.len() as int) =~= Seq::<u8>::empty());
            }
            assert(whole.0 =~= acc);
        }
        Ok(out.len() - old_len)
    }
}

/// With room to spare, an event that survives the encoding is always taken.
proof fn lemma_bin_encode_progress(msgs: Seq<MwEvV>, max: nat)
    requires
        msgs.len() > 0,
        max >= 512,
        bin_roundtrips(msgs[0]),
    ensures
        bin_encode(msgs, max) is Wrote,
        bin_encode(msgs, max)->Wrote_0 >= 1,
        msgs[0] is DigitCapture && (msgs.len() == 1 || !(msgs[1] is DigitCapture)) ==> bin_encode(msgs, max)->Wrote_0 == 1,
{
    reveal(bin_encode);
    if let MwEvV::Player { ev, .. } = msgs[0] {
        match ev {
            PlayerEvV::Joined { name } => assert(text_len(name) == encode_utf8(name).len()),
            PlayerEvV::ChatAll { text } => assert(text_len(text) == encode_utf8(text).len()),
            PlayerEvV::ChatFriendly { text } => assert(text_len(text) == encode_utf8(text).len()),
            PlayerEvV::VoteNew { l10nkey, .. } => assert(text_len(l10nkey) == encode_utf8(l10nkey).len()),
            _ => {},
        }
    }
}

/// Decoding a whole stream gives back what encoding it wrote: the bytes that
/// `write_all` appends decode, with `read_all`, to exactly the events given,
/// with no error. This holds when every event survives the encoding (see
/// `bin_roundtrips`) and no two digit events are next to each other (the
/// encoder would pack them, and the decoder does not read packed digits
/// back in the order they were written).
pub proof fn lemma_bin_stream_roundtrip(msgs: Seq<MwEvV>)
    requires
        forall|i: int| 0 <= i < msgs.len() ==> bin_roundtrips(#[trigger] msgs[i]),
        forall|i: int| 0 <= i < msgs.len() - 1 ==> !(#[trigger] msgs[i] is DigitCapture && msgs[i + 1] is DigitCapture),
    ensures
        bin_encode_run(msgs, usize::MAX as nat, false) is Done,
        bin_encode_run(msgs, usize::MAX as nat, false)->Done_0 == msgs.len(),
        bin_decode_all(bin_encode_run(msgs, usize::MAX as nat, false)->Done_2) == (msgs, None::<MsgBinReadError>),
    decreases msgs.len(),
{
    let max = usize::MAX as nat;
    if msgs.len() == 0 {
        assert(bin_decode_all(Seq::<u8>::empty()) == (Seq::<MwEvV>::empty(), None::<MsgBinReadError>));
        assert(msgs =~= Seq::<MwEvV>::empty());
        return;
    }
    assert(bin_roundtrips(msgs[0]));
    if msgs.len() > 1 {
        assert(!(msgs[0] is DigitCapture && msgs[1] is DigitCapture));
    }
    lemma_bin_encode_progress(msgs, max);
    lemma_bin_encode_bounds(msgs, max);
    let n = bin_encode(msgs, max)->Wrote_0;
    let b1 = bin_encode(msgs, max)->Wrote_2;
    let tail = msgs.subrange(n as int, msgs.len() as int);
    assert forall|i: int| 0 <= i < tail.len() implies bin_roundtrips(#[trigger] tail[i]) by {
        assert(tail[i] == msgs[n + i]);
    }
    assert forall|i: int| 0 <= i < tail.len() - 1 implies !(#[trigger] tail[i] is DigitCapture && tail[i + 1] is DigitCapture) by {
        assert(tail[i] == msgs[n + i] && tail[i + 1] == msgs[n + i + 1]);
    }
    lemma_bin_stream_roundtrip(tail);
    let rest = bin_encode_run(tail, max, false)->Done_2;
    assert forall|i: int| 0 <= i < n implies bin_roundtrips(#[trigger] msgs[i]) by {}
    lemma_bin_roundtrip(msgs, max, rest);
    let data = b1 + rest;
    assert(bin_decode(data) == BinDecoded::Done(b1.len(), msgs.subrange(0, n as int)));
    if b1.len() == 0 {
        lemma_bin_decode_bounds(rest);
        assert(data =~= rest);
        assert(msgs.subrange(0, n as int).len() >= 1);
        assert(false);
    }
    assert(data.subrange(b1.len() as int, data.len() as int) =~= rest);
    assert(msgs.subrange(0, n as int) + tail =~= msgs);
}

} // verus!
