//! What the text form promises as a whole: a line written for an event is
//! read back as that event.

use vstd::prelude::*;
use vstd::utf8::{encode_utf8, encode_scalar, encode_utf8_valid_utf8, encode_utf8_decode_utf8};
use super::text::{is_ascii_ws, is_unicode_ws, find_char_from, skip_ws, trim_end, code_part, word_end, words_from, words,
    all_digits, digits_value, parse_unsigned, parse_signed};
use super::assembly::{wd, line_len, find_byte, asm_read, rest_after, parse_pos_v, pu8, player_status_v, player_status_words, digit_arg, pos_arg, multi_from, AsmErr, asm_line, asm_words, asm_at, is_at_op, is_cit_op, AsmParsed, structure_named, item_named, tile_kind_named};
use super::assembly_enc::{asm_encode, asm_text, run_len, run_upto, joins, operand, operands, single_text, structure_text, item_text, tile_text};
use crate::game::{ItemKind, StructureKind, TileKind};
use super::text::upper;
use crate::game::event::{MwEvV, PlayerEvV};
use crate::plid::PlayerId;
use super::assembly_enc::{digit_char, dec_nat, dec_int, pos_text};
use crate::grid::pos::Pos;
use crate::time::{MwDur, dur_millis, lemma_dur_millis_roundtrip};

verus! {

/// Tokens joined by single spaces.
pub open spec fn join(toks: Seq<Seq<char>>) -> Seq<char>
    decreases toks.len(),
{
    if toks.len() == 0 {
        seq![]
    } else if toks.len() == 1 {
        toks[0]
    } else {
        join(toks.drop_last()) + seq![' '] + toks.last()
    }
}

/// A token: not empty, and without ASCII white space.
pub open spec fn is_token(w: Seq<char>) -> bool {
    w.len() > 0 && forall|i: int| 0 <= i < w.len() ==> !is_ascii_ws(#[trigger] w[i])
}

/// Every element is a token.
pub open spec fn all_tokens(toks: Seq<Seq<char>>) -> bool {
    forall|k: int| 0 <= k < toks.len() ==> is_token(#[trigger] toks[k])
}

/// Where token `k` starts in the joined text.
pub open spec fn tok_start(toks: Seq<Seq<char>>, k: int) -> int
    decreases k,
{
    if k <= 0 { 0 } else { tok_start(toks, k - 1) + toks[k - 1].len() + 1 }
}

/// The length of joined tokens.
proof fn lemma_join_len(toks: Seq<Seq<char>>)
    requires
        toks.len() >= 1,
    ensures
        join(toks).len() == tok_start(toks, toks.len() - 1) + toks.last().len(),
    decreases toks.len(),
{
    if toks.len() > 1 {
        let n = toks.len() - 1;
        let init = toks.drop_last();
        assert(init =~= toks.subrange(0, n));
        lemma_join_len(init);
        lemma_tok_start_prefix_at(toks, n, n - 1);
    }
}

/// Character `i` of token `k` in the joined text.
proof fn lemma_join_at(toks: Seq<Seq<char>>, k: int, i: int)
    requires
        0 <= k < toks.len(),
        0 <= i < toks[k].len(),
    ensures
        join(toks)[tok_start(toks, k) + i] == toks[k][i],
    decreases toks.len(),
{
    let n = toks.len() - 1;
    if n > 0 {
        let init = toks.drop_last();
        assert(init =~= toks.subrange(0, n));
        lemma_join_len(init);
        lemma_tok_start_prefix_at(toks, n, n - 1);
        let ji = join(init);
        let a = ji + seq![' '];
        assert(join(toks) == a + toks.last());
        if k < n {
            lemma_join_at(init, k, i);
            lemma_tok_start_prefix_at(toks, n, k);
            lemma_tok_start_mono(init, k, n - 1);
            lemma_tok_start_mono(init, 0, k);
            let x = tok_start(toks, k) + i;
            assert(0 <= x < ji.len());
            assert(a[x] == ji[x]);
        }
    }
}

/// The space after token `k`, which is not the last.
proof fn lemma_join_space(toks: Seq<Seq<char>>, k: int)
    requires
        0 <= k < toks.len() - 1,
    ensures
        join(toks)[tok_start(toks, k) + toks[k].len()] == ' ',
    decreases toks.len(),
{
    let n = toks.len() - 1;
    let init = toks.drop_last();
    assert(init =~= toks.subrange(0, n));
    lemma_join_len(init);
    lemma_tok_start_prefix_at(toks, n, n - 1);
    lemma_tok_start_prefix_at(toks, n, k);
    let ji = join(init);
    let a = ji + seq![' '];
    assert(join(toks) == a + toks.last());
    if k < n - 1 {
        lemma_join_space(init, k);
        lemma_tok_start_mono(init, k + 1, n - 1);
        lemma_tok_start_mono(init, 0, k);
        let x = tok_start(toks, k) + toks[k].len();
        assert(0 <= x < ji.len());
        assert(a[x] == ji[x]);
    }
}


proof fn lemma_tok_start_prefix_at(toks: Seq<Seq<char>>, n: int, k: int)
    requires
        0 <= k <= n <= toks.len(),
    ensures
        tok_start(toks.subrange(0, n), k) == tok_start(toks, k),
    decreases k,
{
    if k > 0 {
        lemma_tok_start_prefix_at(toks, n, k - 1);
    }
}

/// Later tokens start later: token `k` and its space end before token `m`
/// starts.
proof fn lemma_tok_start_mono(toks: Seq<Seq<char>>, k: int, m: int)
    requires
        0 <= k <= m <= toks.len(),
    ensures
        k < m ==> tok_start(toks, k) + toks[k].len() + 1 <= tok_start(toks, m),
        tok_start(toks, k) <= tok_start(toks, m),
    decreases m - k,
{
    if k < m {
        lemma_tok_start_mono(toks, k, m - 1);
        if k < m - 1 {
            assert(tok_start(toks, m) == tok_start(toks, m - 1) + toks[m - 1].len() + 1);
        }
    }
}

/// The (start, end) pairs of the tokens in the joined text.
pub open spec fn tok_words(toks: Seq<Seq<char>>) -> Seq<(int, int)> {
    Seq::new(toks.len(), |q: int| (tok_start(toks, q), tok_start(toks, q) + toks[q].len()))
}

/// A run of non-white-space characters from `j` up to `e`, where white
/// space or the end of the text follows, is a word that ends at `e`.
proof fn lemma_word_end_at(t: Seq<char>, j: int, e: int)
    requires
        0 <= j <= e <= t.len(),
        forall|x: int| j <= x < e ==> !is_ascii_ws(#[trigger] t[x]),
        e == t.len() || is_ascii_ws(t[e]),
    ensures
        word_end(t, j) == e,
    decreases e - j,
{
    if j < e {
        lemma_word_end_at(t, j + 1, e);
    }
}

/// The characters of joined tokens followed by a tail.
proof fn lemma_joined_chars(toks: Seq<Seq<char>>, tail: Seq<char>, k: int)
    requires
        all_tokens(toks),
        0 <= k < toks.len(),
    ensures
        forall|i: int| 0 <= i < toks[k].len() ==> !is_ascii_ws(#[trigger] (join(toks) + tail)[tok_start(toks, k) + i]),
        k < toks.len() - 1 ==> (join(toks) + tail)[tok_start(toks, k) + toks[k].len()] == ' ',
        tok_start(toks, k) + toks[k].len() <= join(toks).len(),
        0 <= tok_start(toks, k),
{
    let t = join(toks) + tail;
    lemma_join_len(toks);
    lemma_tok_start_mono(toks, 0, k);
    lemma_tok_start_mono(toks, k, toks.len() - 1);
    assert forall|i: int| 0 <= i < toks[k].len() implies !is_ascii_ws(#[trigger] t[tok_start(toks, k) + i]) by {
        lemma_join_at(toks, k, i);
        assert(is_token(toks[k]));
        assert(!is_ascii_ws(toks[k][i]));
    }
    if k < toks.len() - 1 {
        lemma_join_space(toks, k);
        lemma_tok_start_mono(toks, k, k + 1);
    }
}

/// The words of joined tokens followed by a tail that starts with white
/// space (or is empty): the tokens, then the words of the tail.
pub proof fn lemma_words_of_join(toks: Seq<Seq<char>>, tail: Seq<char>)
    requires
        all_tokens(toks),
        toks.len() >= 1,
        tail.len() == 0 || is_ascii_ws(tail[0]),
    ensures
        words(join(toks) + tail) == tok_words(toks) + words_from(join(toks) + tail, join(toks).len() as int),
{
    lemma_words_of_join_from(toks, tail, 0);
    assert(tok_words(toks).subrange(0, toks.len() as int) =~= tok_words(toks));
}

proof fn lemma_words_of_join_from(toks: Seq<Seq<char>>, tail: Seq<char>, m: int)
    requires
        all_tokens(toks),
        0 <= m < toks.len(),
        tail.len() == 0 || is_ascii_ws(tail[0]),
    ensures
        words_from(join(toks) + tail, tok_start(toks, m))
            == tok_words(toks).subrange(m, toks.len() as int) + words_from(join(toks) + tail, join(toks).len() as int),
    decreases toks.len() - m,
{
    let t = join(toks) + tail;
    let s = tok_start(toks, m);
    let e = s + toks[m].len();
    lemma_joined_chars(toks, tail, m);
    lemma_join_len(toks);
    assert(is_token(toks[m]));
    assert forall|x: int| s <= x < e implies !is_ascii_ws(#[trigger] t[x]) by {
        assert(t[s + (x - s)] == t[x]);
    }
    if m < toks.len() - 1 {
        assert(is_ascii_ws(t[e]));
    } else {
        assert(e == join(toks).len());
        if e < t.len() {
            assert(t[e] == tail[0]);
        }
    }
    lemma_word_end_at(t, s, e);
    assert(!is_ascii_ws(t[s + 0]));
    assert(words_from(t, s) == seq![(s, e)] + words_from(t, e));
    if m < toks.len() - 1 {
        lemma_words_of_join_from(toks, tail, m + 1);
        assert(tok_start(toks, m + 1) == e + 1);
        assert(words_from(t, e) == words_from(t, e + 1));
        assert(tok_words(toks).subrange(m, toks.len() as int)
            =~= seq![(s, e)] + tok_words(toks).subrange(m + 1, toks.len() as int));
    } else {
        assert(tok_words(toks).subrange(m, toks.len() as int) =~= seq![(s, e)]);
    }
}

/// Searching a text without `c` finds nothing.
proof fn lemma_find_char_absent(s: Seq<char>, c: char, i: int)
    requires
        0 <= i <= s.len(),
        forall|x: int| i <= x < s.len() ==> #[trigger] s[x] != c,
    ensures
        find_char_from(s, c, i) == s.len(),
    decreases s.len() - i,
{
    if i < s.len() {
        lemma_find_char_absent(s, c, i + 1);
    }
}

/// The code part of a line that ends with a newline, holds no `;`, and
/// neither starts nor ends (before the newline) with white space, is the
/// line without its newline.
pub proof fn lemma_code_part_of_line(t: Seq<char>)
    requires
        t.len() >= 1,
        forall|x: int| 0 <= x < t.len() ==> #[trigger] t[x] != ';',
        !is_unicode_ws(t[0]),
        !is_unicode_ws(t.last()),
    ensures
        code_part(t + seq!['\n']) == t,
{
    let line = t + seq!['\n'];
    assert forall|x: int| 0 <= x < line.len() implies #[trigger] line[x] != ';' by {
        if x < t.len() {
            assert(line[x] == t[x]);
        }
    }
    lemma_find_char_absent(line, ';', 0);
    let cut = line.len() as int;
    assert(skip_ws(line, 0, cut) == 0);
    assert(line[cut - 1] == '\n');
    assert(line[cut - 2] == t.last());
    assert(trim_end(line, 0, cut - 1) == cut - 1);
    assert(trim_end(line, 0, cut) == cut - 1);
    assert(line.subrange(0, cut - 1) =~= t);
}

/// A number written in decimal is a run of digits that reads back as the
/// number.
pub proof fn lemma_dec_nat(n: nat)
    ensures
        dec_nat(n).len() >= 1,
        all_digits(dec_nat(n)),
        digits_value(dec_nat(n)) == n,
    decreases n,
{
    let s = dec_nat(n);
    if n < 10 {
        assert(s.drop_last() =~= Seq::<char>::empty());
        assert(s.last() == digit_char(n));
        assert(digit_char(n) as u32 - '0' as u32 == n);
        assert(digits_value(s) == digits_value(s.drop_last()) * 10 + (s.last() as u32 - '0' as u32));
    } else {
        lemma_dec_nat(n / 10);
        let p = dec_nat(n / 10);
        assert(s.drop_last() =~= p);
        assert(s.last() == digit_char(n % 10));
        assert(digit_char(n % 10) as u32 - '0' as u32 == n % 10);
        assert(digits_value(s) == digits_value(p) * 10 + (s.last() as u32 - '0' as u32));
        assert((n / 10) * 10 + n % 10 == n);
        assert forall|i: int| 0 <= i < s.len() implies '0' <= #[trigger] s[i] && s[i] <= '9' by {
            if i < p.len() {
                assert(s[i] == p[i]);
            }
        }
    }
}

/// A decimal number reads back as itself.
pub proof fn lemma_parse_dec_nat(n: nat, max: int)
    requires
        n <= max,
    ensures
        parse_unsigned(dec_nat(n), max) == Some(n as int),
{
    lemma_dec_nat(n);
    let s = dec_nat(n);
    assert('0' <= s[0] && s[0] <= '9');
}

/// A decimal integer reads back as itself.
pub proof fn lemma_parse_dec_int(v: int, min: int, max: int)
    requires
        min <= v <= max,
        min <= 0 <= max,
    ensures
        parse_signed(dec_int(v), min, max) == Some(v),
{
    if v < 0 {
        let d = dec_nat((-v) as nat);
        lemma_dec_nat((-v) as nat);
        assert(dec_int(v).drop_first() =~= d);
    } else {
        lemma_parse_dec_nat(v as nat, max);
        lemma_dec_nat(v as nat);
        let s = dec_nat(v as nat);
        assert('0' <= s[0] && s[0] <= '9');
    }
}

/// The characters of a decimal integer: digits and a leading minus sign.
pub proof fn lemma_dec_int_chars(v: int)
    ensures
        dec_int(v).len() >= 1,
        forall|i: int| 0 <= i < dec_int(v).len() ==> ('0' <= #[trigger] dec_int(v)[i] && dec_int(v)[i] <= '9') || dec_int(v)[i] == '-',
        '0' <= dec_int(v)[0] <= '9' || dec_int(v)[0] == '-',
{
    if v < 0 {
        lemma_dec_nat((-v) as nat);
        let d = dec_nat((-v) as nat);
        assert forall|i: int| 0 <= i < dec_int(v).len() implies ('0' <= #[trigger] dec_int(v)[i] && dec_int(v)[i] <= '9') || dec_int(v)[i] == '-' by {
            if i > 0 {
                assert(dec_int(v)[i] == d[i - 1]);
            }
        }
    } else {
        lemma_dec_nat(v as nat);
    }
}

/// A written position reads back as itself.
pub proof fn lemma_parse_pos_text(p: Pos)
    ensures
        parse_pos_v(pos_text(p)) == Some(p),
        is_token(pos_text(p)),
        plain_token(pos_text(p)),
        forall|i: int| 0 <= i < pos_text(p).len() ==> (#[trigger] pos_text(p)[i] != ';' && pos_text(p)[i] != '/'
            && !is_unicode_ws(pos_text(p)[i])),
{
    let s = pos_text(p);
    let a = dec_int(p.0 as int);
    let b = dec_int(p.1 as int);
    lemma_dec_int_chars(p.0 as int);
    lemma_dec_int_chars(p.1 as int);
    assert(s == a + seq![','] + b);
    let c1 = a.len() as int;
    assert forall|x: int| 0 <= x < c1 implies #[trigger] s[x] != ',' by {
        assert(s[x] == a[x]);
    }
    lemma_find_char_absent_upto(s, ',', 0, c1);
    assert(s[c1] == ',');
    assert forall|x: int| c1 + 1 <= x < s.len() implies #[trigger] s[x] != ',' by {
        assert(s[x] == b[x - c1 - 1]);
    }
    lemma_find_char_absent(s, ',', c1 + 1);
    assert(s.subrange(0, c1) =~= a);
    assert(s.subrange(c1 + 1, s.len() as int) =~= b);
    lemma_parse_dec_int(p.0 as int, -128, 127);
    lemma_parse_dec_int(p.1 as int, -128, 127);
    assert(((p.0 as int) as i8) == p.0);
    assert(((p.1 as int) as i8) == p.1);
    assert forall|i: int| 0 <= i < s.len() implies (#[trigger] s[i] != ';' && s[i] != '/' && !is_unicode_ws(s[i])) by {
        if i < c1 {
            assert(s[i] == a[i]);
        } else if i > c1 {
            assert(s[i] == b[i - c1 - 1]);
        }
    }
    assert forall|i: int| 0 <= i < s.len() implies #[trigger] s[i] != ';' && !is_unicode_ws(s[i]) && !is_ascii_ws(s[i]) by {
        if i < c1 {
            assert(s[i] == a[i]);
        } else if i > c1 {
            assert(s[i] == b[i - c1 - 1]);
        }
    }
}

/// Searching from `i` finds the first `c` at `j` when none comes before it.
proof fn lemma_find_char_absent_upto(s: Seq<char>, c: char, i: int, j: int)
    requires
        0 <= i <= j < s.len(),
        s[j] == c,
        forall|x: int| i <= x < j ==> #[trigger] s[x] != c,
    ensures
        find_char_from(s, c, i) == j,
    decreases j - i,
{
    if i < j {
        lemma_find_char_absent_upto(s, c, i + 1, j);
    }
}

/// Word `k` of joined tokens (followed by a tail) is token `k`.
pub proof fn lemma_wd_join(toks: Seq<Seq<char>>, tail: Seq<char>, ws: Seq<(int, int)>, k: int)
    requires
        all_tokens(toks),
        0 <= k < toks.len(),
        ws.len() >= toks.len(),
        ws.subrange(0, toks.len() as int) == tok_words(toks),
    ensures
        wd(join(toks) + tail, ws, k) == toks[k],
{
    let t = join(toks) + tail;
    lemma_joined_chars(toks, tail, k);
    assert(ws[k] == tok_words(toks)[k]);
    let s = tok_start(toks, k);
    assert forall|i: int| 0 <= i < toks[k].len() implies #[trigger] t.subrange(s, s + toks[k].len())[i] == toks[k][i] by {
        lemma_join_at(toks, k, i);
        lemma_join_len(toks);
    }
    assert(t.subrange(s, s + toks[k].len()) =~= toks[k]);
}

/// The words of a line of joined tokens and nothing else are the tokens.
pub proof fn lemma_words_exact(toks: Seq<Seq<char>>)
    requires
        all_tokens(toks),
        toks.len() >= 1,
    ensures
        words(join(toks)) == tok_words(toks),
        forall|k: int| 0 <= k < toks.len() ==> #[trigger] wd(join(toks), tok_words(toks), k) == toks[k],
{
    lemma_words_of_join(toks, seq![]);
    assert(join(toks) + seq![] =~= join(toks));
    assert(words_from(join(toks), join(toks).len() as int) == Seq::<(int, int)>::empty());
    assert(tok_words(toks) + Seq::<(int, int)>::empty() =~= tok_words(toks));
    assert forall|k: int| 0 <= k < toks.len() implies #[trigger] wd(join(toks), tok_words(toks), k) == toks[k] by {
        assert(tok_words(toks).subrange(0, toks.len() as int) =~= tok_words(toks));
        lemma_wd_join(toks, seq![], tok_words(toks), k);
    }
}

/// A token that a line can hold whole: no `;`, and no white space at all.
pub open spec fn plain_token(w: Seq<char>) -> bool {
    &&& w.len() > 0
    &&& forall|i: int| 0 <= i < w.len() ==> #[trigger] w[i] != ';' && !is_unicode_ws(w[i]) && !is_ascii_ws(w[i])
}

/// The text holds no newline.
pub open spec fn no_newline(s: Seq<char>) -> bool {
    forall|x: int| 0 <= x < s.len() ==> #[trigger] s[x] != '\n'
}

/// Every element is a plain token.
pub open spec fn all_plain(toks: Seq<Seq<char>>) -> bool {
    forall|k: int| 0 <= k < toks.len() ==> plain_token(#[trigger] toks[k])
}

/// Joined plain tokens hold no `;` and no newline, and neither start nor end
/// with white space.
proof fn lemma_join_plain(toks: Seq<Seq<char>>)
    requires
        all_plain(toks),
        toks.len() >= 1,
    ensures
        all_tokens(toks),
        forall|x: int| 0 <= x < join(toks).len() ==> #[trigger] join(toks)[x] != ';' && join(toks)[x] != '\n',
        !is_unicode_ws(join(toks)[0]),
        !is_unicode_ws(join(toks).last()),
        join(toks).len() >= 1,
    decreases toks.len(),
{
    assert forall|k: int| 0 <= k < toks.len() implies is_token(#[trigger] toks[k]) by {
        assert(plain_token(toks[k]));
    }
    lemma_join_len(toks);
    lemma_join_at(toks, 0, 0);
    assert(plain_token(toks[0]));
    assert(plain_token(toks.last()));
    let n = toks.len() - 1;
    lemma_join_at(toks, n, toks[n].len() - 1);
    if toks.len() > 1 {
        let init = toks.drop_last();
        lemma_join_plain(init);
        let ji = join(init);
        let j = join(toks);
        assert(j == ji + seq![' '] + toks.last());
        assert forall|x: int| 0 <= x < j.len() implies #[trigger] j[x] != ';' && j[x] != '\n' by {
            if x < ji.len() {
                assert(j[x] == ji[x]);
            } else if x > ji.len() {
                assert(j[x] == toks.last()[x - ji.len() - 1]);
            }
        }
    }
}

/// Reading a line of joined plain tokens reads the instruction whose words
/// are the tokens.
pub proof fn lemma_asm_line_of_join(toks: Seq<Seq<char>>)
    requires
        all_plain(toks),
        toks.len() >= 1,
    ensures
        asm_line(join(toks) + seq!['\n']) == asm_words(join(toks), tok_words(toks)),
        forall|k: int| 0 <= k < toks.len() ==> #[trigger] wd(join(toks), tok_words(toks), k) == toks[k],
        tok_words(toks).len() == toks.len(),
        no_newline(join(toks)),
{
    lemma_join_plain(toks);
    lemma_code_part_of_line(join(toks));
    lemma_words_exact(toks);
}

/// Decimal numbers are plain tokens.
pub proof fn lemma_dec_plain(n: nat, v: int)
    ensures
        plain_token(dec_nat(n)),
        plain_token(dec_int(v)),
        forall|i: int| 0 <= i < dec_nat(n).len() ==> #[trigger] dec_nat(n)[i] != '/' && dec_nat(n)[i] != '*',
{
    lemma_dec_nat(n);
    lemma_dec_int_chars(v);
    let d = dec_nat(n);
    assert forall|i: int| 0 <= i < d.len() implies #[trigger] d[i] != ';' && !is_unicode_ws(d[i]) && !is_ascii_ws(d[i]) by {
        assert('0' <= d[i] && d[i] <= '9');
    }
    let e = dec_int(v);
    assert forall|i: int| 0 <= i < e.len() implies #[trigger] e[i] != ';' && !is_unicode_ws(e[i]) && !is_ascii_ws(e[i]) by {
        assert(('0' <= e[i] && e[i] <= '9') || e[i] == '-');
    }
}

/// Two tokens joined.
proof fn lemma_join2(a: Seq<char>, b: Seq<char>)
    ensures
        join(seq![a, b]) == a + seq![' '] + b,
{
    let t = seq![a, b];
    assert(t.drop_last() =~= seq![a]);
    assert(join(t.drop_last()) == a);
    assert(t.last() == b);
}

/// Three tokens joined.
proof fn lemma_join3(a: Seq<char>, b: Seq<char>, c: Seq<char>)
    ensures
        join(seq![a, b, c]) == a + seq![' '] + b + seq![' '] + c,
{
    assert(seq![a, b, c].drop_last() =~= seq![a, b]);
    lemma_join2(a, b);
}

/// Four tokens joined.
proof fn lemma_join4(a: Seq<char>, b: Seq<char>, c: Seq<char>, d: Seq<char>)
    ensures
        join(seq![a, b, c, d]) == a + seq![' '] + b + seq![' '] + c + seq![' '] + d,
{
    assert(seq![a, b, c, d].drop_last() =~= seq![a, b, c]);
    lemma_join3(a, b, c);
}

/// Five tokens joined.
proof fn lemma_join5(a: Seq<char>, b: Seq<char>, c: Seq<char>, d: Seq<char>, e: Seq<char>)
    ensures
        join(seq![a, b, c, d, e]) == a + seq![' '] + b + seq![' '] + c + seq![' '] + d + seq![' '] + e,
{
    assert(seq![a, b, c, d, e].drop_last() =~= seq![a, b, c, d]);
    lemma_join4(a, b, c, d);
}

/// The instruction names, as their characters.
proof fn lemma_op_names()
    ensures
        "DEBUG"@ == seq!['D', 'E', 'B', 'U', 'G'],
        "PLAYER"@ == seq!['P', 'L', 'A', 'Y', 'E', 'R'],
        "TILE"@ == seq!['T', 'I', 'L', 'E'],
        "DIGITS"@ == seq!['D', 'I', 'G', 'I', 'T', 'S'],
        "OWNER"@ == seq!['O', 'W', 'N', 'E', 'R'],
        "FLAG"@ == seq!['F', 'L', 'A', 'G'],
        "CITRES"@ == seq!['C', 'I', 'T', 'R', 'E', 'S'],
        "CITTRANS"@ == seq!['C', 'I', 'T', 'T', 'R', 'A', 'N', 'S'],
        "CITMONEY"@ == seq!['C', 'I', 'T', 'M', 'O', 'N', 'E', 'Y'],
        "CITINCOME"@ == seq!['C', 'I', 'T', 'I', 'N', 'C', 'O', 'M', 'E'],
        "CITTRADE"@ == seq!['C', 'I', 'T', 'T', 'R', 'A', 'D', 'E'],
        "STRUCT"@ == seq!['S', 'T', 'R', 'U', 'C', 'T'],
        "NOSTRUCT"@ == seq!['N', 'O', 'S', 'T', 'R', 'U', 'C', 'T'],
        "STRUCTHP"@ == seq!['S', 'T', 'R', 'U', 'C', 'T', 'H', 'P'],
        "BUILDNEW"@ == seq!['B', 'U', 'I', 'L', 'D', 'N', 'E', 'W'],
        "BUILD"@ == seq!['B', 'U', 'I', 'L', 'D'],
        "ITEM"@ == seq!['I', 'T', 'E', 'M'],
        "SMOKE"@ == seq!['S', 'M', 'O', 'K', 'E'],
        "UNSMOKE"@ == seq!['U', 'N', 'S', 'M', 'O', 'K', 'E'],
        "EXPLODE"@ == seq!['E', 'X', 'P', 'L', 'O', 'D', 'E'],
        "SHAKE"@ == seq!['S', 'H', 'A', 'K', 'E'],
        "NOP"@ == seq!['N', 'O', 'P'],
{
    reveal_strlit("DEBUG");
    reveal_strlit("PLAYER");
    reveal_strlit("TILE");
    reveal_strlit("DIGITS");
    reveal_strlit("OWNER");
    reveal_strlit("FLAG");
    reveal_strlit("CITRES");
    reveal_strlit("CITTRANS");
    reveal_strlit("CITMONEY");
    reveal_strlit("CITINCOME");
    reveal_strlit("CITTRADE");
    reveal_strlit("STRUCT");
    reveal_strlit("NOSTRUCT");
    reveal_strlit("STRUCTHP");
    reveal_strlit("BUILDNEW");
    reveal_strlit("BUILD");
    reveal_strlit("ITEM");
    reveal_strlit("SMOKE");
    reveal_strlit("UNSMOKE");
    reveal_strlit("EXPLODE");
    reveal_strlit("SHAKE");
    reveal_strlit("NOP");
}

/// The name of a structure kind is a plain token that reads back as the kind.
proof fn lemma_structure_name(k: StructureKind)
    ensures
        plain_token(structure_text(k)),
        structure_named(upper(structure_text(k))) == Some(k),
{
    reveal_strlit("road");
    reveal_strlit("bridge");
    reveal_strlit("wall");
    reveal_strlit("tower");
    reveal_strlit("ROAD");
    reveal_strlit("BRIDGE");
    reveal_strlit("WALL");
    reveal_strlit("TOWER");
    match k {
        StructureKind::Road => {
            assert(upper("road"@) =~= "ROAD"@);
            assert(structure_text(k) == "road"@);
            assert(upper(structure_text(k)) == "ROAD"@);
            assert(structure_named("ROAD"@) == Some(StructureKind::Road));
            assert(k == StructureKind::Road);
            assert(structure_named(upper(structure_text(k))) == Some(k));
        },
        StructureKind::Bridge => {
            assert(upper("bridge"@) =~= "BRIDGE"@);
            assert(structure_named(upper(structure_text(k))) == Some(k));
        },
        StructureKind::Barricade => {
            assert(upper("wall"@) =~= "WALL"@);
            assert("WALL"@[0] != "ROAD"@[0]);
            assert(structure_named(upper(structure_text(k))) == Some(k));
        },
        StructureKind::WatchTower => {
            assert(upper("tower"@) =~= "TOWER"@);
            assert(structure_named(upper(structure_text(k))) == Some(k));
        },
    }
}

/// The name of an item kind is a plain token that reads back as the kind.
proof fn lemma_item_name(k: ItemKind)
    ensures
        plain_token(item_text(k)),
        item_named(upper(item_text(k))) == Some(k),
{
    reveal_strlit("none");
    reveal_strlit("decoy");
    reveal_strlit("mine");
    reveal_strlit("trap");
    reveal_strlit("NONE");
    reveal_strlit("DECOY");
    reveal_strlit("MINE");
    reveal_strlit("TRAP");
    match k {
        ItemKind::Safe => {
            assert(upper("none"@) =~= "NONE"@);
            assert(item_named(upper(item_text(k))) == Some(k));
        },
        ItemKind::Decoy => {
            assert(upper("decoy"@) =~= "DECOY"@);
            assert(item_named(upper(item_text(k))) == Some(k));
        },
        ItemKind::Mine => {
            assert(upper("mine"@) =~= "MINE"@);
            assert("MINE"@[0] != "NONE"@[0]);
            assert(item_named(upper(item_text(k))) == Some(k));
        },
        ItemKind::Trap => {
            assert(upper("trap"@) =~= "TRAP"@);
            assert("TRAP"@[0] != "NONE"@[0]);
            assert("TRAP"@[0] != "MINE"@[0]);
            assert(item_named(upper(item_text(k))) == Some(k));
        },
    }
}

/// The name of a tile kind is a plain token that reads back as the kind,
/// but for road foundations, which are written as any foundation.
proof fn lemma_tile_name(k: TileKind)
    requires
        k != TileKind::FoundationRoad,
    ensures
        plain_token(tile_text(k)),
        tile_kind_named(upper(tile_text(k))) == Some(k),
{
    reveal_strlit("water");
    reveal_strlit("regular");
    reveal_strlit("fertile");
    reveal_strlit("foundation");
    reveal_strlit("destroyed");
    reveal_strlit("mountain");
    reveal_strlit("forest");
    reveal_strlit("WATER");
    reveal_strlit("REGULAR");
    reveal_strlit("FERTILE");
    reveal_strlit("FOUNDATION");
    reveal_strlit("DESTROYED");
    reveal_strlit("MOUNTAIN");
    reveal_strlit("FOREST");
    match k {
        TileKind::Water => {
            assert(upper("water"@) =~= "WATER"@);
            assert(tile_kind_named(upper(tile_text(k))) == Some(k));
        },
        TileKind::Regular => {
            assert(upper("regular"@) =~= "REGULAR"@);
            assert(tile_kind_named(upper(tile_text(k))) == Some(k));
        },
        TileKind::Fertile => {
            assert(upper("fertile"@) =~= "FERTILE"@);
            assert("FERTILE"@[0] != "REGULAR"@[0]);
            assert(tile_kind_named(upper(tile_text(k))) == Some(k));
        },
        TileKind::FoundationStruct => {
            assert(upper("foundation"@) =~= "FOUNDATION"@);
            assert(tile_kind_named(upper(tile_text(k))) == Some(k));
        },
        TileKind::FoundationRoad => {},
        TileKind::Destroyed => {
            assert(upper("destroyed"@) =~= "DESTROYED"@);
            assert(tile_kind_named(upper(tile_text(k))) == Some(k));
        },
        TileKind::Mountain => {
            assert(upper("mountain"@) =~= "MOUNTAIN"@);
            assert(tile_kind_named(upper(tile_text(k))) == Some(k));
        },
        TileKind::Forest => {
            assert(upper("forest"@) =~= "FOREST"@);
            assert(tile_kind_named(upper(tile_text(k))) == Some(k));
        },
    }
}

/// How the line of MwEvV::Debug is made of tokens.
proof fn lemma_text_debug(i: u8, pos: Pos)
    ensures
        single_text(MwEvV::Debug(i, pos)) == join(seq!["DEBUG"@, dec_nat(i as nat), pos_text(pos)]),
        all_plain(seq!["DEBUG"@, dec_nat(i as nat), pos_text(pos)]),
{
    reveal_strlit("DEBUG");
    reveal_strlit("DEBUG ");
    reveal_strlit(" ");
    lemma_dec_plain(i as nat, 0);
    lemma_parse_pos_text(pos);
    let toks = seq!["DEBUG"@, dec_nat(i as nat), pos_text(pos)];
    lemma_join3("DEBUG"@, dec_nat(i as nat), pos_text(pos));
    assert(single_text(MwEvV::Debug(i, pos)) =~= join(toks));
    assert(all_plain(toks));
}

/// The words of the line of MwEvV::Debug read back as the event.
#[verifier::rlimit(100)]
#[verifier::spinoff_prover]
proof fn lemma_words_debug(t: Seq<char>, ws: Seq<(int, int)>, i: u8, pos: Pos)
    requires
        ws.len() == 3,
        wd(t, ws, 0) == "DEBUG"@,
        wd(t, ws, 1) == dec_nat(i as nat),
        wd(t, ws, 2) == pos_text(pos),
    ensures
        asm_words(t, ws) == AsmParsed::Done(seq![MwEvV::Debug(i, pos)]),
{
    lemma_op_names();
    lemma_parse_dec_nat(i as nat, 255);
    lemma_parse_pos_text(pos);
    assert(upper("DEBUG"@) =~= "DEBUG"@);
    assert("DEBUG"@[0] != "OWNER"@[0]);
    assert("DEBUG"@[0] != "BUILD"@[0]);
    assert("DEBUG"@[0] != "SMOKE"@[0]);
    assert("DEBUG"@[0] != "SHAKE"@[0]);
}

/// The line of MwEvV::Debug reads back as the event.
pub proof fn lemma_line_debug(i: u8, pos: Pos)
    ensures
        asm_line(single_text(MwEvV::Debug(i, pos)) + seq!['\n']) == AsmParsed::Done(seq![MwEvV::Debug(i, pos)]),
        no_newline(single_text(MwEvV::Debug(i, pos))),
{
    lemma_text_debug(i, pos);
    let toks = seq!["DEBUG"@, dec_nat(i as nat), pos_text(pos)];
    lemma_asm_line_of_join(toks);
    lemma_words_debug(join(toks), tok_words(toks), i, pos);
}

/// How the line of MwEvV::Tremor is made of tokens.
proof fn lemma_text_tremor()
    ensures
        single_text(MwEvV::Tremor) == join(seq!["SHAKE"@]),
        all_plain(seq!["SHAKE"@]),
{
    reveal_strlit("SHAKE");
    let toks = seq!["SHAKE"@];
    assert(single_text(MwEvV::Tremor) =~= join(toks));
    assert(all_plain(toks));
}

/// The words of the line of MwEvV::Tremor read back as the event.
#[verifier::rlimit(100)]
#[verifier::spinoff_prover]
proof fn lemma_words_tremor(t: Seq<char>, ws: Seq<(int, int)>)
    requires
        ws.len() == 1,
        wd(t, ws, 0) == "SHAKE"@,
    ensures
        asm_words(t, ws) == AsmParsed::Done(seq![MwEvV::Tremor]),
{
    lemma_op_names();
    assert(upper("SHAKE"@) =~= "SHAKE"@);
    assert("SHAKE"@[0] != "DEBUG"@[0]);
    assert("SHAKE"@[0] != "OWNER"@[0]);
    assert("SHAKE"@[0] != "BUILD"@[0]);
    assert("SHAKE"@[1] != "SMOKE"@[1]);
}

/// The line of MwEvV::Tremor reads back as the event.
pub proof fn lemma_line_tremor()
    ensures
        asm_line(single_text(MwEvV::Tremor) + seq!['\n']) == AsmParsed::Done(seq![MwEvV::Tremor]),
        no_newline(single_text(MwEvV::Tremor)),
{
    lemma_text_tremor();
    let toks = seq!["SHAKE"@];
    lemma_asm_line_of_join(toks);
    lemma_words_tremor(join(toks), tok_words(toks));
}

/// How the line of MwEvV::Nop is made of tokens.
proof fn lemma_text_nop()
    ensures
        single_text(MwEvV::Nop) == join(seq!["NOP"@]),
        all_plain(seq!["NOP"@]),
{
    reveal_strlit("NOP");
    let toks = seq!["NOP"@];
    assert(single_text(MwEvV::Nop) =~= join(toks));
    assert(all_plain(toks));
}

/// The words of the line of MwEvV::Nop read back as the event.
#[verifier::rlimit(100)]
#[verifier::spinoff_prover]
proof fn lemma_words_nop(t: Seq<char>, ws: Seq<(int, int)>)
    requires
        ws.len() == 1,
        wd(t, ws, 0) == "NOP"@,
    ensures
        asm_words(t, ws) == AsmParsed::Done(seq![MwEvV::Nop]),
{
    lemma_op_names();
    assert(upper("NOP"@) =~= "NOP"@);
}

/// The line of MwEvV::Nop reads back as the event.
pub proof fn lemma_line_nop()
    ensures
        asm_line(single_text(MwEvV::Nop) + seq!['\n']) == AsmParsed::Done(seq![MwEvV::Nop]),
        no_newline(single_text(MwEvV::Nop)),
{
    lemma_text_nop();
    let toks = seq!["NOP"@];
    lemma_asm_line_of_join(toks);
    lemma_words_nop(join(toks), tok_words(toks));
}

/// How the line of MwEvV::Smoke is made of tokens.
proof fn lemma_text_smoke(pos: Pos)
    ensures
        single_text(MwEvV::Smoke { pos }) == join(seq!["SMOKE"@, pos_text(pos)]),
        all_plain(seq!["SMOKE"@, pos_text(pos)]),
{
    reveal_strlit("SMOKE");
    reveal_strlit("SMOKE ");
    lemma_parse_pos_text(pos);
    let toks = seq!["SMOKE"@, pos_text(pos)];
    lemma_join2("SMOKE"@, pos_text(pos));
    assert(single_text(MwEvV::Smoke { pos }) =~= join(toks));
    assert(all_plain(toks));
}

/// The words of the line of MwEvV::Smoke read back as the event.
#[verifier::rlimit(100)]
#[verifier::spinoff_prover]
proof fn lemma_words_smoke(t: Seq<char>, ws: Seq<(int, int)>, pos: Pos)
    requires
        ws.len() == 2,
        wd(t, ws, 0) == "SMOKE"@,
        wd(t, ws, 1) == pos_text(pos),
    ensures
        asm_words(t, ws) == AsmParsed::Done(seq![MwEvV::Smoke { pos }]),
{
    lemma_op_names();
    lemma_parse_pos_text(pos);
    assert(upper("SMOKE"@) =~= "SMOKE"@);
    assert("SMOKE"@[0] != "DEBUG"@[0]);
    assert("SMOKE"@[0] != "OWNER"@[0]);
    assert("SMOKE"@[0] != "BUILD"@[0]);
    assert("SMOKE"@[1] != "SHAKE"@[1]);
}

/// The line of MwEvV::Smoke reads back as the event.
pub proof fn lemma_line_smoke(pos: Pos)
    ensures
        asm_line(single_text(MwEvV::Smoke { pos }) + seq!['\n']) == AsmParsed::Done(seq![MwEvV::Smoke { pos }]),
        no_newline(single_text(MwEvV::Smoke { pos })),
{
    lemma_text_smoke(pos);
    let toks = seq!["SMOKE"@, pos_text(pos)];
    lemma_asm_line_of_join(toks);
    lemma_words_smoke(join(toks), tok_words(toks), pos);
}

/// How the line of MwEvV::Unsmoke is made of tokens.
proof fn lemma_text_unsmoke(pos: Pos)
    ensures
        single_text(MwEvV::Unsmoke { pos }) == join(seq!["UNSMOKE"@, pos_text(pos)]),
        all_plain(seq!["UNSMOKE"@, pos_text(pos)]),
{
    reveal_strlit("UNSMOKE");
    reveal_strlit("UNSMOKE ");
    lemma_parse_pos_text(pos);
    let toks = seq!["UNSMOKE"@, pos_text(pos)];
    lemma_join2("UNSMOKE"@, pos_text(pos));
    assert(single_text(MwEvV::Unsmoke { pos }) =~= join(toks));
    assert(all_plain(toks));
}

/// The words of the line of MwEvV::Unsmoke read back as the event.
#[verifier::rlimit(100)]
#[verifier::spinoff_prover]
proof fn lemma_words_unsmoke(t: Seq<char>, ws: Seq<(int, int)>, pos: Pos)
    requires
        ws.len() == 2,
        wd(t, ws, 0) == "UNSMOKE"@,
        wd(t, ws, 1) == pos_text(pos),
    ensures
        asm_words(t, ws) == AsmParsed::Done(seq![MwEvV::Unsmoke { pos }]),
{
    lemma_op_names();
    lemma_parse_pos_text(pos);
    assert(upper("UNSMOKE"@) =~= "UNSMOKE"@);
    assert("UNSMOKE"@[0] != "EXPLODE"@[0]);
}

/// The line of MwEvV::Unsmoke reads back as the event.
pub proof fn lemma_line_unsmoke(pos: Pos)
    ensures
        asm_line(single_text(MwEvV::Unsmoke { pos }) + seq!['\n']) == AsmParsed::Done(seq![MwEvV::Unsmoke { pos }]),
        no_newline(single_text(MwEvV::Unsmoke { pos })),
{
    lemma_text_unsmoke(pos);
    let toks = seq!["UNSMOKE"@, pos_text(pos)];
    lemma_asm_line_of_join(toks);
    lemma_words_unsmoke(join(toks), tok_words(toks), pos);
}

/// How the line of MwEvV::StructureGone is made of tokens.
proof fn lemma_text_structure_gone(pos: Pos)
    ensures
        single_text(MwEvV::StructureGone { pos }) == join(seq!["NOSTRUCT"@, pos_text(pos)]),
        all_plain(seq!["NOSTRUCT"@, pos_text(pos)]),
{
    reveal_strlit("NOSTRUCT");
    reveal_strlit("NOSTRUCT ");
    lemma_parse_pos_text(pos);
    let toks = seq!["NOSTRUCT"@, pos_text(pos)];
    lemma_join2("NOSTRUCT"@, pos_text(pos));
    assert(single_text(MwEvV::StructureGone { pos }) =~= join(toks));
    assert(all_plain(toks));
}

/// The words of the line of MwEvV::StructureGone read back as the event.
#[verifier::rlimit(100)]
#[verifier::spinoff_prover]
proof fn lemma_words_structure_gone(t: Seq<char>, ws: Seq<(int, int)>, pos: Pos)
    requires
        ws.len() == 2,
        wd(t, ws, 0) == "NOSTRUCT"@,
        wd(t, ws, 1) == pos_text(pos),
    ensures
        asm_words(t, ws) == AsmParsed::Done(seq![MwEvV::StructureGone { pos }]),
{
    lemma_op_names();
    lemma_parse_pos_text(pos);
    assert(upper("NOSTRUCT"@) =~= "NOSTRUCT"@);
    assert("NOSTRUCT"@[0] != "CITTRANS"@[0]);
    assert("NOSTRUCT"@[0] != "CITMONEY"@[0]);
    assert("NOSTRUCT"@[0] != "CITTRADE"@[0]);
    assert("NOSTRUCT"@[0] != "STRUCTHP"@[0]);
    assert("NOSTRUCT"@[0] != "BUILDNEW"@[0]);
}

/// The line of MwEvV::StructureGone reads back as the event.
pub proof fn lemma_line_structure_gone(pos: Pos)
    ensures
        asm_line(single_text(MwEvV::StructureGone { pos }) + seq!['\n']) == AsmParsed::Done(seq![MwEvV::StructureGone { pos }]),
        no_newline(single_text(MwEvV::StructureGone { pos })),
{
    lemma_text_structure_gone(pos);
    let toks = seq!["NOSTRUCT"@, pos_text(pos)];
    lemma_asm_line_of_join(toks);
    lemma_words_structure_gone(join(toks), tok_words(toks), pos);
}

/// How the line of MwEvV::CitRes is made of tokens.
proof fn lemma_text_cit_res(cit: u8, res: u16)
    ensures
        single_text(MwEvV::CitRes { cit, res }) == join(seq!["CITRES"@, dec_nat(cit as nat), dec_nat(res as nat)]),
        all_plain(seq!["CITRES"@, dec_nat(cit as nat), dec_nat(res as nat)]),
{
    reveal_strlit("CITRES");
    reveal_strlit("CITRES ");
    reveal_strlit(" ");
    lemma_dec_plain(cit as nat, 0);
    lemma_dec_plain(res as nat, 0);
    let toks = seq!["CITRES"@, dec_nat(cit as nat), dec_nat(res as nat)];
    lemma_join3("CITRES"@, dec_nat(cit as nat), dec_nat(res as nat));
    assert(single_text(MwEvV::CitRes { cit, res }) =~= join(toks));
    assert(all_plain(toks));
}

/// The words of the line of MwEvV::CitRes read back as the event.
#[verifier::rlimit(100)]
#[verifier::spinoff_prover]
proof fn lemma_words_cit_res(t: Seq<char>, ws: Seq<(int, int)>, cit: u8, res: u16)
    requires
        ws.len() == 3,
        wd(t, ws, 0) == "CITRES"@,
        wd(t, ws, 1) == dec_nat(cit as nat),
        wd(t, ws, 2) == dec_nat(res as nat),
    ensures
        asm_words(t, ws) == AsmParsed::Done(seq![MwEvV::CitRes { cit, res }]),
{
    lemma_op_names();
    lemma_parse_dec_nat(cit as nat, 255);
    lemma_parse_dec_nat(res as nat, 0xFFFF);
    assert(upper("CITRES"@) =~= "CITRES"@);
    assert("CITRES"@[0] != "PLAYER"@[0]);
    assert("CITRES"@[0] != "DIGITS"@[0]);
    assert("CITRES"@[0] != "STRUCT"@[0]);
}

/// The line of MwEvV::CitRes reads back as the event.
pub proof fn lemma_line_cit_res(cit: u8, res: u16)
    ensures
        asm_line(single_text(MwEvV::CitRes { cit, res }) + seq!['\n']) == AsmParsed::Done(seq![MwEvV::CitRes { cit, res }]),
        no_newline(single_text(MwEvV::CitRes { cit, res })),
{
    lemma_text_cit_res(cit, res);
    let toks = seq!["CITRES"@, dec_nat(cit as nat), dec_nat(res as nat)];
    lemma_asm_line_of_join(toks);
    lemma_words_cit_res(join(toks), tok_words(toks), cit, res);
}

/// How the line of MwEvV::CitMoney is made of tokens.
proof fn lemma_text_cit_money(cit: u8, money: u32)
    ensures
        single_text(MwEvV::CitMoney { cit, money }) == join(seq!["CITMONEY"@, dec_nat(cit as nat), dec_nat(money as nat)]),
        all_plain(seq!["CITMONEY"@, dec_nat(cit as nat), dec_nat(money as nat)]),
{
    reveal_strlit("CITMONEY");
    reveal_strlit("CITMONEY ");
    reveal_strlit(" ");
    lemma_dec_plain(cit as nat, 0);
    lemma_dec_plain(money as nat, 0);
    let toks = seq!["CITMONEY"@, dec_nat(cit as nat), dec_nat(money as nat)];
    lemma_join3("CITMONEY"@, dec_nat(cit as nat), dec_nat(money as nat));
    assert(single_text(MwEvV::CitMoney { cit, money }) =~= join(toks));
    assert(all_plain(toks));
}

/// The words of the line of MwEvV::CitMoney read back as the event.
#[verifier::rlimit(100)]
#[verifier::spinoff_prover]
proof fn lemma_words_cit_money(t: Seq<char>, ws: Seq<(int, int)>, cit: u8, money: u32)
    requires
        ws.len() == 3,
        wd(t, ws, 0) == "CITMONEY"@,
        wd(t, ws, 1) == dec_nat(cit as nat),
        wd(t, ws, 2) == dec_nat(money as nat),
    ensures
        asm_words(t, ws) == AsmParsed::Done(seq![MwEvV::CitMoney { cit, money }]),
{
    lemma_op_names();
    lemma_parse_dec_nat(cit as nat, 255);
    lemma_parse_dec_nat(money as nat, 0xFFFF_FFFF);
    assert(upper("CITMONEY"@) =~= "CITMONEY"@);
    assert("CITMONEY"@[3] != "CITTRANS"@[3]);
    assert("CITMONEY"@[3] != "CITTRADE"@[3]);
    assert("CITMONEY"@[0] != "NOSTRUCT"@[0]);
    assert("CITMONEY"@[0] != "STRUCTHP"@[0]);
    assert("CITMONEY"@[0] != "BUILDNEW"@[0]);
}

/// The line of MwEvV::CitMoney reads back as the event.
pub proof fn lemma_line_cit_money(cit: u8, money: u32)
    ensures
        asm_line(single_text(MwEvV::CitMoney { cit, money }) + seq!['\n']) == AsmParsed::Done(seq![MwEvV::CitMoney { cit, money }]),
        no_newline(single_text(MwEvV::CitMoney { cit, money })),
{
    lemma_text_cit_money(cit, money);
    let toks = seq!["CITMONEY"@, dec_nat(cit as nat), dec_nat(money as nat)];
    lemma_asm_line_of_join(toks);
    lemma_words_cit_money(join(toks), tok_words(toks), cit, money);
}

/// How the line of MwEvV::CitMoneyTransact is made of tokens.
proof fn lemma_text_cit_transact(cit: u8, amount: i16)
    ensures
        single_text(MwEvV::CitMoneyTransact { cit, amount }) == join(seq!["CITTRANS"@, dec_nat(cit as nat), dec_int(amount as int)]),
        all_plain(seq!["CITTRANS"@, dec_nat(cit as nat), dec_int(amount as int)]),
{
    reveal_strlit("CITTRANS");
    reveal_strlit("CITTRANS ");
    reveal_strlit(" ");
    lemma_dec_plain(cit as nat, amount as int);
    let toks = seq!["CITTRANS"@, dec_nat(cit as nat), dec_int(amount as int)];
    lemma_join3("CITTRANS"@, dec_nat(cit as nat), dec_int(amount as int));
    assert(single_text(MwEvV::CitMoneyTransact { cit, amount }) =~= join(toks));
    assert(all_plain(toks));
}

/// The words of the line of MwEvV::CitMoneyTransact read back as the event.
#[verifier::rlimit(100)]
#[verifier::spinoff_prover]
proof fn lemma_words_cit_transact(t: Seq<char>, ws: Seq<(int, int)>, cit: u8, amount: i16)
    requires
        ws.len() == 3,
        wd(t, ws, 0) == "CITTRANS"@,
        wd(t, ws, 1) == dec_nat(cit as nat),
        wd(t, ws, 2) == dec_int(amount as int),
    ensures
        asm_words(t, ws) == AsmParsed::Done(seq![MwEvV::CitMoneyTransact { cit, amount }]),
{
    lemma_op_names();
    lemma_parse_dec_nat(cit as nat, 255);
    lemma_parse_dec_int(amount as int, -0x8000, 0x7FFF);
    assert(upper("CITTRANS"@) =~= "CITTRANS"@);
    assert("CITTRANS"@[3] != "CITMONEY"@[3]);
    assert("CITTRANS"@[6] != "CITTRADE"@[6]);
    assert("CITTRANS"@[0] != "NOSTRUCT"@[0]);
    assert("CITTRANS"@[0] != "STRUCTHP"@[0]);
    assert("CITTRANS"@[0] != "BUILDNEW"@[0]);
}

/// The line of MwEvV::CitMoneyTransact reads back as the event.
pub proof fn lemma_line_cit_transact(cit: u8, amount: i16)
    ensures
        asm_line(single_text(MwEvV::CitMoneyTransact { cit, amount }) + seq!['\n']) == AsmParsed::Done(seq![MwEvV::CitMoneyTransact { cit, amount }]),
        no_newline(single_text(MwEvV::CitMoneyTransact { cit, amount })),
{
    lemma_text_cit_transact(cit, amount);
    let toks = seq!["CITTRANS"@, dec_nat(cit as nat), dec_int(amount as int)];
    lemma_asm_line_of_join(toks);
    lemma_words_cit_transact(join(toks), tok_words(toks), cit, amount);
}

/// How the line of MwEvV::CitIncome is made of tokens.
proof fn lemma_text_cit_income(cit: u8, money: u32, income: u16)
    ensures
        single_text(MwEvV::CitIncome { cit, money, income }) == join(seq!["CITINCOME"@, dec_nat(cit as nat), dec_nat(money as nat), dec_nat(income as nat)]),
        all_plain(seq!["CITINCOME"@, dec_nat(cit as nat), dec_nat(money as nat), dec_nat(income as nat)]),
{
    reveal_strlit("CITINCOME");
    reveal_strlit("CITINCOME ");
    reveal_strlit(" ");
    lemma_dec_plain(cit as nat, 0);
    lemma_dec_plain(money as nat, 0);
    lemma_dec_plain(income as nat, 0);
    let toks = seq!["CITINCOME"@, dec_nat(cit as nat), dec_nat(money as nat), dec_nat(income as nat)];
    lemma_join4("CITINCOME"@, dec_nat(cit as nat), dec_nat(money as nat), dec_nat(income as nat));
    assert(single_text(MwEvV::CitIncome { cit, money, income }) =~= join(toks));
    assert(all_plain(toks));
}

/// The words of the line of MwEvV::CitIncome read back as the event.
#[verifier::rlimit(100)]
#[verifier::spinoff_prover]
proof fn lemma_words_cit_income(t: Seq<char>, ws: Seq<(int, int)>, cit: u8, money: u32, income: u16)
    requires
        ws.len() == 4,
        wd(t, ws, 0) == "CITINCOME"@,
        wd(t, ws, 1) == dec_nat(cit as nat),
        wd(t, ws, 2) == dec_nat(money as nat),
        wd(t, ws, 3) == dec_nat(income as nat),
    ensures
        asm_words(t, ws) == AsmParsed::Done(seq![MwEvV::CitIncome { cit, money, income }]),
{
    lemma_op_names();
    lemma_parse_dec_nat(cit as nat, 255);
    lemma_parse_dec_nat(money as nat, 0xFFFF_FFFF);
    lemma_parse_dec_nat(income as nat, 0xFFFF);
    assert(upper("CITINCOME"@) =~= "CITINCOME"@);
}

/// The line of MwEvV::CitIncome reads back as the event.
pub proof fn lemma_line_cit_income(cit: u8, money: u32, income: u16)
    ensures
        asm_line(single_text(MwEvV::CitIncome { cit, money, income }) + seq!['\n']) == AsmParsed::Done(seq![MwEvV::CitIncome { cit, money, income }]),
        no_newline(single_text(MwEvV::CitIncome { cit, money, income })),
{
    lemma_text_cit_income(cit, money, income);
    let toks = seq!["CITINCOME"@, dec_nat(cit as nat), dec_nat(money as nat), dec_nat(income as nat)];
    lemma_asm_line_of_join(toks);
    lemma_words_cit_income(join(toks), tok_words(toks), cit, money, income);
}

/// How the line of MwEvV::CitTradeInfo is made of tokens.
proof fn lemma_text_cit_trade(cit: u8, export: u8, import: u8)
    ensures
        single_text(MwEvV::CitTradeInfo { cit, export, import }) == join(seq!["CITTRADE"@, dec_nat(cit as nat), dec_nat(export as nat), dec_nat(import as nat)]),
        all_plain(seq!["CITTRADE"@, dec_nat(cit as nat), dec_nat(export as nat), dec_nat(import as nat)]),
{
    reveal_strlit("CITTRADE");
    reveal_strlit("CITTRADE ");
    reveal_strlit(" ");
    lemma_dec_plain(cit as nat, 0);
    lemma_dec_plain(export as nat, 0);
    lemma_dec_plain(import as nat, 0);
    let toks = seq!["CITTRADE"@, dec_nat(cit as nat), dec_nat(export as nat), dec_nat(import as nat)];
    lemma_join4("CITTRADE"@, dec_nat(cit as nat), dec_nat(export as nat), dec_nat(import as nat));
    assert(single_text(MwEvV::CitTradeInfo { cit, export, import }) =~= join(toks));
    assert(all_plain(toks));
}

/// The words of the line of MwEvV::CitTradeInfo read back as the event.
#[verifier::rlimit(100)]
#[verifier::spinoff_prover]
proof fn lemma_words_cit_trade(t: Seq<char>, ws: Seq<(int, int)>, cit: u8, export: u8, import: u8)
    requires
        ws.len() == 4,
        wd(t, ws, 0) == "CITTRADE"@,
        wd(t, ws, 1) == dec_nat(cit as nat),
        wd(t, ws, 2) == dec_nat(export as nat),
        wd(t, ws, 3) == dec_nat(import as nat),
    ensures
        asm_words(t, ws) == AsmParsed::Done(seq![MwEvV::CitTradeInfo { cit, export, import }]),
{
    lemma_op_names();
    lemma_parse_dec_nat(cit as nat, 255);
    lemma_parse_dec_nat(export as nat, 255);
    lemma_parse_dec_nat(import as nat, 255);
    assert(upper("CITTRADE"@) =~= "CITTRADE"@);
    assert("CITTRADE"@[6] != "CITTRANS"@[6]);
    assert("CITTRADE"@[3] != "CITMONEY"@[3]);
    assert("CITTRADE"@[0] != "NOSTRUCT"@[0]);
    assert("CITTRADE"@[0] != "STRUCTHP"@[0]);
    assert("CITTRADE"@[0] != "BUILDNEW"@[0]);
}

/// The line of MwEvV::CitTradeInfo reads back as the event.
pub proof fn lemma_line_cit_trade(cit: u8, export: u8, import: u8)
    ensures
        asm_line(single_text(MwEvV::CitTradeInfo { cit, export, import }) + seq!['\n']) == AsmParsed::Done(seq![MwEvV::CitTradeInfo { cit, export, import }]),
        no_newline(single_text(MwEvV::CitTradeInfo { cit, export, import })),
{
    lemma_text_cit_trade(cit, export, import);
    let toks = seq!["CITTRADE"@, dec_nat(cit as nat), dec_nat(export as nat), dec_nat(import as nat)];
    lemma_asm_line_of_join(toks);
    lemma_words_cit_trade(join(toks), tok_words(toks), cit, export, import);
}

/// How the line of MwEvV::StructureHp is made of tokens.
proof fn lemma_text_structure_hp(pos: Pos, hp: u8)
    ensures
        single_text(MwEvV::StructureHp { pos, hp }) == join(seq!["STRUCTHP"@, pos_text(pos), dec_nat(hp as nat)]),
        all_plain(seq!["STRUCTHP"@, pos_text(pos), dec_nat(hp as nat)]),
{
    reveal_strlit("STRUCTHP");
    reveal_strlit("STRUCTHP ");
    reveal_strlit(" ");
    lemma_dec_plain(hp as nat, 0);
    lemma_parse_pos_text(pos);
    let toks = seq!["STRUCTHP"@, pos_text(pos), dec_nat(hp as nat)];
    lemma_join3("STRUCTHP"@, pos_text(pos), dec_nat(hp as nat));
    assert(single_text(MwEvV::StructureHp { pos, hp }) =~= join(toks));
    assert(all_plain(toks));
}

/// The words of the line of MwEvV::StructureHp read back as the event.
#[verifier::rlimit(100)]
#[verifier::spinoff_prover]
proof fn lemma_words_structure_hp(t: Seq<char>, ws: Seq<(int, int)>, pos: Pos, hp: u8)
    requires
        ws.len() == 3,
        wd(t, ws, 0) == "STRUCTHP"@,
        wd(t, ws, 1) == pos_text(pos),
        wd(t, ws, 2) == dec_nat(hp as nat),
    ensures
        asm_words(t, ws) == AsmParsed::Done(seq![MwEvV::StructureHp { pos, hp }]),
{
    lemma_op_names();
    lemma_parse_dec_nat(hp as nat, 255);
    lemma_parse_pos_text(pos);
    assert(upper("STRUCTHP"@) =~= "STRUCTHP"@);
    assert("STRUCTHP"@[0] != "CITTRANS"@[0]);
    assert("STRUCTHP"@[0] != "CITMONEY"@[0]);
    assert("STRUCTHP"@[0] != "CITTRADE"@[0]);
    assert("STRUCTHP"@[0] != "NOSTRUCT"@[0]);
    assert("STRUCTHP"@[0] != "BUILDNEW"@[0]);
}

/// The line of MwEvV::StructureHp reads back as the event.
pub proof fn lemma_line_structure_hp(pos: Pos, hp: u8)
    ensures
        asm_line(single_text(MwEvV::StructureHp { pos, hp }) + seq!['\n']) == AsmParsed::Done(seq![MwEvV::StructureHp { pos, hp }]),
        no_newline(single_text(MwEvV::StructureHp { pos, hp })),
{
    lemma_text_structure_hp(pos, hp);
    let toks = seq!["STRUCTHP"@, pos_text(pos), dec_nat(hp as nat)];
    lemma_asm_line_of_join(toks);
    lemma_words_structure_hp(join(toks), tok_words(toks), pos, hp);
}

/// How the line of MwEvV::Construction is made of tokens.
proof fn lemma_text_construction(pos: Pos, current: u16, rate: u16)
    ensures
        single_text(MwEvV::Construction { pos, current, rate }) == join(seq!["BUILD"@, pos_text(pos), dec_nat(current as nat), dec_nat(rate as nat)]),
        all_plain(seq!["BUILD"@, pos_text(pos), dec_nat(current as nat), dec_nat(rate as nat)]),
{
    reveal_strlit("BUILD");
    reveal_strlit("BUILD ");
    reveal_strlit(" ");
    lemma_dec_plain(current as nat, 0);
    lemma_dec_plain(rate as nat, 0);
    lemma_parse_pos_text(pos);
    let toks = seq!["BUILD"@, pos_text(pos), dec_nat(current as nat), dec_nat(rate as nat)];
    lemma_join4("BUILD"@, pos_text(pos), dec_nat(current as nat), dec_nat(rate as nat));
    assert(single_text(MwEvV::Construction { pos, current, rate }) =~= join(toks));
    assert(all_plain(toks));
}

/// The words of the line of MwEvV::Construction read back as the event.
#[verifier::rlimit(100)]
#[verifier::spinoff_prover]
proof fn lemma_words_construction(t: Seq<char>, ws: Seq<(int, int)>, pos: Pos, current: u16, rate: u16)
    requires
        ws.len() == 4,
        wd(t, ws, 0) == "BUILD"@,
        wd(t, ws, 1) == pos_text(pos),
        wd(t, ws, 2) == dec_nat(current as nat),
        wd(t, ws, 3) == dec_nat(rate as nat),
    ensures
        asm_words(t, ws) == AsmParsed::Done(seq![MwEvV::Construction { pos, current, rate }]),
{
    lemma_op_names();
    lemma_parse_dec_nat(current as nat, 0xFFFF);
    lemma_parse_dec_nat(rate as nat, 0xFFFF);
    lemma_parse_pos_text(pos);
    assert(upper("BUILD"@) =~= "BUILD"@);
    assert("BUILD"@[0] != "DEBUG"@[0]);
    assert("BUILD"@[0] != "OWNER"@[0]);
    assert("BUILD"@[0] != "SMOKE"@[0]);
    assert("BUILD"@[0] != "SHAKE"@[0]);
}

/// The line of MwEvV::Construction reads back as the event.
pub proof fn lemma_line_construction(pos: Pos, current: u16, rate: u16)
    ensures
        asm_line(single_text(MwEvV::Construction { pos, current, rate }) + seq!['\n']) == AsmParsed::Done(seq![MwEvV::Construction { pos, current, rate }]),
        no_newline(single_text(MwEvV::Construction { pos, current, rate })),
{
    lemma_text_construction(pos, current, rate);
    let toks = seq!["BUILD"@, pos_text(pos), dec_nat(current as nat), dec_nat(rate as nat)];
    lemma_asm_line_of_join(toks);
    lemma_words_construction(join(toks), tok_words(toks), pos, current, rate);
}

/// How the line of MwEvV::Flag is made of tokens.
proof fn lemma_text_flag(plid: PlayerId, pos: Pos)
    requires
        plid.wf(),
        plid.value() <= 7,
    ensures
        single_text(MwEvV::Flag { plid, pos }) == join(seq!["FLAG"@, dec_nat(plid.value() as nat), pos_text(pos)]),
        all_plain(seq!["FLAG"@, dec_nat(plid.value() as nat), pos_text(pos)]),
{
    reveal_strlit("FLAG");
    reveal_strlit("FLAG ");
    reveal_strlit(" ");
    lemma_dec_plain(plid.value() as nat, 0);
    lemma_parse_pos_text(pos);
    let toks = seq!["FLAG"@, dec_nat(plid.value() as nat), pos_text(pos)];
    lemma_join3("FLAG"@, dec_nat(plid.value() as nat), pos_text(pos));
    assert(single_text(MwEvV::Flag { plid, pos }) =~= join(toks));
    assert(all_plain(toks));
}

/// The words of the line of MwEvV::Flag read back as the event.
#[verifier::rlimit(100)]
#[verifier::spinoff_prover]
proof fn lemma_words_flag(t: Seq<char>, ws: Seq<(int, int)>, plid: PlayerId, pos: Pos)
    requires
        plid.wf(),
        plid.value() <= 7,
        ws.len() == 3,
        wd(t, ws, 0) == "FLAG"@,
        wd(t, ws, 1) == dec_nat(plid.value() as nat),
        wd(t, ws, 2) == pos_text(pos),
    ensures
        asm_words(t, ws) == AsmParsed::Done(seq![MwEvV::Flag { plid, pos }]),
{
    lemma_op_names();
    lemma_parse_dec_nat(plid.value() as nat, 255);
    lemma_parse_pos_text(pos);
    assert(upper("FLAG"@) =~= "FLAG"@);
    assert("FLAG"@[0] != "TILE"@[0]);
    assert("FLAG"@[0] != "ITEM"@[0]);
}

/// The line of MwEvV::Flag reads back as the event.
pub proof fn lemma_line_flag(plid: PlayerId, pos: Pos)
    requires
        plid.wf(),
        plid.value() <= 7,
    ensures
        asm_line(single_text(MwEvV::Flag { plid, pos }) + seq!['\n']) == AsmParsed::Done(seq![MwEvV::Flag { plid, pos }]),
        no_newline(single_text(MwEvV::Flag { plid, pos })),
{
    lemma_text_flag(plid, pos);
    let toks = seq!["FLAG"@, dec_nat(plid.value() as nat), pos_text(pos)];
    lemma_asm_line_of_join(toks);
    lemma_words_flag(join(toks), tok_words(toks), plid, pos);
}

/// How the line of MwEvV::RevealStructure is made of tokens.
proof fn lemma_text_reveal_structure(pos: Pos, kind: StructureKind)
    ensures
        single_text(MwEvV::RevealStructure { pos, kind }) == join(seq!["STRUCT"@, pos_text(pos), structure_text(kind)]),
        all_plain(seq!["STRUCT"@, pos_text(pos), structure_text(kind)]),
{
    reveal_strlit("STRUCT");
    reveal_strlit("STRUCT ");
    reveal_strlit(" ");
    lemma_parse_pos_text(pos);
    lemma_structure_name(kind);
    let toks = seq!["STRUCT"@, pos_text(pos), structure_text(kind)];
    lemma_join3("STRUCT"@, pos_text(pos), structure_text(kind));
    assert(single_text(MwEvV::RevealStructure { pos, kind }) =~= join(toks));
    assert(all_plain(toks));
}

/// The words of the line of MwEvV::RevealStructure read back as the event.
#[verifier::rlimit(100)]
#[verifier::spinoff_prover]
proof fn lemma_words_reveal_structure(t: Seq<char>, ws: Seq<(int, int)>, pos: Pos, kind: StructureKind)
    requires
        ws.len() == 3,
        wd(t, ws, 0) == "STRUCT"@,
        wd(t, ws, 1) == pos_text(pos),
        wd(t, ws, 2) == structure_text(kind),
    ensures
        asm_words(t, ws) == AsmParsed::Done(seq![MwEvV::RevealStructure { pos, kind }]),
{
    lemma_op_names();
    lemma_parse_pos_text(pos);
    lemma_structure_name(kind);
    assert(upper("STRUCT"@) =~= "STRUCT"@);
    assert("STRUCT"@[0] != "PLAYER"@[0]);
    assert("STRUCT"@[0] != "DIGITS"@[0]);
    assert("STRUCT"@[0] != "CITRES"@[0]);
}

/// The line of MwEvV::RevealStructure reads back as the event.
pub proof fn lemma_line_reveal_structure(pos: Pos, kind: StructureKind)
    ensures
        asm_line(single_text(MwEvV::RevealStructure { pos, kind }) + seq!['\n']) == AsmParsed::Done(seq![MwEvV::RevealStructure { pos, kind }]),
        no_newline(single_text(MwEvV::RevealStructure { pos, kind })),
{
    lemma_text_reveal_structure(pos, kind);
    let toks = seq!["STRUCT"@, pos_text(pos), structure_text(kind)];
    lemma_asm_line_of_join(toks);
    lemma_words_reveal_structure(join(toks), tok_words(toks), pos, kind);
}

/// How the line of MwEvV::BuildNew is made of tokens.
proof fn lemma_text_build_new(pos: Pos, kind: StructureKind, pts: u16)
    ensures
        single_text(MwEvV::BuildNew { pos, kind, pts }) == join(seq!["BUILDNEW"@, pos_text(pos), structure_text(kind), dec_nat(pts as nat)]),
        all_plain(seq!["BUILDNEW"@, pos_text(pos), structure_text(kind), dec_nat(pts as nat)]),
{
    reveal_strlit("BUILDNEW");
    reveal_strlit("BUILDNEW ");
    reveal_strlit(" ");
    lemma_parse_pos_text(pos);
    lemma_structure_name(kind);
    lemma_dec_plain(pts as nat, 0);
    let toks = seq!["BUILDNEW"@, pos_text(pos), structure_text(kind), dec_nat(pts as nat)];
    lemma_join4("BUILDNEW"@, pos_text(pos), structure_text(kind), dec_nat(pts as nat));
    assert(single_text(MwEvV::BuildNew { pos, kind, pts }) =~= join(toks));
    assert(all_plain(toks));
}

/// The words of the line of MwEvV::BuildNew read back as the event.
#[verifier::rlimit(100)]
#[verifier::spinoff_prover]
proof fn lemma_words_build_new(t: Seq<char>, ws: Seq<(int, int)>, pos: Pos, kind: StructureKind, pts: u16)
    requires
        ws.len() == 4,
        wd(t, ws, 0) == "BUILDNEW"@,
        wd(t, ws, 1) == pos_text(pos),
        wd(t, ws, 2) == structure_text(kind),
        wd(t, ws, 3) == dec_nat(pts as nat),
    ensures
        asm_words(t, ws) == AsmParsed::Done(seq![MwEvV::BuildNew { pos, kind, pts }]),
{
    lemma_op_names();
    lemma_parse_pos_text(pos);
    lemma_structure_name(kind);
    lemma_parse_dec_nat(pts as nat, 0xFFFF);
    assert(upper("BUILDNEW"@) =~= "BUILDNEW"@);
    assert("BUILDNEW"@[0] != "CITTRANS"@[0]);
    assert("BUILDNEW"@[0] != "CITMONEY"@[0]);
    assert("BUILDNEW"@[0] != "CITTRADE"@[0]);
    assert("BUILDNEW"@[0] != "NOSTRUCT"@[0]);
    assert("BUILDNEW"@[0] != "STRUCTHP"@[0]);
}

/// The line of MwEvV::BuildNew reads back as the event.
pub proof fn lemma_line_build_new(pos: Pos, kind: StructureKind, pts: u16)
    ensures
        asm_line(single_text(MwEvV::BuildNew { pos, kind, pts }) + seq!['\n']) == AsmParsed::Done(seq![MwEvV::BuildNew { pos, kind, pts }]),
        no_newline(single_text(MwEvV::BuildNew { pos, kind, pts })),
{
    lemma_text_build_new(pos, kind, pts);
    let toks = seq!["BUILDNEW"@, pos_text(pos), structure_text(kind), dec_nat(pts as nat)];
    lemma_asm_line_of_join(toks);
    lemma_words_build_new(join(toks), tok_words(toks), pos, kind, pts);
}

/// How the line of MwEvV::RevealItem is made of tokens.
proof fn lemma_text_reveal_item(pos: Pos, item: ItemKind)
    ensures
        single_text(MwEvV::RevealItem { pos, item }) == join(seq!["ITEM"@, pos_text(pos), item_text(item)]),
        all_plain(seq!["ITEM"@, pos_text(pos), item_text(item)]),
{
    reveal_strlit("ITEM");
    reveal_strlit("ITEM ");
    reveal_strlit(" ");
    lemma_parse_pos_text(pos);
    lemma_item_name(item);
    let toks = seq!["ITEM"@, pos_text(pos), item_text(item)];
    lemma_join3("ITEM"@, pos_text(pos), item_text(item));
    assert(single_text(MwEvV::RevealItem { pos, item }) =~= join(toks));
    assert(all_plain(toks));
}

/// The words of the line of MwEvV::RevealItem read back as the event.
#[verifier::rlimit(100)]
#[verifier::spinoff_prover]
proof fn lemma_words_reveal_item(t: Seq<char>, ws: Seq<(int, int)>, pos: Pos, item: ItemKind)
    requires
        ws.len() == 3,
        wd(t, ws, 0) == "ITEM"@,
        wd(t, ws, 1) == pos_text(pos),
        wd(t, ws, 2) == item_text(item),
    ensures
        asm_words(t, ws) == AsmParsed::Done(seq![MwEvV::RevealItem { pos, item }]),
{
    lemma_op_names();
    lemma_parse_pos_text(pos);
    lemma_item_name(item);
    assert(upper("ITEM"@) =~= "ITEM"@);
    assert("ITEM"@[0] != "TILE"@[0]);
    assert("ITEM"@[0] != "FLAG"@[0]);
}

/// The line of MwEvV::RevealItem reads back as the event.
pub proof fn lemma_line_reveal_item(pos: Pos, item: ItemKind)
    ensures
        asm_line(single_text(MwEvV::RevealItem { pos, item }) + seq!['\n']) == AsmParsed::Done(seq![MwEvV::RevealItem { pos, item }]),
        no_newline(single_text(MwEvV::RevealItem { pos, item })),
{
    lemma_text_reveal_item(pos, item);
    let toks = seq!["ITEM"@, pos_text(pos), item_text(item)];
    lemma_asm_line_of_join(toks);
    lemma_words_reveal_item(join(toks), tok_words(toks), pos, item);
}

/// How the line of MwEvV::TileKind is made of tokens.
proof fn lemma_text_tile_kind(pos: Pos, kind: TileKind)
    requires
        kind != TileKind::FoundationRoad,
    ensures
        single_text(MwEvV::TileKind { pos, kind }) == join(seq!["TILE"@, pos_text(pos), tile_text(kind)]),
        all_plain(seq!["TILE"@, pos_text(pos), tile_text(kind)]),
{
    reveal_strlit("TILE");
    reveal_strlit("TILE ");
    reveal_strlit(" ");
    lemma_parse_pos_text(pos);
    lemma_tile_name(kind);
    let toks = seq!["TILE"@, pos_text(pos), tile_text(kind)];
    lemma_join3("TILE"@, pos_text(pos), tile_text(kind));
    assert(single_text(MwEvV::TileKind { pos, kind }) =~= join(toks));
    assert(all_plain(toks));
}

/// The words of the line of MwEvV::TileKind read back as the event.
#[verifier::rlimit(100)]
#[verifier::spinoff_prover]
proof fn lemma_words_tile_kind(t: Seq<char>, ws: Seq<(int, int)>, pos: Pos, kind: TileKind)
    requires
        kind != TileKind::FoundationRoad,
        ws.len() == 3,
        wd(t, ws, 0) == "TILE"@,
        wd(t, ws, 1) == pos_text(pos),
        wd(t, ws, 2) == tile_text(kind),
    ensures
        asm_words(t, ws) == AsmParsed::Done(seq![MwEvV::TileKind { pos, kind }]),
{
    lemma_op_names();
    lemma_parse_pos_text(pos);
    lemma_tile_name(kind);
    assert(upper("TILE"@) =~= "TILE"@);
    assert("TILE"@[0] != "FLAG"@[0]);
    assert("TILE"@[0] != "ITEM"@[0]);
}

/// The line of MwEvV::TileKind reads back as the event.
pub proof fn lemma_line_tile_kind(pos: Pos, kind: TileKind)
    requires
        kind != TileKind::FoundationRoad,
    ensures
        asm_line(single_text(MwEvV::TileKind { pos, kind }) + seq!['\n']) == AsmParsed::Done(seq![MwEvV::TileKind { pos, kind }]),
        no_newline(single_text(MwEvV::TileKind { pos, kind })),
{
    lemma_text_tile_kind(pos, kind);
    let toks = seq!["TILE"@, pos_text(pos), tile_text(kind)];
    lemma_asm_line_of_join(toks);
    lemma_words_tile_kind(join(toks), tok_words(toks), pos, kind);
}

/// The event that an operand of a multi-operand instruction reads as
/// (0: digits, 1: explosions, otherwise tile owner `plid`).
pub open spec fn multi_arg(a: Seq<char>, kind: int, plid: PlayerId) -> Result<MwEvV, AsmErr> {
    if kind == 0 {
        digit_arg(a)
    } else {
        match pos_arg(a) {
            Err(e) => Err(e),
            Ok(pos) => Ok(if kind == 1 { MwEvV::Explode { pos } } else { MwEvV::TileOwner { pos, plid } }),
        }
    }
}

/// Operands that each read as an event read as all of them.
proof fn lemma_multi_from(t: Seq<char>, ws: Seq<(int, int)>, k: int, kind: int, plid: PlayerId, first: int, evs: Seq<MwEvV>)
    requires
        0 <= first <= k <= ws.len(),
        evs.len() == ws.len() - first,
        forall|j: int| k <= j < ws.len() ==> #[trigger] multi_arg(wd(t, ws, j), kind, plid) == Ok::<MwEvV, AsmErr>(evs[j - first]),
    ensures
        multi_from(t, ws, k, kind, plid) == AsmParsed::Done(evs.subrange(k - first, evs.len() as int)),
    decreases ws.len() - k,
{
    if k < ws.len() {
        lemma_multi_from(t, ws, k + 1, kind, plid, first, evs);
        assert(multi_arg(wd(t, ws, k), kind, plid) == Ok::<MwEvV, AsmErr>(evs[k - first]));
        assert(seq![evs[k - first]] + evs.subrange(k + 1 - first, evs.len() as int) =~= evs.subrange(k - first, evs.len() as int));
    } else {
        assert(evs.subrange(k - first, evs.len() as int) =~= Seq::<MwEvV>::empty());
    }
}

/// A digit operand reads back as its event.
pub proof fn lemma_digit_operand(pos: Pos, digit: u8, asterisk: bool)
    ensures
        digit_arg(operand(MwEvV::DigitCapture { pos, digit, asterisk })) == Ok::<MwEvV, AsmErr>(MwEvV::DigitCapture { pos, digit, asterisk }),
        plain_token(operand(MwEvV::DigitCapture { pos, digit, asterisk })),
{
    reveal_strlit("*");
    reveal_strlit("/");
    let d = dec_nat(digit as nat);
    let st: Seq<char> = if asterisk { "*"@ } else { seq![] };
    let p = pos_text(pos);
    let a = operand(MwEvV::DigitCapture { pos, digit, asterisk });
    assert(a == d + st + seq!['/'] + p);
    lemma_dec_plain(digit as nat, 0);
    lemma_dec_nat(digit as nat);
    lemma_parse_pos_text(pos);
    lemma_parse_dec_nat(digit as nat, 255);
    let sl: int = (d.len() + st.len()) as int;
    assert forall|x: int| 0 <= x < sl implies #[trigger] a[x] != '/' by {
        if x < d.len() {
            assert(a[x] == d[x]);
        } else {
            assert(a[x] == '*');
        }
    }
    assert(a[sl] == '/');
    lemma_find_char_absent_upto(a, '/', 0, sl);
    let d0 = a.subrange(0, sl);
    assert(d0 =~= d + st);
    assert('0' <= d.last() && d.last() <= '9');
    if asterisk {
        assert(d0.last() == '*');
        assert(d0.drop_last() =~= d);
    } else {
        assert(d0 =~= d);
    }
    assert(a.subrange(sl + 1, a.len() as int) =~= p);
    assert forall|i: int| 0 <= i < a.len() implies #[trigger] a[i] != ';' && !is_unicode_ws(a[i]) && !is_ascii_ws(a[i]) by {
        if i < d.len() {
            assert(a[i] == d[i]);
        } else if i < sl {
            assert(a[i] == '*');
        } else if i > sl {
            assert(a[i] == p[i - sl - 1]);
        }
    }
}

/// The events of a run all join its first one.
proof fn lemma_run_member(msgs: Seq<MwEvV>, m: nat, j: int)
    requires
        1 <= j < run_upto(msgs, m),
    ensures
        j < msgs.len() && joins(msgs[0], msgs[j]),
    decreases m,
{
    if m > 1 {
        lemma_run_bounds(msgs, (m - 1) as nat);
        let r = run_upto(msgs, (m - 1) as nat);
        if j < r {
            lemma_run_member(msgs, (m - 1) as nat, j);
        }
    }
}

/// A run is at most as long as its limit and at least 1.
proof fn lemma_run_bounds(msgs: Seq<MwEvV>, m: nat)
    ensures
        1 <= run_upto(msgs, m),
        m >= 1 ==> run_upto(msgs, m) <= m,
    decreases m,
{
    if m > 1 {
        lemma_run_bounds(msgs, (m - 1) as nat);
    }
}

/// The operands of the first `m` events.
pub open spec fn run_ops(msgs: Seq<MwEvV>, m: int) -> Seq<Seq<char>> {
    Seq::new(m as nat, |j: int| operand(msgs[j]))
}

/// The line of a run is its instruction's leading tokens followed by the
/// operands of its events.
proof fn lemma_run_text(msgs: Seq<MwEvV>, pre: Seq<Seq<char>>, m: int)
    requires
        1 <= m <= msgs.len(),
        single_text(msgs[0]) == join(pre + run_ops(msgs, 1)),
        pre.len() >= 1,
    ensures
        single_text(msgs[0]) + operands(msgs, m as nat) == join(pre + run_ops(msgs, m)),
    decreases m,
{
    reveal_strlit(" ");
    if m == 1 {
        assert(operands(msgs, 1) =~= Seq::<char>::empty());
        assert(single_text(msgs[0]) + operands(msgs, 1) =~= single_text(msgs[0]));
    } else {
        lemma_run_text(msgs, pre, m - 1);
        let toks = pre + run_ops(msgs, m);
        assert(toks.drop_last() =~= pre + run_ops(msgs, m - 1));
        assert(toks.last() == operand(msgs[m - 1]));
        assert(operands(msgs, m as nat) == operands(msgs, (m - 1) as nat) + " "@ + operand(msgs[m - 1]));
        assert(single_text(msgs[0]) + operands(msgs, m as nat)
            =~= (single_text(msgs[0]) + operands(msgs, (m - 1) as nat)) + seq![' '] + operand(msgs[m - 1]));
    }
}

/// The words of an `EXPLODE` line read back as its explosions.
#[verifier::rlimit(100)]
#[verifier::spinoff_prover]
proof fn lemma_words_explode(t: Seq<char>, ws: Seq<(int, int)>, evs: Seq<MwEvV>)
    requires
        evs.len() >= 1,
        ws.len() == evs.len() + 1,
        wd(t, ws, 0) == "EXPLODE"@,
        forall|j: int| 1 <= j < ws.len() ==> (#[trigger] evs[j - 1]) is Explode && wd(t, ws, j) == pos_text(evs[j - 1]->Explode_pos),
    ensures
        asm_words(t, ws) == AsmParsed::Done(evs),
{
    lemma_op_names();
    assert(upper("EXPLODE"@) =~= "EXPLODE"@);
    assert("EXPLODE"@[0] != "UNSMOKE"@[0]);
    assert forall|j: int| 1 <= j < ws.len() implies #[trigger] multi_arg(wd(t, ws, j), 1, PlayerId::Neutral) == Ok::<MwEvV, AsmErr>(evs[j - 1]) by {
        assert(evs[j - 1] is Explode);
        lemma_parse_pos_text(evs[j - 1]->Explode_pos);
    }
    lemma_multi_from(t, ws, 1, 1, PlayerId::Neutral, 1, evs);
    assert(evs.subrange(0, evs.len() as int) =~= evs);
}

/// The words of a `DIGITS` line read back as its digit events.
#[verifier::rlimit(100)]
#[verifier::spinoff_prover]
proof fn lemma_words_digits(t: Seq<char>, ws: Seq<(int, int)>, evs: Seq<MwEvV>)
    requires
        evs.len() >= 1,
        ws.len() == evs.len() + 1,
        wd(t, ws, 0) == "DIGITS"@,
        forall|j: int| 1 <= j < ws.len() ==> (#[trigger] evs[j - 1]) is DigitCapture && wd(t, ws, j) == operand(evs[j - 1]),
    ensures
        asm_words(t, ws) == AsmParsed::Done(evs),
{
    lemma_op_names();
    assert(upper("DIGITS"@) =~= "DIGITS"@);
    assert("DIGITS"@[0] != "PLAYER"@[0]);
    assert("DIGITS"@[0] != "CITRES"@[0]);
    assert("DIGITS"@[0] != "STRUCT"@[0]);
    assert forall|j: int| 1 <= j < ws.len() implies #[trigger] multi_arg(wd(t, ws, j), 0, PlayerId::Neutral) == Ok::<MwEvV, AsmErr>(evs[j - 1]) by {
        let e = evs[j - 1];
        assert(e is DigitCapture);
        lemma_digit_operand(e->DigitCapture_pos, e->digit, e->asterisk);
    }
    lemma_multi_from(t, ws, 1, 0, PlayerId::Neutral, 1, evs);
    assert(evs.subrange(0, evs.len() as int) =~= evs);
}

/// The words of an `OWNER` line read back as its tile owner events.
#[verifier::rlimit(100)]
#[verifier::spinoff_prover]
proof fn lemma_words_owner(t: Seq<char>, ws: Seq<(int, int)>, plid: PlayerId, evs: Seq<MwEvV>)
    requires
        plid.wf(),
        plid.value() <= 7,
        evs.len() >= 1,
        ws.len() == evs.len() + 2,
        wd(t, ws, 0) == "OWNER"@,
        wd(t, ws, 1) == dec_nat(plid.value() as nat),
        forall|j: int| 2 <= j < ws.len() ==> (#[trigger] evs[j - 2]) is TileOwner && evs[j - 2]->TileOwner_plid == plid
            && wd(t, ws, j) == pos_text(evs[j - 2]->TileOwner_pos),
    ensures
        asm_words(t, ws) == AsmParsed::Done(evs),
{
    lemma_op_names();
    assert(upper("OWNER"@) =~= "OWNER"@);
    assert("OWNER"@[0] != "DEBUG"@[0]);
    assert("OWNER"@[0] != "BUILD"@[0]);
    assert("OWNER"@[0] != "SMOKE"@[0]);
    assert("OWNER"@[0] != "SHAKE"@[0]);
    lemma_parse_dec_nat(plid.value() as nat, 255);
    assert(PlayerId::from_value(plid.value()) == plid);
    assert forall|j: int| 2 <= j < ws.len() implies #[trigger] multi_arg(wd(t, ws, j), 2, plid) == Ok::<MwEvV, AsmErr>(evs[j - 2]) by {
        assert(evs[j - 2] is TileOwner);
        lemma_parse_pos_text(evs[j - 2]->TileOwner_pos);
    }
    lemma_multi_from(t, ws, 2, 2, plid, 2, evs);
    assert(evs.subrange(0, evs.len() as int) =~= evs);
}

/// A line of EXPLODE events reads back as the run of them that it holds.
#[verifier::rlimit(100)]
#[verifier::spinoff_prover]
pub proof fn lemma_line_explode(msgs: Seq<MwEvV>)
    requires
        msgs.len() >= 1,
        msgs[0] is Explode,
    ensures
        asm_line(asm_text(msgs)) == AsmParsed::Done(msgs.subrange(0, run_len(msgs) as int)),
        no_newline(asm_text(msgs).drop_last()),
        asm_text(msgs).last() == '\n',
{
    let m = run_len(msgs) as int;
    lemma_run_bounds(msgs, 16);
    if m > 1 {
        lemma_run_member(msgs, 16, m - 1);
    }
    assert forall|j: int| 0 <= j < m implies (#[trigger] msgs[j]) is Explode  by {
        if j > 0 {
            lemma_run_member(msgs, 16, j);
        }
    }
    reveal_strlit("EXPLODE ");
    reveal_strlit("EXPLODE");
    reveal_strlit("\n");
    let p0 = msgs[0]->Explode_pos;
    lemma_parse_pos_text(p0);
    let pre = seq!["EXPLODE"@];
    assert(pre + run_ops(msgs, 1) =~= seq!["EXPLODE"@, pos_text(p0)]);
    lemma_join2("EXPLODE"@, pos_text(p0));
    assert(single_text(msgs[0]) =~= join(pre + run_ops(msgs, 1)));
    lemma_run_text(msgs, pre, m);
    let toks = pre + run_ops(msgs, m);
    assert(asm_text(msgs) == join(toks) + seq!['\n']);
    assert forall|k: int| 0 <= k < toks.len() implies plain_token(#[trigger] toks[k]) by {
        if k >= pre.len() {
            assert(toks[k] == operand(msgs[k - pre.len()]));
            lemma_parse_pos_text(msgs[k - pre.len()]->Explode_pos);
        }
    }
    lemma_asm_line_of_join(toks);
    let evs = msgs.subrange(0, m);
    let t = join(toks);
    let ws = tok_words(toks);
    assert(wd(t, ws, 0) == toks[0]);
    assert forall|j: int| 1 <= j < ws.len() implies (#[trigger] evs[j - 1]) is Explode && wd(t, ws, j) == pos_text(evs[j - 1]->Explode_pos) by {
        assert(wd(t, ws, j) == toks[j]);
        assert(toks[j] == operand(msgs[j - 1]));
    }
    lemma_words_explode(t, ws, evs);
    assert(asm_text(msgs).drop_last() =~= join(toks));
}

/// A line of DIGITS events reads back as the run of them that it holds.
#[verifier::rlimit(100)]
#[verifier::spinoff_prover]
pub proof fn lemma_line_digits(msgs: Seq<MwEvV>)
    requires
        msgs.len() >= 1,
        msgs[0] is DigitCapture,
    ensures
        asm_line(asm_text(msgs)) == AsmParsed::Done(msgs.subrange(0, run_len(msgs) as int)),
        no_newline(asm_text(msgs).drop_last()),
        asm_text(msgs).last() == '\n',
{
    let m = run_len(msgs) as int;
    lemma_run_bounds(msgs, 16);
    if m > 1 {
        lemma_run_member(msgs, 16, m - 1);
    }
    assert forall|j: int| 0 <= j < m implies (#[trigger] msgs[j]) is DigitCapture  by {
        if j > 0 {
            lemma_run_member(msgs, 16, j);
        }
    }
    reveal_strlit("DIGITS ");
    reveal_strlit("DIGITS");
    reveal_strlit("\n");
    let e0 = msgs[0];
    lemma_digit_operand(e0->DigitCapture_pos, e0->digit, e0->asterisk);
    let pre = seq!["DIGITS"@];
    assert(pre + run_ops(msgs, 1) =~= seq!["DIGITS"@, operand(e0)]);
    lemma_join2("DIGITS"@, operand(e0));
    assert(single_text(msgs[0]) =~= join(pre + run_ops(msgs, 1)));
    lemma_run_text(msgs, pre, m);
    let toks = pre + run_ops(msgs, m);
    assert(asm_text(msgs) == join(toks) + seq!['\n']);
    assert forall|k: int| 0 <= k < toks.len() implies plain_token(#[trigger] toks[k]) by {
        if k >= pre.len() {
            assert(toks[k] == operand(msgs[k - pre.len()]));
            let e = msgs[k - pre.len()];
            lemma_digit_operand(e->DigitCapture_pos, e->digit, e->asterisk);
        }
    }
    lemma_asm_line_of_join(toks);
    let evs = msgs.subrange(0, m);
    let t = join(toks);
    let ws = tok_words(toks);
    assert(wd(t, ws, 0) == toks[0]);
    assert forall|j: int| 1 <= j < ws.len() implies (#[trigger] evs[j - 1]) is DigitCapture && wd(t, ws, j) == operand(evs[j - 1]) by {
        assert(wd(t, ws, j) == toks[j]);
        assert(toks[j] == operand(msgs[j - 1]));
    }
    lemma_words_digits(t, ws, evs);
    assert(asm_text(msgs).drop_last() =~= join(toks));
}

/// How the line of a run of tile owner events is made of tokens.
#[verifier::rlimit(100)]
#[verifier::spinoff_prover]
proof fn lemma_owner_tokens(msgs: Seq<MwEvV>) -> (toks: Seq<Seq<char>>)
    requires
        msgs.len() >= 1,
        msgs[0] is TileOwner,
    ensures
        asm_text(msgs) == join(toks) + seq!['\n'],
        all_plain(toks),
        toks.len() == run_len(msgs) + 2,
        1 <= run_len(msgs) <= msgs.len(),
        toks[0] == "OWNER"@,
        toks[1] == dec_nat(msgs[0]->TileOwner_plid.value() as nat),
        forall|j: int| 2 <= j < toks.len() ==> (#[trigger] msgs[j - 2]) is TileOwner
            && msgs[j - 2]->TileOwner_plid == msgs[0]->TileOwner_plid && toks[j] == pos_text(msgs[j - 2]->TileOwner_pos),
{
    let m = run_len(msgs) as int;
    lemma_run_bounds(msgs, 8);
    if m > 1 {
        lemma_run_member(msgs, 8, m - 1);
    }
    assert forall|j: int| 0 <= j < m implies (#[trigger] msgs[j]) is TileOwner && msgs[j]->TileOwner_plid == msgs[0]->TileOwner_plid by {
        if j > 0 {
            lemma_run_member(msgs, 8, j);
        }
    }
    reveal_strlit("OWNER ");
    reveal_strlit("OWNER");
    reveal_strlit("\n");
    reveal_strlit(" ");
    let p0 = msgs[0]->TileOwner_pos;
    let plid = msgs[0]->TileOwner_plid;
    lemma_parse_pos_text(p0);
    lemma_dec_plain(plid.value() as nat, 0);
    let pre = seq!["OWNER"@, dec_nat(plid.value() as nat)];
    assert(pre + run_ops(msgs, 1) =~= seq!["OWNER"@, dec_nat(plid.value() as nat), pos_text(p0)]);
    lemma_join3("OWNER"@, dec_nat(plid.value() as nat), pos_text(p0));
    assert(single_text(msgs[0]) =~= join(pre + run_ops(msgs, 1)));
    lemma_run_text(msgs, pre, m);
    let toks = pre + run_ops(msgs, m);
    assert forall|k: int| 0 <= k < toks.len() implies plain_token(#[trigger] toks[k]) by {
        if k >= pre.len() {
            assert(toks[k] == operand(msgs[k - pre.len()]));
            lemma_parse_pos_text(msgs[k - pre.len()]->TileOwner_pos);
        }
    }
    assert forall|j: int| 2 <= j < toks.len() implies (#[trigger] msgs[j - 2]) is TileOwner
        && msgs[j - 2]->TileOwner_plid == msgs[0]->TileOwner_plid && toks[j] == pos_text(msgs[j - 2]->TileOwner_pos) by {
        assert(toks[j] == operand(msgs[j - 2]));
    }
    toks
}

/// A line of OWNER events reads back as the run of them that it holds.
pub proof fn lemma_line_owner(msgs: Seq<MwEvV>)
    requires
        msgs.len() >= 1,
        msgs[0] is TileOwner,
        msgs[0]->TileOwner_plid.wf(),
        msgs[0]->TileOwner_plid.value() <= 7,
    ensures
        asm_line(asm_text(msgs)) == AsmParsed::Done(msgs.subrange(0, run_len(msgs) as int)),
        no_newline(asm_text(msgs).drop_last()),
        asm_text(msgs).last() == '\n',
{
    let toks = lemma_owner_tokens(msgs);
    let m = run_len(msgs) as int;
    let plid = msgs[0]->TileOwner_plid;
    lemma_asm_line_of_join(toks);
    let evs = msgs.subrange(0, m);
    let t = join(toks);
    let ws = tok_words(toks);
    assert(wd(t, ws, 0) == toks[0]);
    assert(wd(t, ws, 1) == toks[1]);
    assert forall|j: int| 2 <= j < ws.len() implies (#[trigger] evs[j - 2]) is TileOwner && evs[j - 2]->TileOwner_plid == plid
            && wd(t, ws, j) == pos_text(evs[j - 2]->TileOwner_pos) by {
        assert(wd(t, ws, j) == toks[j]);
        assert(evs[j - 2] == msgs[j - 2]);
    }
    lemma_words_owner(t, ws, plid, evs);
    assert(asm_text(msgs).drop_last() =~= join(toks));
}

/// The player operand of a `PLAYER` line: the player id, and the sub-id
/// after a `/` when there is one.
pub open spec fn plid_tok(plid: PlayerId, subplid: Option<u8>) -> Seq<char> {
    dec_nat(plid.value() as nat) + match subplid {
        Some(s) => seq!['/'] + dec_nat(s as nat),
        None => Seq::<char>::empty(),
    }
}

/// The player operand is a plain token that reads back as the ids.
proof fn lemma_plid_tok(plid: PlayerId, subplid: Option<u8>)
    ensures
        plain_token(plid_tok(plid, subplid)),
        ({
            let a = plid_tok(plid, subplid);
            let sl = find_char_from(a, '/', 0);
            let p = a.subrange(0, sl);
            let sub = if sl < a.len() { a.subrange(sl + 1, a.len() as int) } else { Seq::<char>::empty() };
            &&& pu8(p) == Some(plid.value())
            &&& (sub.len() == 0 <==> subplid is None)
            &&& (subplid matches Some(x) ==> pu8(sub) == Some(x))
        }),
{
    let d = dec_nat(plid.value() as nat);
    lemma_dec_plain(plid.value() as nat, 0);
    lemma_dec_nat(plid.value() as nat);
    lemma_parse_dec_nat(plid.value() as nat, 255);
    let a = plid_tok(plid, subplid);
    match subplid {
        Some(x) => {
            let e = dec_nat(x as nat);
            lemma_dec_plain(x as nat, 0);
            lemma_dec_nat(x as nat);
            lemma_parse_dec_nat(x as nat, 255);
            assert(a == d + seq!['/'] + e);
            assert forall|i: int| 0 <= i < d.len() implies #[trigger] a[i] != '/' by {
                assert(a[i] == d[i]);
            }
            lemma_find_char_absent_upto(a, '/', 0, d.len() as int);
            assert(a.subrange(0, d.len() as int) =~= d);
            assert(a.subrange(d.len() as int + 1, a.len() as int) =~= e);
            assert forall|i: int| 0 <= i < a.len() implies #[trigger] a[i] != ';' && !is_unicode_ws(a[i]) && !is_ascii_ws(a[i]) by {
                if i < d.len() {
                    assert(a[i] == d[i]);
                } else if i > d.len() {
                    assert(a[i] == e[i - d.len() - 1]);
                }
            }
        },
        None => {
            assert(a =~= d);
            lemma_find_char_absent(a, '/', 0);
            assert(a.subrange(0, a.len() as int) =~= d);
        },
    }
}

/// The words of a `PLAYER` line read back as its event, once its status
/// reads back.
#[verifier::rlimit(100)]
#[verifier::spinoff_prover]
proof fn lemma_words_player(t: Seq<char>, ws: Seq<(int, int)>, plid: PlayerId, subplid: Option<u8>, ev: PlayerEvV, boundless: bool)
    requires
        plid.wf(),
        ws.len() >= 3,
        wd(t, ws, 0) == "PLAYER"@,
        wd(t, ws, 1) == plid_tok(plid, subplid),
        player_status_v(t, ws) == Ok::<(PlayerEvV, bool), AsmErr>((ev, boundless)),
        !boundless ==> ws.len() == player_status_words(upper(wd(t, ws, 2))),
    ensures
        asm_words(t, ws) == AsmParsed::Done(seq![MwEvV::Player { plid, subplid, ev }]),
{
    lemma_op_names();
    assert(upper("PLAYER"@) =~= "PLAYER"@);
    assert("PLAYER"@[0] != "DIGITS"@[0]);
    assert("PLAYER"@[0] != "CITRES"@[0]);
    assert("PLAYER"@[0] != "STRUCT"@[0]);
    lemma_plid_tok(plid, subplid);
    assert(PlayerId::from_value(plid.value()) == plid);
}

/// Text that a line can end with: not empty, without `;` or newline, and
/// not ending with white space.
pub open spec fn line_text(s: Seq<char>) -> bool {
    &&& s.len() >= 1
    &&& forall|i: int| 0 <= i < s.len() ==> #[trigger] s[i] != ';' && s[i] != '\n'
    &&& !is_unicode_ws(s.last())
}

/// Reading a line of joined plain tokens followed by a space and a text:
/// the tokens are its first words, and the text is what follows the last of
/// them.
pub proof fn lemma_asm_line_of_join_text(toks: Seq<Seq<char>>, text: Seq<char>)
    requires
        all_plain(toks),
        toks.len() >= 1,
        line_text(text),
    ensures
        ({
            let t = join(toks) + seq![' '] + text;
            let ws = words(t);
            &&& asm_line(t + seq!['\n']) == asm_words(t, ws)
            &&& ws.len() >= toks.len()
            &&& forall|k: int| 0 <= k < toks.len() ==> #[trigger] wd(t, ws, k) == toks[k]
            &&& rest_after(t, ws, toks.len() - 1) == Some(text)
            &&& no_newline(t)
        }),
{
    lemma_join_plain(toks);
    let j = join(toks);
    let tail = seq![' '] + text;
    let t = j + tail;
    assert(t == j + seq![' '] + text);
    lemma_words_of_join(toks, tail);
    let ws = words(t);
    assert(ws == tok_words(toks) + words_from(t, j.len() as int));
    assert(ws.subrange(0, toks.len() as int) =~= tok_words(toks));
    assert forall|k: int| 0 <= k < toks.len() implies #[trigger] wd(t, ws, k) == toks[k] by {
        lemma_wd_join(toks, tail, ws, k);
    }
    assert forall|x: int| 0 <= x < t.len() implies #[trigger] t[x] != ';' by {
        if x < j.len() {
            assert(t[x] == j[x]);
        } else if x > j.len() {
            assert(t[x] == text[x - j.len() - 1]);
        }
    }
    assert(t[0] == j[0]);
    assert(t.last() == text.last());
    assert forall|x: int| 0 <= x < t.len() implies #[trigger] t[x] != '\n' by {
        if x < j.len() {
            assert(t[x] == j[x]);
        } else if x > j.len() {
            assert(t[x] == text[x - j.len() - 1]);
        }
    }
    lemma_code_part_of_line(t);
    let last = toks.len() - 1;
    assert(ws[last] == tok_words(toks)[last]);
    lemma_join_len(toks);
    assert(ws[last].1 == j.len());
    assert(t.subrange(j.len() as int + 1, t.len() as int) =~= text);
}

/// The player status names, as their characters.
proof fn lemma_status_names()
    ensures
        "JOIN"@ == seq!['J', 'O', 'I', 'N'],
        "RTT"@ == seq!['R', 'T', 'T'],
        "TIMEOUT"@ == seq!['T', 'I', 'M', 'E', 'O', 'U', 'T'],
        "EXPLODE"@ == seq!['E', 'X', 'P', 'L', 'O', 'D', 'E'],
        "LIVES"@ == seq!['L', 'I', 'V', 'E', 'S'],
        "RESUME"@ == seq!['R', 'E', 'S', 'U', 'M', 'E'],
        "PROTECT"@ == seq!['P', 'R', 'O', 'T', 'E', 'C', 'T'],
        "UNPROTECT"@ == seq!['U', 'N', 'P', 'R', 'O', 'T', 'E', 'C', 'T'],
        "ELIMINATE"@ == seq!['E', 'L', 'I', 'M', 'I', 'N', 'A', 'T', 'E'],
        "SURRENDER"@ == seq!['S', 'U', 'R', 'R', 'E', 'N', 'D', 'E', 'R'],
        "LEAVE"@ == seq!['L', 'E', 'A', 'V', 'E'],
        "KICK"@ == seq!['K', 'I', 'C', 'K'],
        "TIMELIMIT"@ == seq!['T', 'I', 'M', 'E', 'L', 'I', 'M', 'I', 'T'],
        "CHAT"@ == seq!['C', 'H', 'A', 'T'],
        "CHATALL"@ == seq!['C', 'H', 'A', 'T', 'A', 'L', 'L'],
        "VOTENEW"@ == seq!['V', 'O', 'T', 'E', 'N', 'E', 'W'],
        "VOTEFAIL"@ == seq!['V', 'O', 'T', 'E', 'F', 'A', 'I', 'L'],
        "VOTEPASS"@ == seq!['V', 'O', 'T', 'E', 'P', 'A', 'S', 'S'],
        "VOTE"@ == seq!['V', 'O', 'T', 'E'],
        "y"@ == seq!['y'],
        "Y"@ == seq!['Y'],
        "n"@ == seq!['n'],
        "N"@ == seq!['N'],
{
    reveal_strlit("JOIN");
    reveal_strlit("RTT");
    reveal_strlit("TIMEOUT");
    reveal_strlit("EXPLODE");
    reveal_strlit("LIVES");
    reveal_strlit("RESUME");
    reveal_strlit("PROTECT");
    reveal_strlit("UNPROTECT");
    reveal_strlit("ELIMINATE");
    reveal_strlit("SURRENDER");
    reveal_strlit("LEAVE");
    reveal_strlit("KICK");
    reveal_strlit("TIMELIMIT");
    reveal_strlit("CHAT");
    reveal_strlit("CHATALL");
    reveal_strlit("VOTENEW");
    reveal_strlit("VOTEFAIL");
    reveal_strlit("VOTEPASS");
    reveal_strlit("VOTE");
    reveal_strlit("y");
    reveal_strlit("Y");
    reveal_strlit("n");
    reveal_strlit("N");
}

/// The status words of a `PLAYER JOIN` line read back as the status.
#[verifier::rlimit(100)]
#[verifier::spinoff_prover]
proof fn lemma_status_joined(t: Seq<char>, ws: Seq<(int, int)>, name: Seq<char>)
    requires
        ws.len() >= 3,
        wd(t, ws, 2) == "JOIN"@,
        rest_after(t, ws, 2) == Some(name),
    ensures
        player_status_v(t, ws) == Ok::<(PlayerEvV, bool), AsmErr>((PlayerEvV::Joined { name }, true)),
{
    lemma_status_names();
    assert(upper("JOIN"@) =~= "JOIN"@);
    assert("JOIN"@[0] != "KICK"@[0]);
    assert("JOIN"@[0] != "CHAT"@[0]);
    assert("JOIN"@[0] != "VOTE"@[0]);
}

/// How the line of `PLAYER JOIN` is made of tokens.
proof fn lemma_text_player_joined(plid: PlayerId, subplid: Option<u8>, name: Seq<char>)
    ensures
        single_text(MwEvV::Player { plid, subplid, ev: PlayerEvV::Joined { name } }) == join(seq!["PLAYER"@, plid_tok(plid, subplid), "JOIN"@]) + seq![' '] + name,
        all_plain(seq!["PLAYER"@, plid_tok(plid, subplid), "JOIN"@]),
{
    reveal_strlit("PLAYER ");
    reveal_strlit("PLAYER");
    reveal_strlit("JOIN");
    reveal_strlit("/");
    reveal_strlit(" JOIN ");
    lemma_plid_tok(plid, subplid);
    let toks = seq!["PLAYER"@, plid_tok(plid, subplid), "JOIN"@];
    lemma_join3("PLAYER"@, plid_tok(plid, subplid), "JOIN"@);
    assert(single_text(MwEvV::Player { plid, subplid, ev: PlayerEvV::Joined { name } }) =~= join(toks) + seq![' '] + name);
    assert(all_plain(toks));
}

/// The line of `PLAYER JOIN` reads back as the event.
pub proof fn lemma_line_player_joined(plid: PlayerId, subplid: Option<u8>, name: Seq<char>)
    requires
        plid.wf(),
        line_text(name),
    ensures
        asm_line(single_text(MwEvV::Player { plid, subplid, ev: PlayerEvV::Joined { name } }) + seq!['\n']) == AsmParsed::Done(seq![MwEvV::Player { plid, subplid, ev: PlayerEvV::Joined { name } }]),
        no_newline(single_text(MwEvV::Player { plid, subplid, ev: PlayerEvV::Joined { name } })),
{
    lemma_text_player_joined(plid, subplid, name);
    let toks = seq!["PLAYER"@, plid_tok(plid, subplid), "JOIN"@];
    lemma_asm_line_of_join_text(toks, name);
    let t = join(toks) + seq![' '] + name;
    let ws = words(t);
    assert(wd(t, ws, 0) == toks[0]);
    assert(wd(t, ws, 1) == toks[1]);
    assert(wd(t, ws, 2) == toks[2]);
    lemma_status_joined(t, ws, name);
    lemma_words_player(t, ws, plid, subplid, PlayerEvV::Joined { name }, true);
}

/// The status words of a `PLAYER RTT` line read back as the status.
#[verifier::rlimit(100)]
#[verifier::spinoff_prover]
proof fn lemma_status_rtt(t: Seq<char>, ws: Seq<(int, int)>, duration: MwDur)
    requires
        ws.len() == 4,
        wd(t, ws, 2) == "RTT"@,
        wd(t, ws, 3) == dec_nat(dur_millis(duration.0) as nat),
    ensures
        player_status_v(t, ws) == Ok::<(PlayerEvV, bool), AsmErr>((PlayerEvV::NetRttInfo { duration }, false)),
        ws.len() == player_status_words(upper(wd(t, ws, 2))),
{
    lemma_status_names();
    lemma_dur_millis_roundtrip(duration.0);
    lemma_parse_dec_nat(dur_millis(duration.0) as nat, 0xFFFF);
    assert(upper("RTT"@) =~= "RTT"@);
}

/// How the line of `PLAYER RTT` is made of tokens.
proof fn lemma_text_player_rtt(plid: PlayerId, subplid: Option<u8>, duration: MwDur)
    ensures
        single_text(MwEvV::Player { plid, subplid, ev: PlayerEvV::NetRttInfo { duration } }) == join(seq!["PLAYER"@, plid_tok(plid, subplid), "RTT"@, dec_nat(dur_millis(duration.0) as nat)]),
        all_plain(seq!["PLAYER"@, plid_tok(plid, subplid), "RTT"@, dec_nat(dur_millis(duration.0) as nat)]),
{
    reveal_strlit("PLAYER ");
    reveal_strlit("PLAYER");
    reveal_strlit("RTT");
    reveal_strlit("/");
    reveal_strlit(" RTT ");
    lemma_plid_tok(plid, subplid);
    lemma_dur_millis_roundtrip(duration.0);
    lemma_dec_plain(dur_millis(duration.0) as nat, 0);
    let toks = seq!["PLAYER"@, plid_tok(plid, subplid), "RTT"@, dec_nat(dur_millis(duration.0) as nat)];
    lemma_join4("PLAYER"@, plid_tok(plid, subplid), "RTT"@, dec_nat(dur_millis(duration.0) as nat));
    assert(single_text(MwEvV::Player { plid, subplid, ev: PlayerEvV::NetRttInfo { duration } }) =~= join(toks));
    assert(all_plain(toks));
}

/// The line of `PLAYER RTT` reads back as the event.
pub proof fn lemma_line_player_rtt(plid: PlayerId, subplid: Option<u8>, duration: MwDur)
    requires
        plid.wf(),
    ensures
        asm_line(single_text(MwEvV::Player { plid, subplid, ev: PlayerEvV::NetRttInfo { duration } }) + seq!['\n']) == AsmParsed::Done(seq![MwEvV::Player { plid, subplid, ev: PlayerEvV::NetRttInfo { duration } }]),
        no_newline(single_text(MwEvV::Player { plid, subplid, ev: PlayerEvV::NetRttInfo { duration } })),
{
    lemma_text_player_rtt(plid, subplid, duration);
    let toks = seq!["PLAYER"@, plid_tok(plid, subplid), "RTT"@, dec_nat(dur_millis(duration.0) as nat)];
    lemma_asm_line_of_join(toks);
    let t = join(toks);
    let ws = tok_words(toks);
    assert(wd(t, ws, 0) == toks[0]);
    assert(wd(t, ws, 1) == toks[1]);
    assert(wd(t, ws, 2) == toks[2]);
    assert(wd(t, ws, 3) == toks[3]);
    lemma_status_rtt(t, ws, duration);
    lemma_words_player(t, ws, plid, subplid, PlayerEvV::NetRttInfo { duration }, false);
}

/// The status words of a `PLAYER TIMEOUT` line read back as the status.
#[verifier::rlimit(100)]
#[verifier::spinoff_prover]
proof fn lemma_status_timeout(t: Seq<char>, ws: Seq<(int, int)>, duration: MwDur)
    requires
        ws.len() == 4,
        wd(t, ws, 2) == "TIMEOUT"@,
        wd(t, ws, 3) == dec_nat(dur_millis(duration.0) as nat),
    ensures
        player_status_v(t, ws) == Ok::<(PlayerEvV, bool), AsmErr>((PlayerEvV::Timeout { duration }, false)),
        ws.len() == player_status_words(upper(wd(t, ws, 2))),
{
    lemma_status_names();
    lemma_dur_millis_roundtrip(duration.0);
    lemma_parse_dec_nat(dur_millis(duration.0) as nat, 0xFFFF);
    assert(upper("TIMEOUT"@) =~= "TIMEOUT"@);
    assert("TIMEOUT"@[0] != "EXPLODE"@[0]);
    assert("TIMEOUT"@[0] != "PROTECT"@[0]);
    assert("TIMEOUT"@[0] != "CHATALL"@[0]);
    assert("TIMEOUT"@[0] != "VOTENEW"@[0]);
}

/// How the line of `PLAYER TIMEOUT` is made of tokens.
proof fn lemma_text_player_timeout(plid: PlayerId, subplid: Option<u8>, duration: MwDur)
    ensures
        single_text(MwEvV::Player { plid, subplid, ev: PlayerEvV::Timeout { duration } }) == join(seq!["PLAYER"@, plid_tok(plid, subplid), "TIMEOUT"@, dec_nat(dur_millis(duration.0) as nat)]),
        all_plain(seq!["PLAYER"@, plid_tok(plid, subplid), "TIMEOUT"@, dec_nat(dur_millis(duration.0) as nat)]),
{
    reveal_strlit("PLAYER ");
    reveal_strlit("PLAYER");
    reveal_strlit("TIMEOUT");
    reveal_strlit("/");
    reveal_strlit(" TIMEOUT ");
    lemma_plid_tok(plid, subplid);
    lemma_dur_millis_roundtrip(duration.0);
    lemma_dec_plain(dur_millis(duration.0) as nat, 0);
    let toks = seq!["PLAYER"@, plid_tok(plid, subplid), "TIMEOUT"@, dec_nat(dur_millis(duration.0) as nat)];
    lemma_join4("PLAYER"@, plid_tok(plid, subplid), "TIMEOUT"@, dec_nat(dur_millis(duration.0) as nat));
    assert(single_text(MwEvV::Player { plid, subplid, ev: PlayerEvV::Timeout { duration } }) =~= join(toks));
    assert(all_plain(toks));
}

/// The line of `PLAYER TIMEOUT` reads back as the event.
pub proof fn lemma_line_player_timeout(plid: PlayerId, subplid: Option<u8>, duration: MwDur)
    requires
        plid.wf(),
    ensures
        asm_line(single_text(MwEvV::Player { plid, subplid, ev: PlayerEvV::Timeout { duration } }) + seq!['\n']) == AsmParsed::Done(seq![MwEvV::Player { plid, subplid, ev: PlayerEvV::Timeout { duration } }]),
        no_newline(single_text(MwEvV::Player { plid, subplid, ev: PlayerEvV::Timeout { duration } })),
{
    lemma_text_player_timeout(plid, subplid, duration);
    let toks = seq!["PLAYER"@, plid_tok(plid, subplid), "TIMEOUT"@, dec_nat(dur_millis(duration.0) as nat)];
    lemma_asm_line_of_join(toks);
    let t = join(toks);
    let ws = tok_words(toks);
    assert(wd(t, ws, 0) == toks[0]);
    assert(wd(t, ws, 1) == toks[1]);
    assert(wd(t, ws, 2) == toks[2]);
    assert(wd(t, ws, 3) == toks[3]);
    lemma_status_timeout(t, ws, duration);
    lemma_words_player(t, ws, plid, subplid, PlayerEvV::Timeout { duration }, false);
}

/// The status words of a `PLAYER RESUME` line read back as the status.
#[verifier::rlimit(100)]
#[verifier::spinoff_prover]
proof fn lemma_status_resume(t: Seq<char>, ws: Seq<(int, int)>)
    requires
        ws.len() == 3,
        wd(t, ws, 2) == "RESUME"@,
    ensures
        player_status_v(t, ws) == Ok::<(PlayerEvV, bool), AsmErr>((PlayerEvV::TimeoutFinished, false)),
        ws.len() == player_status_words(upper(wd(t, ws, 2))),
{
    lemma_status_names();
    assert(upper("RESUME"@) =~= "RESUME"@);
}

/// How the line of `PLAYER RESUME` is made of tokens.
proof fn lemma_text_player_resume(plid: PlayerId, subplid: Option<u8>)
    ensures
        single_text(MwEvV::Player { plid, subplid, ev: PlayerEvV::TimeoutFinished }) == join(seq!["PLAYER"@, plid_tok(plid, subplid), "RESUME"@]),
        all_plain(seq!["PLAYER"@, plid_tok(plid, subplid), "RESUME"@]),
{
    reveal_strlit("PLAYER ");
    reveal_strlit("PLAYER");
    reveal_strlit("RESUME");
    reveal_strlit("/");
    reveal_strlit(" RESUME");
    lemma_plid_tok(plid, subplid);
    let toks = seq!["PLAYER"@, plid_tok(plid, subplid), "RESUME"@];
    lemma_join3("PLAYER"@, plid_tok(plid, subplid), "RESUME"@);
    assert(single_text(MwEvV::Player { plid, subplid, ev: PlayerEvV::TimeoutFinished }) =~= join(toks));
    assert(all_plain(toks));
}

/// The line of `PLAYER RESUME` reads back as the event.
pub proof fn lemma_line_player_resume(plid: PlayerId, subplid: Option<u8>)
    requires
        plid.wf(),
    ensures
        asm_line(single_text(MwEvV::Player { plid, subplid, ev: PlayerEvV::TimeoutFinished }) + seq!['\n']) == AsmParsed::Done(seq![MwEvV::Player { plid, subplid, ev: PlayerEvV::TimeoutFinished }]),
        no_newline(single_text(MwEvV::Player { plid, subplid, ev: PlayerEvV::TimeoutFinished })),
{
    lemma_text_player_resume(plid, subplid);
    let toks = seq!["PLAYER"@, plid_tok(plid, subplid), "RESUME"@];
    lemma_asm_line_of_join(toks);
    let t = join(toks);
    let ws = tok_words(toks);
    assert(wd(t, ws, 0) == toks[0]);
    assert(wd(t, ws, 1) == toks[1]);
    assert(wd(t, ws, 2) == toks[2]);
    lemma_status_resume(t, ws);
    lemma_words_player(t, ws, plid, subplid, PlayerEvV::TimeoutFinished, false);
}

/// The status words of a `PLAYER EXPLODE` line read back as the status.
#[verifier::rlimit(100)]
#[verifier::spinoff_prover]
proof fn lemma_status_exploded(t: Seq<char>, ws: Seq<(int, int)>, pos: Pos, killer: PlayerId)
    requires
        killer.wf(),
        ws.len() == 5,
        wd(t, ws, 2) == "EXPLODE"@,
        wd(t, ws, 3) == pos_text(pos),
        wd(t, ws, 4) == dec_nat(killer.value() as nat),
    ensures
        player_status_v(t, ws) == Ok::<(PlayerEvV, bool), AsmErr>((PlayerEvV::Exploded { pos, killer }, false)),
        ws.len() == player_status_words(upper(wd(t, ws, 2))),
{
    lemma_status_names();
    lemma_parse_pos_text(pos);
    lemma_parse_dec_nat(killer.value() as nat, 255);
    assert(upper("EXPLODE"@) =~= "EXPLODE"@);
    assert("EXPLODE"@[0] != "TIMEOUT"@[0]);
    assert("EXPLODE"@[0] != "PROTECT"@[0]);
    assert("EXPLODE"@[0] != "CHATALL"@[0]);
    assert("EXPLODE"@[0] != "VOTENEW"@[0]);
}

/// How the line of `PLAYER EXPLODE` is made of tokens.
proof fn lemma_text_player_exploded(plid: PlayerId, subplid: Option<u8>, pos: Pos, killer: PlayerId)
    ensures
        single_text(MwEvV::Player { plid, subplid, ev: PlayerEvV::Exploded { pos, killer } }) == join(seq!["PLAYER"@, plid_tok(plid, subplid), "EXPLODE"@, pos_text(pos), dec_nat(killer.value() as nat)]),
        all_plain(seq!["PLAYER"@, plid_tok(plid, subplid), "EXPLODE"@, pos_text(pos), dec_nat(killer.value() as nat)]),
{
    reveal_strlit("PLAYER ");
    reveal_strlit("PLAYER");
    reveal_strlit("EXPLODE");
    reveal_strlit("/");
    reveal_strlit(" EXPLODE ");
    reveal_strlit(" ");
    lemma_plid_tok(plid, subplid);
    lemma_parse_pos_text(pos);
    lemma_dec_plain(killer.value() as nat, 0);
    let toks = seq!["PLAYER"@, plid_tok(plid, subplid), "EXPLODE"@, pos_text(pos), dec_nat(killer.value() as nat)];
    lemma_join5("PLAYER"@, plid_tok(plid, subplid), "EXPLODE"@, pos_text(pos), dec_nat(killer.value() as nat));
    assert(single_text(MwEvV::Player { plid, subplid, ev: PlayerEvV::Exploded { pos, killer } }) =~= join(toks));
    assert(all_plain(toks));
}

/// The line of `PLAYER EXPLODE` reads back as the event.
pub proof fn lemma_line_player_exploded(plid: PlayerId, subplid: Option<u8>, pos: Pos, killer: PlayerId)
    requires
        plid.wf(),
        killer.wf(),
    ensures
        asm_line(single_text(MwEvV::Player { plid, subplid, ev: PlayerEvV::Exploded { pos, killer } }) + seq!['\n']) == AsmParsed::Done(seq![MwEvV::Player { plid, subplid, ev: PlayerEvV::Exploded { pos, killer } }]),
        no_newline(single_text(MwEvV::Player { plid, subplid, ev: PlayerEvV::Exploded { pos, killer } })),
{
    lemma_text_player_exploded(plid, subplid, pos, killer);
    let toks = seq!["PLAYER"@, plid_tok(plid, subplid), "EXPLODE"@, pos_text(pos), dec_nat(killer.value() as nat)];
    lemma_asm_line_of_join(toks);
    let t = join(toks);
    let ws = tok_words(toks);
    assert(wd(t, ws, 0) == toks[0]);
    assert(wd(t, ws, 1) == toks[1]);
    assert(wd(t, ws, 2) == toks[2]);
    assert(wd(t, ws, 3) == toks[3]);
    assert(wd(t, ws, 4) == toks[4]);
    lemma_status_exploded(t, ws, pos, killer);
    lemma_words_player(t, ws, plid, subplid, PlayerEvV::Exploded { pos, killer }, false);
}

/// The status words of a `PLAYER LIVES` line read back as the status.
#[verifier::rlimit(100)]
#[verifier::spinoff_prover]
proof fn lemma_status_lives(t: Seq<char>, ws: Seq<(int, int)>, lives: u8)
    requires
        ws.len() == 4,
        wd(t, ws, 2) == "LIVES"@,
        wd(t, ws, 3) == dec_nat(lives as nat),
    ensures
        player_status_v(t, ws) == Ok::<(PlayerEvV, bool), AsmErr>((PlayerEvV::LivesRemain { lives }, false)),
        ws.len() == player_status_words(upper(wd(t, ws, 2))),
{
    lemma_status_names();
    lemma_parse_dec_nat(lives as nat, 255);
    assert(upper("LIVES"@) =~= "LIVES"@);
    assert("LIVES"@[1] != "LEAVE"@[1]);
}

/// How the line of `PLAYER LIVES` is made of tokens.
proof fn lemma_text_player_lives(plid: PlayerId, subplid: Option<u8>, lives: u8)
    ensures
        single_text(MwEvV::Player { plid, subplid, ev: PlayerEvV::LivesRemain { lives } }) == join(seq!["PLAYER"@, plid_tok(plid, subplid), "LIVES"@, dec_nat(lives as nat)]),
        all_plain(seq!["PLAYER"@, plid_tok(plid, subplid), "LIVES"@, dec_nat(lives as nat)]),
{
    reveal_strlit("PLAYER ");
    reveal_strlit("PLAYER");
    reveal_strlit("LIVES");
    reveal_strlit("/");
    reveal_strlit(" LIVES ");
    lemma_plid_tok(plid, subplid);
    lemma_dec_plain(lives as nat, 0);
    let toks = seq!["PLAYER"@, plid_tok(plid, subplid), "LIVES"@, dec_nat(lives as nat)];
    lemma_join4("PLAYER"@, plid_tok(plid, subplid), "LIVES"@, dec_nat(lives as nat));
    assert(single_text(MwEvV::Player { plid, subplid, ev: PlayerEvV::LivesRemain { lives } }) =~= join(toks));
    assert(all_plain(toks));
}

/// The line of `PLAYER LIVES` reads back as the event.
pub proof fn lemma_line_player_lives(plid: PlayerId, subplid: Option<u8>, lives: u8)
    requires
        plid.wf(),
    ensures
        asm_line(single_text(MwEvV::Player { plid, subplid, ev: PlayerEvV::LivesRemain { lives } }) + seq!['\n']) == AsmParsed::Done(seq![MwEvV::Player { plid, subplid, ev: PlayerEvV::LivesRemain { lives } }]),
        no_newline(single_text(MwEvV::Player { plid, subplid, ev: PlayerEvV::LivesRemain { lives } })),
{
    lemma_text_player_lives(plid, subplid, lives);
    let toks = seq!["PLAYER"@, plid_tok(plid, subplid), "LIVES"@, dec_nat(lives as nat)];
    lemma_asm_line_of_join(toks);
    let t = join(toks);
    let ws = tok_words(toks);
    assert(wd(t, ws, 0) == toks[0]);
    assert(wd(t, ws, 1) == toks[1]);
    assert(wd(t, ws, 2) == toks[2]);
    assert(wd(t, ws, 3) == toks[3]);
    lemma_status_lives(t, ws, lives);
    lemma_words_player(t, ws, plid, subplid, PlayerEvV::LivesRemain { lives }, false);
}

/// The status words of a `PLAYER PROTECT` line read back as the status.
#[verifier::rlimit(100)]
#[verifier::spinoff_prover]
proof fn lemma_status_protect(t: Seq<char>, ws: Seq<(int, int)>)
    requires
        ws.len() == 3,
        wd(t, ws, 2) == "PROTECT"@,
    ensures
        player_status_v(t, ws) == Ok::<(PlayerEvV, bool), AsmErr>((PlayerEvV::Protected, false)),
        ws.len() == player_status_words(upper(wd(t, ws, 2))),
{
    lemma_status_names();
    assert(upper("PROTECT"@) =~= "PROTECT"@);
    assert("PROTECT"@[0] != "TIMEOUT"@[0]);
    assert("PROTECT"@[0] != "EXPLODE"@[0]);
    assert("PROTECT"@[0] != "CHATALL"@[0]);
    assert("PROTECT"@[0] != "VOTENEW"@[0]);
}

/// How the line of `PLAYER PROTECT` is made of tokens.
proof fn lemma_text_player_protect(plid: PlayerId, subplid: Option<u8>)
    ensures
        single_text(MwEvV::Player { plid, subplid, ev: PlayerEvV::Protected }) == join(seq!["PLAYER"@, plid_tok(plid, subplid), "PROTECT"@]),
        all_plain(seq!["PLAYER"@, plid_tok(plid, subplid), "PROTECT"@]),
{
    reveal_strlit("PLAYER ");
    reveal_strlit("PLAYER");
    reveal_strlit("PROTECT");
    reveal_strlit("/");
    reveal_strlit(" PROTECT");
    lemma_plid_tok(plid, subplid);
    let toks = seq!["PLAYER"@, plid_tok(plid, subplid), "PROTECT"@];
    lemma_join3("PLAYER"@, plid_tok(plid, subplid), "PROTECT"@);
    assert(single_text(MwEvV::Player { plid, subplid, ev: PlayerEvV::Protected }) =~= join(toks));
    assert(all_plain(toks));
}

/// The line of `PLAYER PROTECT` reads back as the event.
pub proof fn lemma_line_player_protect(plid: PlayerId, subplid: Option<u8>)
    requires
        plid.wf(),
    ensures
        asm_line(single_text(MwEvV::Player { plid, subplid, ev: PlayerEvV::Protected }) + seq!['\n']) == AsmParsed::Done(seq![MwEvV::Player { plid, subplid, ev: PlayerEvV::Protected }]),
        no_newline(single_text(MwEvV::Player { plid, subplid, ev: PlayerEvV::Protected })),
{
    lemma_text_player_protect(plid, subplid);
    let toks = seq!["PLAYER"@, plid_tok(plid, subplid), "PROTECT"@];
    lemma_asm_line_of_join(toks);
    let t = join(toks);
    let ws = tok_words(toks);
    assert(wd(t, ws, 0) == toks[0]);
    assert(wd(t, ws, 1) == toks[1]);
    assert(wd(t, ws, 2) == toks[2]);
    lemma_status_protect(t, ws);
    lemma_words_player(t, ws, plid, subplid, PlayerEvV::Protected, false);
}

/// The status words of a `PLAYER UNPROTECT` line read back as the status.
#[verifier::rlimit(100)]
#[verifier::spinoff_prover]
proof fn lemma_status_unprotect(t: Seq<char>, ws: Seq<(int, int)>)
    requires
        ws.len() == 3,
        wd(t, ws, 2) == "UNPROTECT"@,
    ensures
        player_status_v(t, ws) == Ok::<(PlayerEvV, bool), AsmErr>((PlayerEvV::Unprotected, false)),
        ws.len() == player_status_words(upper(wd(t, ws, 2))),
{
    lemma_status_names();
    assert(upper("UNPROTECT"@) =~= "UNPROTECT"@);
    assert("UNPROTECT"@[0] != "ELIMINATE"@[0]);
    assert("UNPROTECT"@[0] != "SURRENDER"@[0]);
    assert("UNPROTECT"@[0] != "TIMELIMIT"@[0]);
}

/// How the line of `PLAYER UNPROTECT` is made of tokens.
proof fn lemma_text_player_unprotect(plid: PlayerId, subplid: Option<u8>)
    ensures
        single_text(MwEvV::Player { plid, subplid, ev: PlayerEvV::Unprotected }) == join(seq!["PLAYER"@, plid_tok(plid, subplid), "UNPROTECT"@]),
        all_plain(seq!["PLAYER"@, plid_tok(plid, subplid), "UNPROTECT"@]),
{
    reveal_strlit("PLAYER ");
    reveal_strlit("PLAYER");
    reveal_strlit("UNPROTECT");
    reveal_strlit("/");
    reveal_strlit(" UNPROTECT");
    lemma_plid_tok(plid, subplid);
    let toks = seq!["PLAYER"@, plid_tok(plid, subplid), "UNPROTECT"@];
    lemma_join3("PLAYER"@, plid_tok(plid, subplid), "UNPROTECT"@);
    assert(single_text(MwEvV::Player { plid, subplid, ev: PlayerEvV::Unprotected }) =~= join(toks));
    assert(all_plain(toks));
}

/// The line of `PLAYER UNPROTECT` reads back as the event.
pub proof fn lemma_line_player_unprotect(plid: PlayerId, subplid: Option<u8>)
    requires
        plid.wf(),
    ensures
        asm_line(single_text(MwEvV::Player { plid, subplid, ev: PlayerEvV::Unprotected }) + seq!['\n']) == AsmParsed::Done(seq![MwEvV::Player { plid, subplid, ev: PlayerEvV::Unprotected }]),
        no_newline(single_text(MwEvV::Player { plid, subplid, ev: PlayerEvV::Unprotected })),
{
    lemma_text_player_unprotect(plid, subplid);
    let toks = seq!["PLAYER"@, plid_tok(plid, subplid), "UNPROTECT"@];
    lemma_asm_line_of_join(toks);
    let t = join(toks);
    let ws = tok_words(toks);
    assert(wd(t, ws, 0) == toks[0]);
    assert(wd(t, ws, 1) == toks[1]);
    assert(wd(t, ws, 2) == toks[2]);
    lemma_status_unprotect(t, ws);
    lemma_words_player(t, ws, plid, subplid, PlayerEvV::Unprotected, false);
}

/// The status words of a `PLAYER ELIMINATE` line read back as the status.
#[verifier::rlimit(100)]
#[verifier::spinoff_prover]
proof fn lemma_status_eliminate(t: Seq<char>, ws: Seq<(int, int)>)
    requires
        ws.len() == 3,
        wd(t, ws, 2) == "ELIMINATE"@,
    ensures
        player_status_v(t, ws) == Ok::<(PlayerEvV, bool), AsmErr>((PlayerEvV::Eliminated, false)),
        ws.len() == player_status_words(upper(wd(t, ws, 2))),
{
    lemma_status_names();
    assert(upper("ELIMINATE"@) =~= "ELIMINATE"@);
    assert("ELIMINATE"@[0] != "UNPROTECT"@[0]);
    assert("ELIMINATE"@[0] != "SURRENDER"@[0]);
    assert("ELIMINATE"@[0] != "TIMELIMIT"@[0]);
}

/// How the line of `PLAYER ELIMINATE` is made of tokens.
proof fn lemma_text_player_eliminate(plid: PlayerId, subplid: Option<u8>)
    ensures
        single_text(MwEvV::Player { plid, subplid, ev: PlayerEvV::Eliminated }) == join(seq!["PLAYER"@, plid_tok(plid, subplid), "ELIMINATE"@]),
        all_plain(seq!["PLAYER"@, plid_tok(plid, subplid), "ELIMINATE"@]),
{
    reveal_strlit("PLAYER ");
    reveal_strlit("PLAYER");
    reveal_strlit("ELIMINATE");
    reveal_strlit("/");
    reveal_strlit(" ELIMINATE");
    lemma_plid_tok(plid, subplid);
    let toks = seq!["PLAYER"@, plid_tok(plid, subplid), "ELIMINATE"@];
    lemma_join3("PLAYER"@, plid_tok(plid, subplid), "ELIMINATE"@);
    assert(single_text(MwEvV::Player { plid, subplid, ev: PlayerEvV::Eliminated }) =~= join(toks));
    assert(all_plain(toks));
}

/// The line of `PLAYER ELIMINATE` reads back as the event.
pub proof fn lemma_line_player_eliminate(plid: PlayerId, subplid: Option<u8>)
    requires
        plid.wf(),
    ensures
        asm_line(single_text(MwEvV::Player { plid, subplid, ev: PlayerEvV::Eliminated }) + seq!['\n']) == AsmParsed::Done(seq![MwEvV::Player { plid, subplid, ev: PlayerEvV::Eliminated }]),
        no_newline(single_text(MwEvV::Player { plid, subplid, ev: PlayerEvV::Eliminated })),
{
    lemma_text_player_eliminate(plid, subplid);
    let toks = seq!["PLAYER"@, plid_tok(plid, subplid), "ELIMINATE"@];
    lemma_asm_line_of_join(toks);
    let t = join(toks);
    let ws = tok_words(toks);
    assert(wd(t, ws, 0) == toks[0]);
    assert(wd(t, ws, 1) == toks[1]);
    assert(wd(t, ws, 2) == toks[2]);
    lemma_status_eliminate(t, ws);
    lemma_words_player(t, ws, plid, subplid, PlayerEvV::Eliminated, false);
}

/// The status words of a `PLAYER SURRENDER` line read back as the status.
#[verifier::rlimit(100)]
#[verifier::spinoff_prover]
proof fn lemma_status_surrender(t: Seq<char>, ws: Seq<(int, int)>)
    requires
        ws.len() == 3,
        wd(t, ws, 2) == "SURRENDER"@,
    ensures
        player_status_v(t, ws) == Ok::<(PlayerEvV, bool), AsmErr>((PlayerEvV::Surrendered, false)),
        ws.len() == player_status_words(upper(wd(t, ws, 2))),
{
    lemma_status_names();
    assert(upper("SURRENDER"@) =~= "SURRENDER"@);
    assert("SURRENDER"@[0] != "UNPROTECT"@[0]);
    assert("SURRENDER"@[0] != "ELIMINATE"@[0]);
    assert("SURRENDER"@[0] != "TIMELIMIT"@[0]);
}

/// How the line of `PLAYER SURRENDER` is made of tokens.
proof fn lemma_text_player_surrender(plid: PlayerId, subplid: Option<u8>)
    ensures
        single_text(MwEvV::Player { plid, subplid, ev: PlayerEvV::Surrendered }) == join(seq!["PLAYER"@, plid_tok(plid, subplid), "SURRENDER"@]),
        all_plain(seq!["PLAYER"@, plid_tok(plid, subplid), "SURRENDER"@]),
{
    reveal_strlit("PLAYER ");
    reveal_strlit("PLAYER");
    reveal_strlit("SURRENDER");
    reveal_strlit("/");
    reveal_strlit(" SURRENDER");
    lemma_plid_tok(plid, subplid);
    let toks = seq!["PLAYER"@, plid_tok(plid, subplid), "SURRENDER"@];
    lemma_join3("PLAYER"@, plid_tok(plid, subplid), "SURRENDER"@);
    assert(single_text(MwEvV::Player { plid, subplid, ev: PlayerEvV::Surrendered }) =~= join(toks));
    assert(all_plain(toks));
}

/// The line of `PLAYER SURRENDER` reads back as the event.
pub proof fn lemma_line_player_surrender(plid: PlayerId, subplid: Option<u8>)
    requires
        plid.wf(),
    ensures
        asm_line(single_text(MwEvV::Player { plid, subplid, ev: PlayerEvV::Surrendered }) + seq!['\n']) == AsmParsed::Done(seq![MwEvV::Player { plid, subplid, ev: PlayerEvV::Surrendered }]),
        no_newline(single_text(MwEvV::Player { plid, subplid, ev: PlayerEvV::Surrendered })),
{
    lemma_text_player_surrender(plid, subplid);
    let toks = seq!["PLAYER"@, plid_tok(plid, subplid), "SURRENDER"@];
    lemma_asm_line_of_join(toks);
    let t = join(toks);
    let ws = tok_words(toks);
    assert(wd(t, ws, 0) == toks[0]);
    assert(wd(t, ws, 1) == toks[1]);
    assert(wd(t, ws, 2) == toks[2]);
    lemma_status_surrender(t, ws);
    lemma_words_player(t, ws, plid, subplid, PlayerEvV::Surrendered, false);
}

/// The status words of a `PLAYER LEAVE` line read back as the status.
#[verifier::rlimit(100)]
#[verifier::spinoff_prover]
proof fn lemma_status_leave(t: Seq<char>, ws: Seq<(int, int)>)
    requires
        ws.len() == 3,
        wd(t, ws, 2) == "LEAVE"@,
    ensures
        player_status_v(t, ws) == Ok::<(PlayerEvV, bool), AsmErr>((PlayerEvV::Disconnected, false)),
        ws.len() == player_status_words(upper(wd(t, ws, 2))),
{
    lemma_status_names();
    assert(upper("LEAVE"@) =~= "LEAVE"@);
    assert("LEAVE"@[1] != "LIVES"@[1]);
}

/// How the line of `PLAYER LEAVE` is made of tokens.
proof fn lemma_text_player_leave(plid: PlayerId, subplid: Option<u8>)
    ensures
        single_text(MwEvV::Player { plid, subplid, ev: PlayerEvV::Disconnected }) == join(seq!["PLAYER"@, plid_tok(plid, subplid), "LEAVE"@]),
        all_plain(seq!["PLAYER"@, plid_tok(plid, subplid), "LEAVE"@]),
{
    reveal_strlit("PLAYER ");
    reveal_strlit("PLAYER");
    reveal_strlit("LEAVE");
    reveal_strlit("/");
    reveal_strlit(" LEAVE");
    lemma_plid_tok(plid, subplid);
    let toks = seq!["PLAYER"@, plid_tok(plid, subplid), "LEAVE"@];
    lemma_join3("PLAYER"@, plid_tok(plid, subplid), "LEAVE"@);
    assert(single_text(MwEvV::Player { plid, subplid, ev: PlayerEvV::Disconnected }) =~= join(toks));
    assert(all_plain(toks));
}

/// The line of `PLAYER LEAVE` reads back as the event.
pub proof fn lemma_line_player_leave(plid: PlayerId, subplid: Option<u8>)
    requires
        plid.wf(),
    ensures
        asm_line(single_text(MwEvV::Player { plid, subplid, ev: PlayerEvV::Disconnected }) + seq!['\n']) == AsmParsed::Done(seq![MwEvV::Player { plid, subplid, ev: PlayerEvV::Disconnected }]),
        no_newline(single_text(MwEvV::Player { plid, subplid, ev: PlayerEvV::Disconnected })),
{
    lemma_text_player_leave(plid, subplid);
    let toks = seq!["PLAYER"@, plid_tok(plid, subplid), "LEAVE"@];
    lemma_asm_line_of_join(toks);
    let t = join(toks);
    let ws = tok_words(toks);
    assert(wd(t, ws, 0) == toks[0]);
    assert(wd(t, ws, 1) == toks[1]);
    assert(wd(t, ws, 2) == toks[2]);
    lemma_status_leave(t, ws);
    lemma_words_player(t, ws, plid, subplid, PlayerEvV::Disconnected, false);
}

/// The status words of a `PLAYER KICK` line read back as the status.
#[verifier::rlimit(100)]
#[verifier::spinoff_prover]
proof fn lemma_status_kick(t: Seq<char>, ws: Seq<(int, int)>)
    requires
        ws.len() == 3,
        wd(t, ws, 2) == "KICK"@,
    ensures
        player_status_v(t, ws) == Ok::<(PlayerEvV, bool), AsmErr>((PlayerEvV::Kicked, false)),
        ws.len() == player_status_words(upper(wd(t, ws, 2))),
{
    lemma_status_names();
    assert(upper("KICK"@) =~= "KICK"@);
    assert("KICK"@[0] != "JOIN"@[0]);
    assert("KICK"@[0] != "CHAT"@[0]);
    assert("KICK"@[0] != "VOTE"@[0]);
}

/// How the line of `PLAYER KICK` is made of tokens.
proof fn lemma_text_player_kick(plid: PlayerId, subplid: Option<u8>)
    ensures
        single_text(MwEvV::Player { plid, subplid, ev: PlayerEvV::Kicked }) == join(seq!["PLAYER"@, plid_tok(plid, subplid), "KICK"@]),
        all_plain(seq!["PLAYER"@, plid_tok(plid, subplid), "KICK"@]),
{
    reveal_strlit("PLAYER ");
    reveal_strlit("PLAYER");
    reveal_strlit("KICK");
    reveal_strlit("/");
    reveal_strlit(" KICK");
    lemma_plid_tok(plid, subplid);
    let toks = seq!["PLAYER"@, plid_tok(plid, subplid), "KICK"@];
    lemma_join3("PLAYER"@, plid_tok(plid, subplid), "KICK"@);
    assert(single_text(MwEvV::Player { plid, subplid, ev: PlayerEvV::Kicked }) =~= join(toks));
    assert(all_plain(toks));
}

/// The line of `PLAYER KICK` reads back as the event.
pub proof fn lemma_line_player_kick(plid: PlayerId, subplid: Option<u8>)
    requires
        plid.wf(),
    ensures
        asm_line(single_text(MwEvV::Player { plid, subplid, ev: PlayerEvV::Kicked }) + seq!['\n']) == AsmParsed::Done(seq![MwEvV::Player { plid, subplid, ev: PlayerEvV::Kicked }]),
        no_newline(single_text(MwEvV::Player { plid, subplid, ev: PlayerEvV::Kicked })),
{
    lemma_text_player_kick(plid, subplid);
    let toks = seq!["PLAYER"@, plid_tok(plid, subplid), "KICK"@];
    lemma_asm_line_of_join(toks);
    let t = join(toks);
    let ws = tok_words(toks);
    assert(wd(t, ws, 0) == toks[0]);
    assert(wd(t, ws, 1) == toks[1]);
    assert(wd(t, ws, 2) == toks[2]);
    lemma_status_kick(t, ws);
    lemma_words_player(t, ws, plid, subplid, PlayerEvV::Kicked, false);
}

/// The status words of a `PLAYER TIMELIMIT` line read back as the status.
#[verifier::rlimit(100)]
#[verifier::spinoff_prover]
proof fn lemma_status_timelimit(t: Seq<char>, ws: Seq<(int, int)>, secs: u16)
    requires
        ws.len() == 4,
        wd(t, ws, 2) == "TIMELIMIT"@,
        wd(t, ws, 3) == dec_nat(secs as nat),
    ensures
        player_status_v(t, ws) == Ok::<(PlayerEvV, bool), AsmErr>((PlayerEvV::MatchTimeRemain { secs }, false)),
        ws.len() == player_status_words(upper(wd(t, ws, 2))),
{
    lemma_status_names();
    lemma_parse_dec_nat(secs as nat, 0xFFFF);
    assert(upper("TIMELIMIT"@) =~= "TIMELIMIT"@);
    assert("TIMELIMIT"@[0] != "UNPROTECT"@[0]);
    assert("TIMELIMIT"@[0] != "ELIMINATE"@[0]);
    assert("TIMELIMIT"@[0] != "SURRENDER"@[0]);
}

/// How the line of `PLAYER TIMELIMIT` is made of tokens.
proof fn lemma_text_player_timelimit(plid: PlayerId, subplid: Option<u8>, secs: u16)
    ensures
        single_text(MwEvV::Player { plid, subplid, ev: PlayerEvV::MatchTimeRemain { secs } }) == join(seq!["PLAYER"@, plid_tok(plid, subplid), "TIMELIMIT"@, dec_nat(secs as nat)]),
        all_plain(seq!["PLAYER"@, plid_tok(plid, subplid), "TIMELIMIT"@, dec_nat(secs as nat)]),
{
    reveal_strlit("PLAYER ");
    reveal_strlit("PLAYER");
    reveal_strlit("TIMELIMIT");
    reveal_strlit("/");
    reveal_strlit(" TIMELIMIT ");
    lemma_plid_tok(plid, subplid);
    lemma_dec_plain(secs as nat, 0);
    let toks = seq!["PLAYER"@, plid_tok(plid, subplid), "TIMELIMIT"@, dec_nat(secs as nat)];
    lemma_join4("PLAYER"@, plid_tok(plid, subplid), "TIMELIMIT"@, dec_nat(secs as nat));
    assert(single_text(MwEvV::Player { plid, subplid, ev: PlayerEvV::MatchTimeRemain { secs } }) =~= join(toks));
    assert(all_plain(toks));
}

/// The line of `PLAYER TIMELIMIT` reads back as the event.
pub proof fn lemma_line_player_timelimit(plid: PlayerId, subplid: Option<u8>, secs: u16)
    requires
        plid.wf(),
    ensures
        asm_line(single_text(MwEvV::Player { plid, subplid, ev: PlayerEvV::MatchTimeRemain { secs } }) + seq!['\n']) == AsmParsed::Done(seq![MwEvV::Player { plid, subplid, ev: PlayerEvV::MatchTimeRemain { secs } }]),
        no_newline(single_text(MwEvV::Player { plid, subplid, ev: PlayerEvV::MatchTimeRemain { secs } })),
{
    lemma_text_player_timelimit(plid, subplid, secs);
    let toks = seq!["PLAYER"@, plid_tok(plid, subplid), "TIMELIMIT"@, dec_nat(secs as nat)];
    lemma_asm_line_of_join(toks);
    let t = join(toks);
    let ws = tok_words(toks);
    assert(wd(t, ws, 0) == toks[0]);
    assert(wd(t, ws, 1) == toks[1]);
    assert(wd(t, ws, 2) == toks[2]);
    assert(wd(t, ws, 3) == toks[3]);
    lemma_status_timelimit(t, ws, secs);
    lemma_words_player(t, ws, plid, subplid, PlayerEvV::MatchTimeRemain { secs }, false);
}

/// The status words of a `PLAYER CHATALL` line read back as the status.
#[verifier::rlimit(100)]
#[verifier::spinoff_prover]
proof fn lemma_status_chatall(t: Seq<char>, ws: Seq<(int, int)>, text: Seq<char>)
    requires
        ws.len() >= 3,
        wd(t, ws, 2) == "CHATALL"@,
        rest_after(t, ws, 2) == Some(text),
    ensures
        player_status_v(t, ws) == Ok::<(PlayerEvV, bool), AsmErr>((PlayerEvV::ChatAll { text }, true)),
{
    lemma_status_names();
    assert(upper("CHATALL"@) =~= "CHATALL"@);
    assert("CHATALL"@[0] != "TIMEOUT"@[0]);
    assert("CHATALL"@[0] != "EXPLODE"@[0]);
    assert("CHATALL"@[0] != "PROTECT"@[0]);
    assert("CHATALL"@[0] != "VOTENEW"@[0]);
}

/// How the line of `PLAYER CHATALL` is made of tokens.
proof fn lemma_text_player_chatall(plid: PlayerId, subplid: Option<u8>, text: Seq<char>)
    ensures
        single_text(MwEvV::Player { plid, subplid, ev: PlayerEvV::ChatAll { text } }) == join(seq!["PLAYER"@, plid_tok(plid, subplid), "CHATALL"@]) + seq![' '] + text,
        all_plain(seq!["PLAYER"@, plid_tok(plid, subplid), "CHATALL"@]),
{
    reveal_strlit("PLAYER ");
    reveal_strlit("PLAYER");
    reveal_strlit("CHATALL");
    reveal_strlit("/");
    reveal_strlit(" CHATALL ");
    lemma_plid_tok(plid, subplid);
    let toks = seq!["PLAYER"@, plid_tok(plid, subplid), "CHATALL"@];
    lemma_join3("PLAYER"@, plid_tok(plid, subplid), "CHATALL"@);
    assert(single_text(MwEvV::Player { plid, subplid, ev: PlayerEvV::ChatAll { text } }) =~= join(toks) + seq![' '] + text);
    assert(all_plain(toks));
}

/// The line of `PLAYER CHATALL` reads back as the event.
pub proof fn lemma_line_player_chatall(plid: PlayerId, subplid: Option<u8>, text: Seq<char>)
    requires
        plid.wf(),
        line_text(text),
    ensures
        asm_line(single_text(MwEvV::Player { plid, subplid, ev: PlayerEvV::ChatAll { text } }) + seq!['\n']) == AsmParsed::Done(seq![MwEvV::Player { plid, subplid, ev: PlayerEvV::ChatAll { text } }]),
        no_newline(single_text(MwEvV::Player { plid, subplid, ev: PlayerEvV::ChatAll { text } })),
{
    lemma_text_player_chatall(plid, subplid, text);
    let toks = seq!["PLAYER"@, plid_tok(plid, subplid), "CHATALL"@];
    lemma_asm_line_of_join_text(toks, text);
    let t = join(toks) + seq![' '] + text;
    let ws = words(t);
    assert(wd(t, ws, 0) == toks[0]);
    assert(wd(t, ws, 1) == toks[1]);
    assert(wd(t, ws, 2) == toks[2]);
    lemma_status_chatall(t, ws, text);
    lemma_words_player(t, ws, plid, subplid, PlayerEvV::ChatAll { text }, true);
}

/// The status words of a `PLAYER CHAT` line read back as the status.
#[verifier::rlimit(100)]
#[verifier::spinoff_prover]
proof fn lemma_status_chat(t: Seq<char>, ws: Seq<(int, int)>, text: Seq<char>)
    requires
        ws.len() >= 3,
        wd(t, ws, 2) == "CHAT"@,
        rest_after(t, ws, 2) == Some(text),
    ensures
        player_status_v(t, ws) == Ok::<(PlayerEvV, bool), AsmErr>((PlayerEvV::ChatFriendly { text }, true)),
{
    lemma_status_names();
    assert(upper("CHAT"@) =~= "CHAT"@);
    assert("CHAT"@[0] != "JOIN"@[0]);
    assert("CHAT"@[0] != "KICK"@[0]);
    assert("CHAT"@[0] != "VOTE"@[0]);
}

/// How the line of `PLAYER CHAT` is made of tokens.
proof fn lemma_text_player_chat(plid: PlayerId, subplid: Option<u8>, text: Seq<char>)
    ensures
        single_text(MwEvV::Player { plid, subplid, ev: PlayerEvV::ChatFriendly { text } }) == join(seq!["PLAYER"@, plid_tok(plid, subplid), "CHAT"@]) + seq![' '] + text,
        all_plain(seq!["PLAYER"@, plid_tok(plid, subplid), "CHAT"@]),
{
    reveal_strlit("PLAYER ");
    reveal_strlit("PLAYER");
    reveal_strlit("CHAT");
    reveal_strlit("/");
    reveal_strlit(" CHAT ");
    lemma_plid_tok(plid, subplid);
    let toks = seq!["PLAYER"@, plid_tok(plid, subplid), "CHAT"@];
    lemma_join3("PLAYER"@, plid_tok(plid, subplid), "CHAT"@);
    assert(single_text(MwEvV::Player { plid, subplid, ev: PlayerEvV::ChatFriendly { text } }) =~= join(toks) + seq![' '] + text);
    assert(all_plain(toks));
}

/// The line of `PLAYER CHAT` reads back as the event.
pub proof fn lemma_line_player_chat(plid: PlayerId, subplid: Option<u8>, text: Seq<char>)
    requires
        plid.wf(),
        line_text(text),
    ensures
        asm_line(single_text(MwEvV::Player { plid, subplid, ev: PlayerEvV::ChatFriendly { text } }) + seq!['\n']) == AsmParsed::Done(seq![MwEvV::Player { plid, subplid, ev: PlayerEvV::ChatFriendly { text } }]),
        no_newline(single_text(MwEvV::Player { plid, subplid, ev: PlayerEvV::ChatFriendly { text } })),
{
    lemma_text_player_chat(plid, subplid, text);
    let toks = seq!["PLAYER"@, plid_tok(plid, subplid), "CHAT"@];
    lemma_asm_line_of_join_text(toks, text);
    let t = join(toks) + seq![' '] + text;
    let ws = words(t);
    assert(wd(t, ws, 0) == toks[0]);
    assert(wd(t, ws, 1) == toks[1]);
    assert(wd(t, ws, 2) == toks[2]);
    lemma_status_chat(t, ws, text);
    lemma_words_player(t, ws, plid, subplid, PlayerEvV::ChatFriendly { text }, true);
}

/// The status words of a `PLAYER VOTENEW` line read back as the status.
#[verifier::rlimit(100)]
#[verifier::spinoff_prover]
proof fn lemma_status_votenew(t: Seq<char>, ws: Seq<(int, int)>, id: u8, l10nkey: Seq<char>)
    requires
        ws.len() >= 4,
        wd(t, ws, 2) == "VOTENEW"@,
        wd(t, ws, 3) == dec_nat(id as nat),
        rest_after(t, ws, 3) == Some(l10nkey),
    ensures
        player_status_v(t, ws) == Ok::<(PlayerEvV, bool), AsmErr>((PlayerEvV::VoteNew { id, l10nkey }, true)),
{
    lemma_status_names();
    lemma_parse_dec_nat(id as nat, 255);
    assert(upper("VOTENEW"@) =~= "VOTENEW"@);
    assert("VOTENEW"@[0] != "TIMEOUT"@[0]);
    assert("VOTENEW"@[0] != "EXPLODE"@[0]);
    assert("VOTENEW"@[0] != "PROTECT"@[0]);
    assert("VOTENEW"@[0] != "CHATALL"@[0]);
}

/// How the line of `PLAYER VOTENEW` is made of tokens.
proof fn lemma_text_player_votenew(plid: PlayerId, subplid: Option<u8>, id: u8, l10nkey: Seq<char>)
    ensures
        single_text(MwEvV::Player { plid, subplid, ev: PlayerEvV::VoteNew { id, l10nkey } }) == join(seq!["PLAYER"@, plid_tok(plid, subplid), "VOTENEW"@, dec_nat(id as nat)]) + seq![' '] + l10nkey,
        all_plain(seq!["PLAYER"@, plid_tok(plid, subplid), "VOTENEW"@, dec_nat(id as nat)]),
{
    reveal_strlit("PLAYER ");
    reveal_strlit("PLAYER");
    reveal_strlit("VOTENEW");
    reveal_strlit("/");
    reveal_strlit(" VOTENEW ");
    reveal_strlit(" ");
    lemma_plid_tok(plid, subplid);
    lemma_dec_plain(id as nat, 0);
    let toks = seq!["PLAYER"@, plid_tok(plid, subplid), "VOTENEW"@, dec_nat(id as nat)];
    lemma_join4("PLAYER"@, plid_tok(plid, subplid), "VOTENEW"@, dec_nat(id as nat));
    assert(single_text(MwEvV::Player { plid, subplid, ev: PlayerEvV::VoteNew { id, l10nkey } }) =~= join(toks) + seq![' '] + l10nkey);
    assert(all_plain(toks));
}

/// The line of `PLAYER VOTENEW` reads back as the event.
pub proof fn lemma_line_player_votenew(plid: PlayerId, subplid: Option<u8>, id: u8, l10nkey: Seq<char>)
    requires
        plid.wf(),
        line_text(l10nkey),
    ensures
        asm_line(single_text(MwEvV::Player { plid, subplid, ev: PlayerEvV::VoteNew { id, l10nkey } }) + seq!['\n']) == AsmParsed::Done(seq![MwEvV::Player { plid, subplid, ev: PlayerEvV::VoteNew { id, l10nkey } }]),
        no_newline(single_text(MwEvV::Player { plid, subplid, ev: PlayerEvV::VoteNew { id, l10nkey } })),
{
    lemma_text_player_votenew(plid, subplid, id, l10nkey);
    let toks = seq!["PLAYER"@, plid_tok(plid, subplid), "VOTENEW"@, dec_nat(id as nat)];
    lemma_asm_line_of_join_text(toks, l10nkey);
    let t = join(toks) + seq![' '] + l10nkey;
    let ws = words(t);
    assert(wd(t, ws, 0) == toks[0]);
    assert(wd(t, ws, 1) == toks[1]);
    assert(wd(t, ws, 2) == toks[2]);
    assert(wd(t, ws, 3) == toks[3]);
    lemma_status_votenew(t, ws, id, l10nkey);
    lemma_words_player(t, ws, plid, subplid, PlayerEvV::VoteNew { id, l10nkey }, true);
}

/// The status words of a `PLAYER VOTE` line read back as the status.
#[verifier::rlimit(100)]
#[verifier::spinoff_prover]
proof fn lemma_status_voteno(t: Seq<char>, ws: Seq<(int, int)>, id: u8)
    requires
        ws.len() == 5,
        wd(t, ws, 2) == "VOTE"@,
        wd(t, ws, 3) == dec_nat(id as nat),
        wd(t, ws, 4) == "N"@,
    ensures
        player_status_v(t, ws) == Ok::<(PlayerEvV, bool), AsmErr>((PlayerEvV::VoteNo { id }, false)),
        ws.len() == player_status_words(upper(wd(t, ws, 2))),
{
    lemma_status_names();
    lemma_parse_dec_nat(id as nat, 255);
    assert(upper("VOTE"@) =~= "VOTE"@);
    assert("VOTE"@[0] != "JOIN"@[0]);
    assert("VOTE"@[0] != "KICK"@[0]);
    assert("VOTE"@[0] != "CHAT"@[0]);
}

/// How the line of `PLAYER VOTE` is made of tokens.
proof fn lemma_text_player_voteno(plid: PlayerId, subplid: Option<u8>, id: u8)
    ensures
        single_text(MwEvV::Player { plid, subplid, ev: PlayerEvV::VoteNo { id } }) == join(seq!["PLAYER"@, plid_tok(plid, subplid), "VOTE"@, dec_nat(id as nat), "N"@]),
        all_plain(seq!["PLAYER"@, plid_tok(plid, subplid), "VOTE"@, dec_nat(id as nat), "N"@]),
{
    reveal_strlit("PLAYER ");
    reveal_strlit("PLAYER");
    reveal_strlit("VOTE");
    reveal_strlit("/");
    reveal_strlit(" VOTE ");
    reveal_strlit(" N");
    reveal_strlit("N");
    lemma_plid_tok(plid, subplid);
    lemma_dec_plain(id as nat, 0);
    let toks = seq!["PLAYER"@, plid_tok(plid, subplid), "VOTE"@, dec_nat(id as nat), "N"@];
    lemma_join5("PLAYER"@, plid_tok(plid, subplid), "VOTE"@, dec_nat(id as nat), "N"@);
    assert(single_text(MwEvV::Player { plid, subplid, ev: PlayerEvV::VoteNo { id } }) =~= join(toks));
    assert(all_plain(toks));
}

/// The line of `PLAYER VOTE` reads back as the event.
pub proof fn lemma_line_player_voteno(plid: PlayerId, subplid: Option<u8>, id: u8)
    requires
        plid.wf(),
    ensures
        asm_line(single_text(MwEvV::Player { plid, subplid, ev: PlayerEvV::VoteNo { id } }) + seq!['\n']) == AsmParsed::Done(seq![MwEvV::Player { plid, subplid, ev: PlayerEvV::VoteNo { id } }]),
        no_newline(single_text(MwEvV::Player { plid, subplid, ev: PlayerEvV::VoteNo { id } })),
{
    lemma_text_player_voteno(plid, subplid, id);
    let toks = seq!["PLAYER"@, plid_tok(plid, subplid), "VOTE"@, dec_nat(id as nat), "N"@];
    lemma_asm_line_of_join(toks);
    let t = join(toks);
    let ws = tok_words(toks);
    assert(wd(t, ws, 0) == toks[0]);
    assert(wd(t, ws, 1) == toks[1]);
    assert(wd(t, ws, 2) == toks[2]);
    assert(wd(t, ws, 3) == toks[3]);
    assert(wd(t, ws, 4) == toks[4]);
    lemma_status_voteno(t, ws, id);
    lemma_words_player(t, ws, plid, subplid, PlayerEvV::VoteNo { id }, false);
}

/// The status words of a `PLAYER VOTE` line read back as the status.
#[verifier::rlimit(100)]
#[verifier::spinoff_prover]
proof fn lemma_status_voteyes(t: Seq<char>, ws: Seq<(int, int)>, id: u8)
    requires
        ws.len() == 5,
        wd(t, ws, 2) == "VOTE"@,
        wd(t, ws, 3) == dec_nat(id as nat),
        wd(t, ws, 4) == "Y"@,
    ensures
        player_status_v(t, ws) == Ok::<(PlayerEvV, bool), AsmErr>((PlayerEvV::VoteYes { id }, false)),
        ws.len() == player_status_words(upper(wd(t, ws, 2))),
{
    lemma_status_names();
    lemma_parse_dec_nat(id as nat, 255);
    assert(upper("VOTE"@) =~= "VOTE"@);
    assert("VOTE"@[0] != "JOIN"@[0]);
    assert("VOTE"@[0] != "KICK"@[0]);
    assert("VOTE"@[0] != "CHAT"@[0]);
}

/// How the line of `PLAYER VOTE` is made of tokens.
proof fn lemma_text_player_voteyes(plid: PlayerId, subplid: Option<u8>, id: u8)
    ensures
        single_text(MwEvV::Player { plid, subplid, ev: PlayerEvV::VoteYes { id } }) == join(seq!["PLAYER"@, plid_tok(plid, subplid), "VOTE"@, dec_nat(id as nat), "Y"@]),
        all_plain(seq!["PLAYER"@, plid_tok(plid, subplid), "VOTE"@, dec_nat(id as nat), "Y"@]),
{
    reveal_strlit("PLAYER ");
    reveal_strlit("PLAYER");
    reveal_strlit("VOTE");
    reveal_strlit("/");
    reveal_strlit(" VOTE ");
    reveal_strlit(" Y");
    reveal_strlit("Y");
    lemma_plid_tok(plid, subplid);
    lemma_dec_plain(id as nat, 0);
    let toks = seq!["PLAYER"@, plid_tok(plid, subplid), "VOTE"@, dec_nat(id as nat), "Y"@];
    lemma_join5("PLAYER"@, plid_tok(plid, subplid), "VOTE"@, dec_nat(id as nat), "Y"@);
    assert(single_text(MwEvV::Player { plid, subplid, ev: PlayerEvV::VoteYes { id } }) =~= join(toks));
    assert(all_plain(toks));
}

/// The line of `PLAYER VOTE` reads back as the event.
pub proof fn lemma_line_player_voteyes(plid: PlayerId, subplid: Option<u8>, id: u8)
    requires
        plid.wf(),
    ensures
        asm_line(single_text(MwEvV::Player { plid, subplid, ev: PlayerEvV::VoteYes { id } }) + seq!['\n']) == AsmParsed::Done(seq![MwEvV::Player { plid, subplid, ev: PlayerEvV::VoteYes { id } }]),
        no_newline(single_text(MwEvV::Player { plid, subplid, ev: PlayerEvV::VoteYes { id } })),
{
    lemma_text_player_voteyes(plid, subplid, id);
    let toks = seq!["PLAYER"@, plid_tok(plid, subplid), "VOTE"@, dec_nat(id as nat), "Y"@];
    lemma_asm_line_of_join(toks);
    let t = join(toks);
    let ws = tok_words(toks);
    assert(wd(t, ws, 0) == toks[0]);
    assert(wd(t, ws, 1) == toks[1]);
    assert(wd(t, ws, 2) == toks[2]);
    assert(wd(t, ws, 3) == toks[3]);
    assert(wd(t, ws, 4) == toks[4]);
    lemma_status_voteyes(t, ws, id);
    lemma_words_player(t, ws, plid, subplid, PlayerEvV::VoteYes { id }, false);
}

/// The status words of a `PLAYER VOTEFAIL` line read back as the status.
#[verifier::rlimit(100)]
#[verifier::spinoff_prover]
proof fn lemma_status_votefail(t: Seq<char>, ws: Seq<(int, int)>, id: u8)
    requires
        ws.len() == 4,
        wd(t, ws, 2) == "VOTEFAIL"@,
        wd(t, ws, 3) == dec_nat(id as nat),
    ensures
        player_status_v(t, ws) == Ok::<(PlayerEvV, bool), AsmErr>((PlayerEvV::VoteFail { id }, false)),
        ws.len() == player_status_words(upper(wd(t, ws, 2))),
{
    lemma_status_names();
    lemma_parse_dec_nat(id as nat, 255);
    assert(upper("VOTEFAIL"@) =~= "VOTEFAIL"@);
    assert("VOTEFAIL"@[4] != "VOTEPASS"@[4]);
}

/// How the line of `PLAYER VOTEFAIL` is made of tokens.
proof fn lemma_text_player_votefail(plid: PlayerId, subplid: Option<u8>, id: u8)
    ensures
        single_text(MwEvV::Player { plid, subplid, ev: PlayerEvV::VoteFail { id } }) == join(seq!["PLAYER"@, plid_tok(plid, subplid), "VOTEFAIL"@, dec_nat(id as nat)]),
        all_plain(seq!["PLAYER"@, plid_tok(plid, subplid), "VOTEFAIL"@, dec_nat(id as nat)]),
{
    reveal_strlit("PLAYER ");
    reveal_strlit("PLAYER");
    reveal_strlit("VOTEFAIL");
    reveal_strlit("/");
    reveal_strlit(" VOTEFAIL ");
    lemma_plid_tok(plid, subplid);
    lemma_dec_plain(id as nat, 0);
    let toks = seq!["PLAYER"@, plid_tok(plid, subplid), "VOTEFAIL"@, dec_nat(id as nat)];
    lemma_join4("PLAYER"@, plid_tok(plid, subplid), "VOTEFAIL"@, dec_nat(id as nat));
    assert(single_text(MwEvV::Player { plid, subplid, ev: PlayerEvV::VoteFail { id } }) =~= join(toks));
    assert(all_plain(toks));
}

/// The line of `PLAYER VOTEFAIL` reads back as the event.
pub proof fn lemma_line_player_votefail(plid: PlayerId, subplid: Option<u8>, id: u8)
    requires
        plid.wf(),
    ensures
        asm_line(single_text(MwEvV::Player { plid, subplid, ev: PlayerEvV::VoteFail { id } }) + seq!['\n']) == AsmParsed::Done(seq![MwEvV::Player { plid, subplid, ev: PlayerEvV::VoteFail { id } }]),
        no_newline(single_text(MwEvV::Player { plid, subplid, ev: PlayerEvV::VoteFail { id } })),
{
    lemma_text_player_votefail(plid, subplid, id);
    let toks = seq!["PLAYER"@, plid_tok(plid, subplid), "VOTEFAIL"@, dec_nat(id as nat)];
    lemma_asm_line_of_join(toks);
    let t = join(toks);
    let ws = tok_words(toks);
    assert(wd(t, ws, 0) == toks[0]);
    assert(wd(t, ws, 1) == toks[1]);
    assert(wd(t, ws, 2) == toks[2]);
    assert(wd(t, ws, 3) == toks[3]);
    lemma_status_votefail(t, ws, id);
    lemma_words_player(t, ws, plid, subplid, PlayerEvV::VoteFail { id }, false);
}

/// The status words of a `PLAYER VOTEPASS` line read back as the status.
#[verifier::rlimit(100)]
#[verifier::spinoff_prover]
proof fn lemma_status_votepass(t: Seq<char>, ws: Seq<(int, int)>, id: u8)
    requires
        ws.len() == 4,
        wd(t, ws, 2) == "VOTEPASS"@,
        wd(t, ws, 3) == dec_nat(id as nat),
    ensures
        player_status_v(t, ws) == Ok::<(PlayerEvV, bool), AsmErr>((PlayerEvV::VotePass { id }, false)),
        ws.len() == player_status_words(upper(wd(t, ws, 2))),
{
    lemma_status_names();
    lemma_parse_dec_nat(id as nat, 255);
    assert(upper("VOTEPASS"@) =~= "VOTEPASS"@);
    assert("VOTEPASS"@[4] != "VOTEFAIL"@[4]);
}

/// How the line of `PLAYER VOTEPASS` is made of tokens.
proof fn lemma_text_player_votepass(plid: PlayerId, subplid: Option<u8>, id: u8)
    ensures
        single_text(MwEvV::Player { plid, subplid, ev: PlayerEvV::VotePass { id } }) == join(seq!["PLAYER"@, plid_tok(plid, subplid), "VOTEPASS"@, dec_nat(id as nat)]),
        all_plain(seq!["PLAYER"@, plid_tok(plid, subplid), "VOTEPASS"@, dec_nat(id as nat)]),
{
    reveal_strlit("PLAYER ");
    reveal_strlit("PLAYER");
    reveal_strlit("VOTEPASS");
    reveal_strlit("/");
    reveal_strlit(" VOTEPASS ");
    lemma_plid_tok(plid, subplid);
    lemma_dec_plain(id as nat, 0);
    let toks = seq!["PLAYER"@, plid_tok(plid, subplid), "VOTEPASS"@, dec_nat(id as nat)];
    lemma_join4("PLAYER"@, plid_tok(plid, subplid), "VOTEPASS"@, dec_nat(id as nat));
    assert(single_text(MwEvV::Player { plid, subplid, ev: PlayerEvV::VotePass { id } }) =~= join(toks));
    assert(all_plain(toks));
}

/// The line of `PLAYER VOTEPASS` reads back as the event.
pub proof fn lemma_line_player_votepass(plid: PlayerId, subplid: Option<u8>, id: u8)
    requires
        plid.wf(),
    ensures
        asm_line(single_text(MwEvV::Player { plid, subplid, ev: PlayerEvV::VotePass { id } }) + seq!['\n']) == AsmParsed::Done(seq![MwEvV::Player { plid, subplid, ev: PlayerEvV::VotePass { id } }]),
        no_newline(single_text(MwEvV::Player { plid, subplid, ev: PlayerEvV::VotePass { id } })),
{
    lemma_text_player_votepass(plid, subplid, id);
    let toks = seq!["PLAYER"@, plid_tok(plid, subplid), "VOTEPASS"@, dec_nat(id as nat)];
    lemma_asm_line_of_join(toks);
    let t = join(toks);
    let ws = tok_words(toks);
    assert(wd(t, ws, 0) == toks[0]);
    assert(wd(t, ws, 1) == toks[1]);
    assert(wd(t, ws, 2) == toks[2]);
    assert(wd(t, ws, 3) == toks[3]);
    lemma_status_votepass(t, ws, id);
    lemma_words_player(t, ws, plid, subplid, PlayerEvV::VotePass { id }, false);
}

/// What an event needs for its line to read back as it: player ids that
/// the reader takes (valid, and at most 7 for owners and flags), a tile kind
/// other than a road foundation (written as any foundation), and texts that
/// fit at the end of a line (not empty, without `;` or newline, and not
/// ending with white space).
pub open spec fn asm_roundtrips(e: MwEvV) -> bool {
    match e {
        MwEvV::Flag { plid, .. } => plid.wf() && plid.value() <= 7,
        MwEvV::TileOwner { plid, .. } => plid.wf() && plid.value() <= 7,
        MwEvV::TileKind { kind, .. } => kind != TileKind::FoundationRoad,
        MwEvV::Player { plid, ev, .. } => plid.wf() && match ev {
            PlayerEvV::Joined { name } => line_text(name),
            PlayerEvV::Exploded { killer, .. } => killer.wf(),
            PlayerEvV::ChatAll { text } => line_text(text),
            PlayerEvV::ChatFriendly { text } => line_text(text),
            PlayerEvV::VoteNew { l10nkey, .. } => line_text(l10nkey),
            _ => true,
        },
        _ => true,
    }
}

/// The line of one event that stands alone reads back as the event.
proof fn lemma_single_line(e: MwEvV)
    requires
        asm_roundtrips(e),
        !(e is DigitCapture || e is Explode || e is TileOwner),
    ensures
        asm_line(single_text(e) + seq!['\n']) == AsmParsed::Done(seq![e]),
        no_newline(single_text(e)),
{
    match e {
        MwEvV::Debug(i, pos) => lemma_line_debug(i, pos),
        MwEvV::Tremor => lemma_line_tremor(),
        MwEvV::Nop => lemma_line_nop(),
        MwEvV::Smoke { pos } => lemma_line_smoke(pos),
        MwEvV::Unsmoke { pos } => lemma_line_unsmoke(pos),
        MwEvV::StructureGone { pos } => lemma_line_structure_gone(pos),
        MwEvV::CitRes { cit, res } => lemma_line_cit_res(cit, res),
        MwEvV::CitMoney { cit, money } => lemma_line_cit_money(cit, money),
        MwEvV::CitMoneyTransact { cit, amount } => lemma_line_cit_transact(cit, amount),
        MwEvV::CitIncome { cit, money, income } => lemma_line_cit_income(cit, money, income),
        MwEvV::CitTradeInfo { cit, export, import } => lemma_line_cit_trade(cit, export, import),
        MwEvV::StructureHp { pos, hp } => lemma_line_structure_hp(pos, hp),
        MwEvV::Construction { pos, current, rate } => lemma_line_construction(pos, current, rate),
        MwEvV::Flag { plid, pos } => lemma_line_flag(plid, pos),
        MwEvV::RevealStructure { pos, kind } => lemma_line_reveal_structure(pos, kind),
        MwEvV::BuildNew { pos, kind, pts } => lemma_line_build_new(pos, kind, pts),
        MwEvV::RevealItem { pos, item } => lemma_line_reveal_item(pos, item),
        MwEvV::TileKind { pos, kind } => lemma_line_tile_kind(pos, kind),
        MwEvV::Player { plid, subplid, ev } => {
            match ev {
                PlayerEvV::Joined { name } => lemma_line_player_joined(plid, subplid, name),
                PlayerEvV::NetRttInfo { duration } => lemma_line_player_rtt(plid, subplid, duration),
                PlayerEvV::Timeout { duration } => lemma_line_player_timeout(plid, subplid, duration),
                PlayerEvV::TimeoutFinished => lemma_line_player_resume(plid, subplid),
                PlayerEvV::Exploded { pos, killer } => lemma_line_player_exploded(plid, subplid, pos, killer),
                PlayerEvV::LivesRemain { lives } => lemma_line_player_lives(plid, subplid, lives),
                PlayerEvV::Protected => lemma_line_player_protect(plid, subplid),
                PlayerEvV::Unprotected => lemma_line_player_unprotect(plid, subplid),
                PlayerEvV::Eliminated => lemma_line_player_eliminate(plid, subplid),
                PlayerEvV::Surrendered => lemma_line_player_surrender(plid, subplid),
                PlayerEvV::Disconnected => lemma_line_player_leave(plid, subplid),
                PlayerEvV::Kicked => lemma_line_player_kick(plid, subplid),
                PlayerEvV::MatchTimeRemain { secs } => lemma_line_player_timelimit(plid, subplid, secs),
                PlayerEvV::ChatAll { text } => lemma_line_player_chatall(plid, subplid, text),
                PlayerEvV::ChatFriendly { text } => lemma_line_player_chat(plid, subplid, text),
                PlayerEvV::VoteNew { id, l10nkey } => lemma_line_player_votenew(plid, subplid, id, l10nkey),
                PlayerEvV::VoteNo { id } => lemma_line_player_voteno(plid, subplid, id),
                PlayerEvV::VoteYes { id } => lemma_line_player_voteyes(plid, subplid, id),
                PlayerEvV::VoteFail { id } => lemma_line_player_votefail(plid, subplid, id),
                PlayerEvV::VotePass { id } => lemma_line_player_votepass(plid, subplid, id),
            }
        },
        _ => {},
    }
}

/// The text form read back: the line written for the events at the front
/// of a sequence reads back as the events that it took (one, or a run of
/// digits, explosions or tile owners), when the first of them can be read
/// back (see `asm_roundtrips`). The line holds no other newline than the
/// one that ends it.
pub proof fn lemma_asm_text_roundtrip(msgs: Seq<MwEvV>)
    requires
        msgs.len() >= 1,
        asm_roundtrips(msgs[0]),
    ensures
        asm_line(asm_text(msgs)) == AsmParsed::Done(msgs.subrange(0, run_len(msgs) as int)),
        no_newline(asm_text(msgs).drop_last()),
        asm_text(msgs).len() >= 1,
        asm_text(msgs).last() == '\n',
{
    let e = msgs[0];
    if e is Explode {
        lemma_line_explode(msgs);
    } else if e is DigitCapture {
        lemma_line_digits(msgs);
    } else if e is TileOwner {
        lemma_line_owner(msgs);
    } else {
        reveal_strlit("\n");
        assert(run_len(msgs) == 1);
        assert(operands(msgs, 1) =~= Seq::<char>::empty());
        assert(asm_text(msgs) =~= single_text(e) + seq!['\n']);
        assert(msgs.subrange(0, 1) =~= seq![e]);
        assert(asm_text(msgs).drop_last() =~= single_text(e));
        lemma_single_line(e);
    }
}

/// Encoding a concatenation encodes each part.
proof fn lemma_encode_concat(a: Seq<char>, b: Seq<char>)
    ensures
        encode_utf8(a + b) == encode_utf8(a) + encode_utf8(b),
    decreases a.len(),
{
    if a.len() > 0 {
        assert((a + b).drop_first() =~= a.drop_first() + b);
        assert((a + b)[0] == a[0]);
        lemma_encode_concat(a.drop_first(), b);
        assert(encode_utf8(a + b) =~= encode_utf8(a) + encode_utf8(b));
    } else {
        assert(a + b =~= b);
        assert(encode_utf8(a) =~= Seq::<u8>::empty());
        assert(encode_utf8(a) + encode_utf8(b) =~= encode_utf8(b));
    }
}

/// Only a newline is encoded with the newline byte.
proof fn lemma_scalar_bytes(c: char)
    ensures
        c != '\n' ==> forall|i: int| 0 <= i < encode_scalar(c as u32).len() ==> #[trigger] encode_scalar(c as u32)[i] != 10,
        c == '\n' ==> encode_scalar(c as u32) == seq![10u8],
{
    let v = c as u32;
    assert((v & 0x7Fu32) as u8 == 10u8 ==> v == 10u32 || v > 0x7Fu32) by (bit_vector);
    assert(v == 10u32 ==> (v & 0x7Fu32) as u8 == 10u8) by (bit_vector);
    assert((0xC0u8 | ((v >> 6u32) & 0x1Fu32) as u8) != 10u8) by (bit_vector);
    assert((0xE0u8 | ((v >> 12u32) & 0x0Fu32) as u8) != 10u8) by (bit_vector);
    assert((0xF0u8 | ((v >> 18u32) & 0x7u32) as u8) != 10u8) by (bit_vector);
    assert((0x80u8 | (v & 0x3Fu32) as u8) != 10u8) by (bit_vector);
    assert((0x80u8 | ((v >> 6u32) & 0x3Fu32) as u8) != 10u8) by (bit_vector);
    assert((0x80u8 | ((v >> 12u32) & 0x3Fu32) as u8) != 10u8) by (bit_vector);
    assert(c == '\n' ==> v == 10);
    assert(c != '\n' ==> v != 10);
}

/// A text without newlines encodes without newline bytes.
proof fn lemma_encode_no_newline(s: Seq<char>)
    requires
        no_newline(s),
    ensures
        forall|i: int| 0 <= i < encode_utf8(s).len() ==> #[trigger] encode_utf8(s)[i] != 10,
    decreases s.len(),
{
    if s.len() > 0 {
        let rest = s.drop_first();
        assert(no_newline(rest)) by {
            assert forall|x: int| 0 <= x < rest.len() implies #[trigger] rest[x] != '\n' by {
                assert(rest[x] == s[x + 1]);
            }
        }
        lemma_encode_no_newline(rest);
        lemma_scalar_bytes(s[0]);
        let head = encode_scalar(s[0] as u32);
        assert(encode_utf8(s) == head + encode_utf8(rest));
        assert forall|i: int| 0 <= i < encode_utf8(s).len() implies #[trigger] encode_utf8(s)[i] != 10 by {
            if i < head.len() {
                assert(encode_utf8(s)[i] == head[i]);
            } else {
                assert(encode_utf8(s)[i] == encode_utf8(rest)[i - head.len()]);
            }
        }
    }
}

/// Searching bytes without `b` before `j`, where `b` stands, finds `j`.
proof fn lemma_find_byte_at(data: Seq<u8>, b: u8, i: int, j: int)
    requires
        0 <= i <= j < data.len(),
        data[j] == b,
        forall|x: int| i <= x < j ==> #[trigger] data[x] != b,
    ensures
        find_byte(data, b, i) == j,
    decreases j - i,
{
    if i < j {
        lemma_find_byte_at(data, b, i + 1, j);
    }
}

/// The bytes of a line that ends with its only newline are read whole, as
/// that line.
pub proof fn lemma_read_line_bytes(s: Seq<char>)
    requires
        no_newline(s),
    ensures
        line_len(encode_utf8(s + seq!['\n'])) == encode_utf8(s + seq!['\n']).len(),
        asm_read(encode_utf8(s + seq!['\n'])) == asm_line(s + seq!['\n']),
{
    let line = s + seq!['\n'];
    let bytes = encode_utf8(line);
    lemma_encode_concat(s, seq!['\n']);
    lemma_scalar_bytes('\n');
    let nl = seq!['\n'];
    assert(nl.drop_first() =~= Seq::<char>::empty());
    assert(encode_utf8(nl.drop_first()) =~= Seq::<u8>::empty());
    assert(nl[0] == '\n');
    assert(encode_utf8(nl) == encode_scalar(nl[0] as u32) + encode_utf8(nl.drop_first()));
    assert(encode_utf8(nl) =~= seq![10u8]);
    lemma_encode_no_newline(s);
    let es = encode_utf8(s);
    assert(bytes == es + seq![10u8]);
    assert forall|x: int| 0 <= x < es.len() implies #[trigger] bytes[x] != 10 by {
        assert(bytes[x] == es[x]);
    }
    lemma_find_byte_at(bytes, 10, 0, es.len() as int);
    assert(bytes.subrange(0, bytes.len() as int) =~= bytes);
    encode_utf8_valid_utf8(line);
    encode_utf8_decode_utf8(line);
}

/// The text form read back, as bytes: when writing took some events, reading
/// the bytes written takes all of them (they are one line) and gives back
/// those events, if the first of them can be read back (see
/// `asm_roundtrips`).
pub proof fn lemma_asm_roundtrip(msgs: Seq<MwEvV>, max: nat)
    requires
        asm_encode(msgs, max).0 > 0,
        asm_roundtrips(msgs[0]),
    ensures
        line_len(asm_encode(msgs, max).1) == asm_encode(msgs, max).1.len(),
        asm_read(asm_encode(msgs, max).1) == AsmParsed::Done(msgs.subrange(0, asm_encode(msgs, max).0 as int)),
{
    lemma_asm_text_roundtrip(msgs);
    let t = asm_text(msgs);
    assert(t =~= t.drop_last() + seq!['\n']);
    lemma_read_line_bytes(t.drop_last());
}

} // verus!
