//! Reading words and numbers out of a line of text.

use vstd::prelude::*;

verus! {

broadcast use vstd::string::group_string_axioms;

/// The characters of a string.
pub fn chars_of(s: &str) -> (v: Vec<char>)
    ensures
        v@ == s@,
{
    let mut v: Vec<char> = Vec::new();
    for c in it: s.chars()
        invariant
            v@ == it.seq().subrange(0, it.index() as int),
    {
        v.push(c);
    }
    v
}

/// Unicode white space, as `char::is_whitespace` has it.
pub open spec fn is_unicode_ws(c: char) -> bool {
    ||| c == '\t' || c == '\n' || c == '\u{0B}' || c == '\u{0C}' || c == '\r' || c == ' '
    ||| c == '\u{85}' || c == '\u{A0}' || c == '\u{1680}'
    ||| ('\u{2000}' <= c && c <= '\u{200A}')
    ||| c == '\u{2028}' || c == '\u{2029}' || c == '\u{202F}' || c == '\u{205F}' || c == '\u{3000}'
}

/// ASCII white space, as `u8::is_ascii_whitespace` has it.
pub open spec fn is_ascii_ws(c: char) -> bool {
    c == '\t' || c == '\n' || c == '\u{0C}' || c == '\r' || c == ' '
}

/// A character as ASCII upper case.
pub open spec fn upper_char(c: char) -> char {
    if 'a' <= c && c <= 'z' { ((c as u32) - 32) as char } else { c }
}

/// A text as ASCII upper case.
pub open spec fn upper(s: Seq<char>) -> Seq<char> {
    s.map_values(|c: char| upper_char(c))
}

/// The index of the first occurrence of `c` in `s` at or after `i` (the
/// length when there is none).
pub open spec fn find_char_from(s: Seq<char>, c: char, i: int) -> int
    decreases s.len() - i,
{
    if i >= s.len() { s.len() as int } else if s[i] == c { i } else { find_char_from(s, c, i + 1) }
}

/// The first index at or after `i` that is not Unicode white space.
pub open spec fn skip_ws(s: Seq<char>, i: int, end: int) -> int
    decreases end - i,
{
    if i >= end { end } else if is_unicode_ws(s[i]) { skip_ws(s, i + 1, end) } else { i }
}

/// The end of `s[start..end]` without its trailing Unicode white space.
pub open spec fn trim_end(s: Seq<char>, start: int, end: int) -> int
    decreases end - start,
{
    if end <= start { start } else if is_unicode_ws(s[end - 1]) { trim_end(s, start, end - 1) } else { end }
}

/// The text before the first `;` with white space trimmed at both ends.
pub open spec fn code_part(line: Seq<char>) -> Seq<char> {
    let cut = find_char_from(line, ';', 0);
    let a = skip_ws(line, 0, cut);
    line.subrange(a, trim_end(line, a, cut))
}

/// The end of the run of non-white-space characters that starts at `i`.
pub open spec fn word_end(s: Seq<char>, i: int) -> int
    decreases s.len() - i,
{
    if i >= s.len() { s.len() as int } else if is_ascii_ws(s[i]) { i } else { word_end(s, i + 1) }
}

/// A word that starts at `i` is not empty and ends within the text.
pub proof fn lemma_word_end(s: Seq<char>, i: int)
    requires
        0 <= i < s.len(),
        !is_ascii_ws(s[i]),
    ensures
        i < word_end(s, i) <= s.len(),
    decreases s.len() - i,
{
    reveal_with_fuel(word_end, 2);
    if i + 1 < s.len() && !is_ascii_ws(s[i + 1]) {
        lemma_word_end(s, i + 1);
    }
}

/// The words of `s` from index `i` on, split at ASCII white space, as
/// (start, end) index pairs.
pub open spec fn words_from(s: Seq<char>, i: int) -> Seq<(int, int)>
    decreases s.len() - i,
{
    if i < 0 || i >= s.len() {
        seq![]
    } else if is_ascii_ws(s[i]) {
        words_from(s, i + 1)
    } else {
        let e = word_end(s, i);
        proof {
            lemma_word_end(s, i);
        }
        seq![(i, e)] + words_from(s, e)
    }
}

/// The words of a text.
pub open spec fn words(s: Seq<char>) -> Seq<(int, int)> {
    words_from(s, 0)
}

/// The value of a run of decimal digits.
pub open spec fn digits_value(d: Seq<char>) -> int
    decreases d.len(),
{
    if d.len() == 0 { 0 } else { digits_value(d.drop_last()) * 10 + (d.last() as u32 - '0' as u32) }
}

/// All characters are decimal digits.
pub open spec fn all_digits(d: Seq<char>) -> bool {
    forall|i: int| 0 <= i < d.len() ==> '0' <= #[trigger] d[i] && d[i] <= '9'
}

/// An unsigned number as `str::parse` reads it: an optional `+`, then one
/// or more decimal digits, at most `max`.
pub open spec fn parse_unsigned(s: Seq<char>, max: int) -> Option<int> {
    let d = if s.len() > 0 && s[0] == '+' { s.drop_first() } else { s };
    if d.len() > 0 && all_digits(d) && digits_value(d) <= max { Some(digits_value(d)) } else { None }
}

/// A signed number as `str::parse` reads it: an optional sign, then one or
/// more decimal digits, between `min` and `max`.
pub open spec fn parse_signed(s: Seq<char>, min: int, max: int) -> Option<int> {
    if s.len() > 0 && s[0] == '-' {
        let d = s.drop_first();
        if d.len() > 0 && all_digits(d) && -digits_value(d) >= min { Some(-digits_value(d)) } else { None }
    } else {
        match parse_unsigned(s, max) {
            Some(v) => Some(v),
            None => None,
        }
    }
}

proof fn lemma_digits_value_nonneg(d: Seq<char>)
    requires
        all_digits(d),
    ensures
        digits_value(d) >= 0,
    decreases d.len(),
{
    if d.len() > 0 {
        lemma_digits_value_nonneg(d.drop_last());
    }
}

/// Once a prefix of digits is larger than some bound, so is every longer
/// run of digits.
proof fn lemma_digits_value_grows(d: Seq<char>, k: int)
    requires
        all_digits(d),
        0 <= k <= d.len(),
    ensures
        digits_value(d.subrange(0, k)) <= digits_value(d),
    decreases d.len() - k,
{
    if k < d.len() {
        assert(d.drop_last() =~= d.subrange(0, d.len() - 1));
        lemma_digits_value_grows(d.drop_last(), k);
        assert(d.drop_last().subrange(0, k) =~= d.subrange(0, k));
        lemma_digits_value_nonneg(d.drop_last());
    } else {
        assert(d.subrange(0, k) =~= d);
    }
}

/// The value of the digits `s[from..to]`, if they are all digits and the
/// value is at most `max`.
fn digits_upto(s: &Vec<char>, from: usize, to: usize, max: u64) -> (r: Option<u64>)
    requires
        from <= to <= s@.len(),
    ensures
        ({
            let d = s@.subrange(from as int, to as int);
            match r {
                Some(v) => all_digits(d) && digits_value(d) == v && v <= max,
                None => !(all_digits(d) && digits_value(d) <= max),
            }
        }),
{
    let ghost whole = s@.subrange(from as int, to as int);
    let mut v: u64 = 0;
    let mut i: usize = from;
    while i < to
        invariant
            from <= i <= to <= s@.len(),
            whole == s@.subrange(from as int, to as int),
            all_digits(s@.subrange(from as int, i as int)),
            v == digits_value(s@.subrange(from as int, i as int)),
            v <= max,
        decreases to - i,
    {
        let c = s[i];
        if !('0' <= c && c <= '9') {
            assert(whole[i - from] == c);
            return None;
        }
        let dv = (c as u32 - '0' as u32) as u64;
        assert(s@.subrange(from as int, i + 1).drop_last() =~= s@.subrange(from as int, i as int));
        if dv > max || v > (max - dv) / 10 {
            proof {
                assert(s@.subrange(from as int, i + 1) =~= whole.subrange(0, i + 1 - from));
                assert(v * 10 + dv > max) by (nonlinear_arith)
                    requires dv > max || v > (max - dv) / 10, v >= 0, dv >= 0, dv <= 9;
                if all_digits(whole) {
                    lemma_digits_value_grows(whole, i + 1 - from);
                }
            }
            return None;
        }
        assert(v * 10 + dv <= max) by (nonlinear_arith)
            requires v <= (max - dv) / 10, dv <= max, v >= 0;
        v = v * 10 + dv;
        i = i + 1;
    }
    Some(v)
}

/// The unsigned number that the text `s[from..to]` holds (see
/// `parse_unsigned`), if any.
pub fn parse_unsigned_at(s: &Vec<char>, from: usize, to: usize, max: u64) -> (r: Option<u64>)
    requires
        from <= to <= s@.len(),
    ensures
        match parse_unsigned(s@.subrange(from as int, to as int), max as int) {
            Some(v) => r == Some(v as u64) && 0 <= v <= max,
            None => r is None,
        },
{
    let ghost t = s@.subrange(from as int, to as int);
    let start = if from < to && s[from] == '+' { from + 1 } else { from };
    assert(s@.subrange(start as int, to as int) =~= (if t.len() > 0 && t[0] == '+' { t.drop_first() } else { t }));
    if start >= to {
        return None;
    }
    match digits_upto(s, start, to, max) {
        Some(v) => {
            proof {
                lemma_digits_value_nonneg(s@.subrange(start as int, to as int));
            }
            Some(v)
        },
        None => None,
    }
}

/// The signed number that the text `s[from..to]` holds (see
/// `parse_signed`), if any.
pub fn parse_signed_at(s: &Vec<char>, from: usize, to: usize, min: i64, max: i64) -> (r: Option<i64>)
    requires
        from <= to <= s@.len(),
        min <= 0 <= max,
    ensures
        match parse_signed(s@.subrange(from as int, to as int), min as int, max as int) {
            Some(v) => r == Some(v as i64) && min <= v <= max,
            None => r is None,
        },
{
    let ghost t = s@.subrange(from as int, to as int);
    if from < to && s[from] == '-' {
        assert(s@.subrange(from + 1, to as int) =~= t.drop_first());
        if from + 1 >= to {
            return None;
        }
        let lim: u64 = (0 - (min as i128)) as u64;
        assert(lim == -min);
        match digits_upto(s, from + 1, to, lim) {
            Some(v) => {
                assert(-(v as int) >= min);
                Some((0 - (v as i128)) as i64)
            },
            None => None,
        }
    } else {
        assert(!(t.len() > 0 && t[0] == '-'));
        match parse_unsigned_at(s, from, to, max as u64) {
            Some(v) => {
                assert(parse_unsigned(t, max as int) == Some(v as int));
                assert(parse_signed(t, min as int, max as int) == Some(v as int));
                Some(v as i64)
            },
            None => {
                assert(parse_unsigned(t, max as int) is None);
                None
            },
        }
    }
}

/// Whether `s[from..to]` is, in ASCII upper case, the word `w`.
pub fn word_is(s: &Vec<char>, from: usize, to: usize, w: &Vec<char>) -> (r: bool)
    requires
        from <= to <= s@.len(),
    ensures
        r == (upper(s@.subrange(from as int, to as int)) == w@),
{
    let ghost t = s@.subrange(from as int, to as int);
    if to - from != w.len() {
        assert(upper(t).len() != w@.len());
        return false;
    }
    let mut i: usize = 0;
    while i < w.len()
        invariant
            i <= w@.len(),
            to - from == w@.len(),
            from <= to <= s@.len(),
            t == s@.subrange(from as int, to as int),
            forall|k: int| 0 <= k < i ==> upper_char(t[k]) == w@[k],
        decreases w@.len() - i,
    {
        let c = s[from + i];
        let u = if 'a' <= c && c <= 'z' { ((c as u32) - 32) as u8 as char } else { c };
        assert(u == upper_char(t[i as int])) by {
            assert(t[i as int] == c);
        }
        if u != w[i] {
            assert(upper(t)[i as int] != w@[i as int]);
            return false;
        }
        i = i + 1;
    }
    assert(upper(t) =~= w@);
    true
}

/// The words' index pairs, as integers.
pub open spec fn pairs_view(w: Seq<(usize, usize)>) -> Seq<(int, int)> {
    w.map_values(|p: (usize, usize)| (p.0 as int, p.1 as int))
}

/// Each word is a non-empty run within the text.
pub open spec fn words_in_bounds(s: Seq<char>, ws: Seq<(int, int)>) -> bool {
    forall|k: int| 0 <= k < ws.len() ==> 0 <= #[trigger] ws[k].0 < ws[k].1 <= s.len()
}

proof fn lemma_words_from_bounds(s: Seq<char>, i: int)
    requires
        0 <= i,
    ensures
        words_in_bounds(s, words_from(s, i)),
        forall|k: int| 0 <= k < words_from(s, i).len() ==> #[trigger] words_from(s, i)[k].0 >= i,
    decreases s.len() - i,
{
    if i < s.len() {
        if is_ascii_ws(s[i]) {
            lemma_words_from_bounds(s, i + 1);
        } else {
            let e = word_end(s, i);
            lemma_word_end(s, i);
            lemma_words_from_bounds(s, e);
            let rest = words_from(s, e);
            assert forall|k: int| 0 <= k < words_from(s, i).len() implies 0 <= #[trigger] words_from(s, i)[k].0 < words_from(s, i)[k].1 <= s.len()
                && words_from(s, i)[k].0 >= i by {
                if k > 0 {
                    assert(words_from(s, i)[k] == rest[k - 1]);
                }
            }
        }
    }
}

/// The words of a text are non-empty runs within it.
pub proof fn lemma_words_bounds(s: Seq<char>)
    ensures
        words_in_bounds(s, words(s)),
{
    lemma_words_from_bounds(s, 0);
}

/// The index pairs of the words of a text (see `words`).
pub fn words_of(t: &Vec<char>) -> (r: Vec<(usize, usize)>)
    ensures
        pairs_view(r@) == words(t@),
        words_in_bounds(t@, pairs_view(r@)),
{
    let n = t.len();
    let mut r: Vec<(usize, usize)> = Vec::new();
    let mut i: usize = 0;
    assert(pairs_view(r@) + words_from(t@, 0) =~= words(t@));
    while i < n
        invariant
            i <= n,
            n == t@.len(),
            pairs_view(r@) + words_from(t@, i as int) == words(t@),
        decreases n - i,
    {
        if t[i] == ' ' || t[i] == '\t' || t[i] == '\n' || t[i] == '\u{0C}' || t[i] == '\r' {
            i = i + 1;
        } else {
            let mut j: usize = i + 1;
            proof {
                lemma_word_end(t@, i as int);
            }
            while j < n && !(t[j] == ' ' || t[j] == '\t' || t[j] == '\n' || t[j] == '\u{0C}' || t[j] == '\r')
                invariant
                    i < j <= n,
                    n == t@.len(),
                    word_end(t@, i as int) == word_end(t@, j as int),
                decreases n - j,
            {
                j = j + 1;
            }
            let ghost before = pairs_view(r@);
            r.push((i, j));
            assert(pairs_view(r@) =~= before.push((i as int, j as int)));
            assert(words_from(t@, i as int) =~= seq![(i as int, j as int)] + words_from(t@, j as int));
            assert(pairs_view(r@) + words_from(t@, j as int) =~= before + words_from(t@, i as int));
            i = j;
        }
    }
    assert(pairs_view(r@) + words_from(t@, i as int) =~= pairs_view(r@));
    proof {
        lemma_words_bounds(t@);
    }
    r
}

/// The bounds of the text before the first `;`, trimmed (see `code_part`).
pub fn code_bounds(s: &Vec<char>) -> (r: (usize, usize))
    ensures
        r.0 <= r.1 <= s@.len(),
        s@.subrange(r.0 as int, r.1 as int) == code_part(s@),
{
    let n = s.len();
    let mut cut: usize = 0;
    while cut < n && s[cut] != ';'
        invariant
            cut <= n,
            n == s@.len(),
            find_char_from(s@, ';', 0) == find_char_from(s@, ';', cut as int),
        decreases n - cut,
    {
        cut = cut + 1;
    }
    let mut a: usize = 0;
    while a < cut && is_ws(s[a])
        invariant
            a <= cut <= n,
            n == s@.len(),
            skip_ws(s@, 0, cut as int) == skip_ws(s@, a as int, cut as int),
        decreases cut - a,
    {
        a = a + 1;
    }
    let mut b: usize = cut;
    while b > a && is_ws(s[b - 1])
        invariant
            a <= b <= cut <= n,
            n == s@.len(),
            trim_end(s@, a as int, cut as int) == trim_end(s@, a as int, b as int),
        decreases b,
    {
        b = b - 1;
    }
    (a, b)
}

/// Whether a character is Unicode white space (see `is_unicode_ws`).
pub fn is_ws(c: char) -> (r: bool)
    ensures
        r == is_unicode_ws(c),
{
    c == '\t' || c == '\n' || c == '\u{0B}' || c == '\u{0C}' || c == '\r' || c == ' '
        || c == '\u{85}' || c == '\u{A0}' || c == '\u{1680}'
        || ('\u{2000}' <= c && c <= '\u{200A}')
        || c == '\u{2028}' || c == '\u{2029}' || c == '\u{202F}' || c == '\u{205F}' || c == '\u{3000}'
}

/// A copy of `s[from..to]`.
pub fn sub_chars(s: &Vec<char>, from: usize, to: usize) -> (r: Vec<char>)
    requires
        from <= to <= s@.len(),
    ensures
        r@ == s@.subrange(from as int, to as int),
{
    let mut r: Vec<char> = Vec::new();
    let mut i: usize = from;
    while i < to
        invariant
            from <= i <= to <= s@.len(),
            r@ == s@.subrange(from as int, i as int),
        decreases to - i,
    {
        r.push(s[i]);
        i = i + 1;
        assert(r@ =~= s@.subrange(from as int, i as int));
    }
    r
}

/// The index of the first `c` in `s[from..to]` (`to` if none).
pub fn find_char(s: &Vec<char>, c: char, from: usize, to: usize) -> (r: usize)
    requires
        from <= to <= s@.len(),
    ensures
        from <= r <= to,
        find_char_from(s@.subrange(from as int, to as int), c, 0) == r - from,
{
    let ghost t = s@.subrange(from as int, to as int);
    let mut i: usize = from;
    while i < to && s[i] != c
        invariant
            from <= i <= to <= s@.len(),
            t == s@.subrange(from as int, to as int),
            find_char_from(t, c, 0) == find_char_from(t, c, i - from),
        decreases to - i,
    {
        i = i + 1;
    }
    i
}

/// Searching from `i` is searching the text from `i` on, offset by `i`.
pub proof fn lemma_find_char_from_offset(s: Seq<char>, c: char, i: int)
    requires
        0 <= i <= s.len(),
    ensures
        find_char_from(s, c, i) == i + find_char_from(s.subrange(i, s.len() as int), c, 0),
{
    lemma_find_char_from_offset_at(s, c, i, 0);
}

proof fn lemma_find_char_from_offset_at(s: Seq<char>, c: char, i: int, j: int)
    requires
        0 <= i <= s.len(),
        0 <= j <= s.len() - i,
    ensures
        find_char_from(s, c, i + j) == i + find_char_from(s.subrange(i, s.len() as int), c, j),
    decreases s.len() - i - j,
{
    let t = s.subrange(i, s.len() as int);
    if j < t.len() {
        assert(t[j] == s[i + j]);
        if s[i + j] != c {
            lemma_find_char_from_offset_at(s, c, i, j + 1);
        }
    }
}

} // verus!
