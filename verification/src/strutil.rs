//! Verified string utilities: equality, substring search, prefix tests,
//! decimal formatting and parsing. Contracts are stated over `Seq<char>`
//! views.

use vstd::prelude::*;

verus! {

/// `n` occurs in `h` starting at position `k`.
pub open spec fn contains_at(h: Seq<char>, n: Seq<char>, k: int) -> bool {
    0 <= k && k + n.len() <= h.len() && h.subrange(k, k + n.len() as int) == n
}

/// `n` occurs somewhere in `h` as a contiguous run.
pub open spec fn spec_contains(h: Seq<char>, n: Seq<char>) -> bool {
    exists|k: int| contains_at(h, n, k)
}

/// `h` begins with `n`.
pub open spec fn spec_starts_with(h: Seq<char>, n: Seq<char>) -> bool {
    n.len() <= h.len() && h.subrange(0, n.len() as int) == n
}

/// Character-by-character equality test for string slices.
pub fn str_eq_str(a: &str, b: &str) -> (r: bool)
    ensures
        r == (a@ == b@),
{
    let alen = a.unicode_len();
    let blen = b.unicode_len();
    if alen != blen {
        return false;
    }
    let mut i: usize = 0;
    while i < alen
        invariant
            alen == a@.len(),
            alen == b@.len(),
            i <= alen,
            forall|j: int| 0 <= j < i ==> a@[j] == b@[j],
        decreases alen - i,
    {
        if a.get_char(i) != b.get_char(i) {
            return false;
        }
        i += 1;
    }
    proof {
        assert(a@ =~= b@);
    }
    true
}

/// Does `n` occur in `h` beginning at position `k`?
fn matches_at(h: &str, n: &str, k: usize) -> (r: bool)
    requires
        k + n@.len() <= h@.len(),
    ensures
        r == contains_at(h@, n@, k as int),
{
    let hlen = h.unicode_len();
    let nlen = n.unicode_len();
    let mut i: usize = 0;
    while i < nlen
        invariant
            hlen == h@.len(),
            nlen == n@.len(),
            k + nlen <= hlen,
            i <= nlen,
            forall|j: int| 0 <= j < i ==> h@[k + j] == n@[j],
        decreases nlen - i,
    {
        if h.get_char(k + i) != n.get_char(i) {
            proof {
                let sub = h@.subrange(k as int, k + n@.len());
                assert(sub[i as int] == h@[k + i]);
            }
            return false;
        }
        i += 1;
    }
    proof {
        assert(h@.subrange(k as int, k + n@.len()) =~= n@);
    }
    true
}

/// Substring search; `r` holds exactly when `n@` occurs in `h@`.
pub fn str_contains(h: &str, n: &str) -> (r: bool)
    ensures
        r == spec_contains(h@, n@),
{
    let hlen = h.unicode_len();
    let nlen = n.unicode_len();
    if nlen > hlen {
        return false;
    }
    if nlen == 0 {
        proof {
            assert(contains_at(h@, n@, 0)) by {
                assert(h@.subrange(0, 0) =~= n@);
            }
        }
        return true;
    }
    let mut k: usize = 0;
    while k <= hlen - nlen
        invariant
            hlen == h@.len(),
            nlen == n@.len(),
            1 <= nlen <= hlen,
            k <= hlen - nlen + 1,
            forall|j: int| 0 <= j < k ==> !contains_at(h@, n@, j),
        decreases hlen - nlen + 1 - k,
    {
        if matches_at(h, n, k) {
            return true;
        }
        k += 1;
    }
    proof {
        assert(forall|j: int| j > hlen - nlen ==> !contains_at(h@, n@, j));
    }
    false
}

/// Prefix test; `r` holds exactly when `h@` begins with `n@`.
pub fn str_starts_with(h: &str, n: &str) -> (r: bool)
    ensures
        r == spec_starts_with(h@, n@),
{
    let hlen = h.unicode_len();
    let nlen = n.unicode_len();
    if nlen > hlen {
        return false;
    }
    matches_at(h, n, 0)
}

/// The character for one decimal digit.
pub open spec fn digit_char(d: int) -> char
    recommends
        0 <= d < 10,
{
    if d == 0 {
        '0'
    } else if d == 1 {
        '1'
    } else if d == 2 {
        '2'
    } else if d == 3 {
        '3'
    } else if d == 4 {
        '4'
    } else if d == 5 {
        '5'
    } else if d == 6 {
        '6'
    } else if d == 7 {
        '7'
    } else if d == 8 {
        '8'
    } else {
        '9'
    }
}

/// The decimal representation of `n`, most significant digit first, with no
/// leading zeros (a single `'0'` for zero).
pub open spec fn spec_dec(n: nat) -> Seq<char>
    decreases n,
{
    if n < 10 {
        seq![digit_char(n as int)]
    } else {
        spec_dec(n / 10) + seq![digit_char((n % 10) as int)]
    }
}

fn digit_str(d: u64) -> (r: &'static str)
    requires
        d < 10,
    ensures
        r@ == seq![digit_char(d as int)],
{
    if d == 0 {
        proof {
            reveal_strlit("0");
            assert("0"@ =~= seq![digit_char(0)]);
        }
        "0"
    } else if d == 1 {
        proof {
            reveal_strlit("1");
            assert("1"@ =~= seq![digit_char(1)]);
        }
        "1"
    } else if d == 2 {
        proof {
            reveal_strlit("2");
            assert("2"@ =~= seq![digit_char(2)]);
        }
        "2"
    } else if d == 3 {
        proof {
            reveal_strlit("3");
            assert("3"@ =~= seq![digit_char(3)]);
        }
        "3"
    } else if d == 4 {
        proof {
            reveal_strlit("4");
            assert("4"@ =~= seq![digit_char(4)]);
        }
        "4"
    } else if d == 5 {
        proof {
            reveal_strlit("5");
            assert("5"@ =~= seq![digit_char(5)]);
        }
        "5"
    } else if d == 6 {
        proof {
            reveal_strlit("6");
            assert("6"@ =~= seq![digit_char(6)]);
        }
        "6"
    } else if d == 7 {
        proof {
            reveal_strlit("7");
            assert("7"@ =~= seq![digit_char(7)]);
        }
        "7"
    } else if d == 8 {
        proof {
            reveal_strlit("8");
            assert("8"@ =~= seq![digit_char(8)]);
        }
        "8"
    } else {
        proof {
            reveal_strlit("9");
            assert("9"@ =~= seq![digit_char(9)]);
        }
        "9"
    }
}

/// Formats `v` in decimal.
pub fn u64_to_dec_string(v: u64) -> (r: String)
    ensures
        r@ == spec_dec(v as nat),
    decreases v,
{
    if v < 10 {
        let mut s = String::new();
        s.append(digit_str(v));
        proof {
            assert(s@ =~= spec_dec(v as nat));
        }
        s
    } else {
        let mut s = u64_to_dec_string(v / 10);
        s.append(digit_str(v % 10));
        proof {
            assert(s@ =~= spec_dec(v as nat));
        }
        s
    }
}

/// Formats `v` in decimal.
pub fn u32_to_dec_string(v: u32) -> (r: String)
    ensures
        r@ == spec_dec(v as nat),
{
    u64_to_dec_string(v as u64)
}

/// The decimal representation of a signed value: a minus sign before the
/// magnitude for negative values.
pub open spec fn spec_dec_i32(v: i32) -> Seq<char> {
    if v >= 0 {
        spec_dec(v as nat)
    } else {
        seq!['-'] + spec_dec((-(v as int)) as nat)
    }
}

/// Formats `v` in decimal, with a sign when negative.
pub fn i32_to_dec_string(v: i32) -> (r: String)
    ensures
        r@ == spec_dec_i32(v),
{
    if v >= 0 {
        u64_to_dec_string(v as u64)
    } else {
        let mag = (-(v as i64)) as u64;
        let mut s = String::from_str("-");
        let digits = u64_to_dec_string(mag);
        s.append(digits.as_str());
        proof {
            reveal_strlit("-");
            assert(s@ =~= spec_dec_i32(v));
        }
        s
    }
}

/// `c` is an ASCII decimal digit.
pub open spec fn is_dec_digit(c: char) -> bool {
    48 <= c as u32 <= 57
}

/// The numeric value of a digit character.
pub open spec fn digit_val(c: char) -> nat
    recommends
        is_dec_digit(c),
{
    (c as u32 - 48) as nat
}

/// Every character of `s` is a decimal digit.
pub open spec fn all_dec_digits(s: Seq<char>) -> bool {
    forall|i: int| 0 <= i < s.len() ==> is_dec_digit(#[trigger] s[i])
}

/// The numeric value of a digit string, most significant digit first.
pub open spec fn dec_val(s: Seq<char>) -> nat
    decreases s.len(),
{
    if s.len() == 0 {
        0
    } else {
        dec_val(s.drop_last()) * 10 + digit_val(s.last())
    }
}

proof fn lemma_dec_val_take_monotone(s: Seq<char>, i: int)
    requires
        0 <= i <= s.len(),
    ensures
        dec_val(s.take(i)) <= dec_val(s),
    decreases s.len() - i,
{
    if i == s.len() {
        assert(s.take(i) =~= s);
    } else {
        assert(s.take(i + 1).drop_last() =~= s.take(i));
        assert(s.take(i + 1).last() == s[i]);
        lemma_dec_val_take_monotone(s, i + 1);
    }
}

/// Parses a non-empty, all-digit string as a `u64`; rejects anything else,
/// including values that do not fit.
pub fn parse_u64_digits(s: &str) -> (r: Option<u64>)
    ensures
        match r {
            Some(v) => s@.len() > 0 && all_dec_digits(s@) && v as nat == dec_val(s@),
            None => s@.len() == 0 || !all_dec_digits(s@) || dec_val(s@) > u64::MAX,
        },
{
    let len = s.unicode_len();
    if len == 0 {
        return None;
    }
    let mut acc: u64 = 0;
    let mut i: usize = 0;
    while i < len
        invariant
            len == s@.len(),
            i <= len,
            forall|j: int| 0 <= j < i ==> is_dec_digit(#[trigger] s@[j]),
            acc as nat == dec_val(s@.take(i as int)),
        decreases len - i,
    {
        let c = s.get_char(i);
        let code = c as u32;
        if code < 48 || code > 57 {
            return None;
        }
        let d = (code - 48) as u64;
        proof {
            assert(s@.take(i + 1).drop_last() =~= s@.take(i as int));
            assert(s@.take(i + 1).last() == s@[i as int]);
        }
        let shifted = match acc.checked_mul(10) {
            Some(t) => t,
            None => {
                proof {
                    lemma_dec_val_take_monotone(s@, i + 1);
                }
                return None;
            },
        };
        acc = match shifted.checked_add(d) {
            Some(t) => t,
            None => {
                proof {
                    lemma_dec_val_take_monotone(s@, i + 1);
                }
                return None;
            },
        };
        i += 1;
    }
    proof {
        assert(s@.take(len as int) =~= s@);
    }
    Some(acc)
}

/// Index of the first separator character in `s`, or `s.len()` when none
/// occurs.
pub open spec fn first_sep(s: Seq<char>, is_sep: spec_fn(char) -> bool) -> nat
    decreases s.len(),
{
    if s.len() == 0 {
        0
    } else if is_sep(s[0]) {
        0
    } else {
        1 + first_sep(s.drop_first(), is_sep)
    }
}

/// When the first `k` characters are not separators and position `k` is a
/// separator (or the end), `k` is the first-separator index.
pub proof fn lemma_first_sep_at(s: Seq<char>, is_sep: spec_fn(char) -> bool, k: int)
    requires
        0 <= k <= s.len(),
        forall|j: int| 0 <= j < k ==> !is_sep(#[trigger] s[j]),
        k < s.len() ==> is_sep(s[k]),
    ensures
        first_sep(s, is_sep) == k,
    decreases s.len(),
{
    if s.len() == 0 {
    } else if is_sep(s[0]) {
    } else {
        assert(forall|j: int|
            0 <= j < k - 1 ==> s.drop_first()[j] == s[j + 1] && !is_sep(#[trigger] s.drop_first()[j]));
        lemma_first_sep_at(s.drop_first(), is_sep, k - 1);
    }
}

/// `s` split at every separator character: the separator-free runs between
/// separators, in order, empties included.
pub open spec fn spec_split_p(s: Seq<char>, is_sep: spec_fn(char) -> bool) -> Seq<Seq<char>>
    decreases s.len(),
{
    let i = first_sep(s, is_sep);
    if i >= s.len() {
        seq![s]
    } else {
        seq![s.take(i as int)] + spec_split_p(s.skip(i as int + 1), is_sep)
    }
}

pub open spec fn sep_is(sep: char) -> spec_fn(char) -> bool {
    |c: char| c == sep
}

/// `s` split at every occurrence of `sep`.
pub open spec fn spec_split(s: Seq<char>, sep: char) -> Seq<Seq<char>> {
    spec_split_p(s, sep_is(sep))
}

proof fn lemma_split_p_step(s: Seq<char>, is_sep: spec_fn(char) -> bool, start: int, k: int)
    requires
        0 <= start <= k <= s.len(),
        forall|j: int| start <= j < k ==> !is_sep(#[trigger] s[j]),
        k < s.len() ==> is_sep(s[k]),
    ensures
        k == s.len() ==> spec_split_p(s.skip(start), is_sep) == seq![s.skip(start)],
        k < s.len() ==> spec_split_p(s.skip(start), is_sep) == seq![s.subrange(start, k)]
            + spec_split_p(s.skip(k + 1), is_sep),
{
    let t = s.skip(start);
    assert(forall|j: int| 0 <= j < k - start ==> t[j] == s[j + start] && !is_sep(#[trigger] t[j]));
    lemma_first_sep_at(t, is_sep, k - start);
    if k < s.len() {
        assert(t.take(k - start) =~= s.subrange(start, k));
        assert(t.skip(k - start + 1) =~= s.skip(k + 1));
    }
}

/// Splits `s` at every occurrence of `sep`, empties included.
pub fn split_str(s: &str, sep: char) -> (r: Vec<String>)
    ensures
        r@.map_values(|t: String| t@) == spec_split(s@, sep),
{
    let len = s.unicode_len();
    let mut parts: Vec<String> = Vec::new();
    proof {
        assert(s@.skip(0) =~= s@);
        assert(parts@.map_values(|t: String| t@) + spec_split_p(s@, sep_is(sep))
            =~= spec_split_p(s@, sep_is(sep)));
    }
    let mut start: usize = 0;
    let mut i: usize = 0;
    while i < len
        invariant
            len == s@.len(),
            start <= i <= len,
            forall|j: int| start <= j < i ==> !sep_is(sep)(#[trigger] s@[j]),
            spec_split(s@, sep) == parts@.map_values(|t: String| t@)
                + spec_split_p(s@.skip(start as int), sep_is(sep)),
        decreases len - i,
    {
        if s.get_char(i) == sep {
            let piece = String::from_str(s.substring_char(start, i));
            proof {
                lemma_split_p_step(s@, sep_is(sep), start as int, i as int);
                assert((parts@.push(piece)).map_values(|t: String| t@)
                    =~= parts@.map_values(|t: String| t@).push(piece@));
                assert(parts@.map_values(|t: String| t@).push(piece@)
                    + spec_split_p(s@.skip(i + 1), sep_is(sep))
                    =~= parts@.map_values(|t: String| t@)
                    + (seq![s@.subrange(start as int, i as int)]
                        + spec_split_p(s@.skip(i + 1), sep_is(sep))));
            }
            parts.push(piece);
            start = i + 1;
        }
        i += 1;
    }
    let piece = String::from_str(s.substring_char(start, len));
    proof {
        lemma_split_p_step(s@, sep_is(sep), start as int, len as int);
        assert(s@.skip(start as int) =~= s@.subrange(start as int, len as int));
        assert((parts@.push(piece)).map_values(|t: String| t@)
            =~= parts@.map_values(|t: String| t@).push(piece@));
        assert(parts@.map_values(|t: String| t@).push(piece@)
            =~= parts@.map_values(|t: String| t@) + seq![s@.skip(start as int)]);
    }
    parts.push(piece);
    parts
}

/// A line with one trailing carriage return removed.
pub open spec fn strip_cr(l: Seq<char>) -> Seq<char> {
    if l.len() > 0 && l.last() == '\r' {
        l.drop_last()
    } else {
        l
    }
}

/// The lines of `s`: pieces between newlines, with one carriage return
/// stripped before each newline, and no final empty piece when `s` ends in a
/// newline.
pub open spec fn spec_lines(s: Seq<char>) -> Seq<Seq<char>> {
    if s.len() == 0 {
        Seq::empty()
    } else {
        let raw = spec_split(s, '\n');
        if s.last() == '\n' {
            raw.drop_last().map_values(|l: Seq<char>| strip_cr(l))
        } else {
            raw.drop_last().map_values(|l: Seq<char>| strip_cr(l)).push(raw.last())
        }
    }
}

fn strip_cr_exec(t: &String) -> (r: String)
    ensures
        r@ == strip_cr(t@),
{
    let len = t.as_str().unicode_len();
    if len > 0 && t.as_str().get_char(len - 1) == '\r' {
        let r = String::from_str(t.as_str().substring_char(0, len - 1));
        proof {
            assert(t@.subrange(0, len - 1) =~= t@.drop_last());
        }
        r
    } else {
        t.clone()
    }
}

/// Splits `s` into lines, as `spec_lines` describes.
pub fn lines_str(s: &str) -> (r: Vec<String>)
    ensures
        r@.map_values(|t: String| t@) == spec_lines(s@),
{
    let len = s.unicode_len();
    let mut out: Vec<String> = Vec::new();
    if len == 0 {
        proof {
            assert(out@.map_values(|t: String| t@) =~= spec_lines(s@));
        }
        return out;
    }
    let raw = split_str(s, '\n');
    let ghost rawspec = spec_split(s@, '\n');
    let last_is_nl = s.get_char(len - 1) == '\n';
    proof {
        assert(raw@.map_values(|t: String| t@).len() == raw@.len());
    }
    let stop = raw.len() - 1;
    let mut i: usize = 0;
    while i < stop
        invariant
            raw@.map_values(|t: String| t@) == rawspec,
            stop == raw@.len() - 1,
            i <= stop,
            out@.map_values(|t: String| t@)
                == rawspec.drop_last().map_values(|l: Seq<char>| strip_cr(l)).take(i as int),
        decreases stop - i,
    {
        let piece = strip_cr_exec(&raw[i]);
        proof {
            let mapped = rawspec.drop_last().map_values(|l: Seq<char>| strip_cr(l));
            assert(rawspec.drop_last()[i as int] == raw@[i as int]@);
            assert((out@.push(piece)).map_values(|t: String| t@)
                =~= out@.map_values(|t: String| t@).push(piece@));
            assert(out@.map_values(|t: String| t@).push(piece@) =~= mapped.take(i + 1));
        }
        out.push(piece);
        i += 1;
    }
    proof {
        assert(rawspec.drop_last().map_values(|l: Seq<char>| strip_cr(l)).take(stop as int)
            =~= rawspec.drop_last().map_values(|l: Seq<char>| strip_cr(l)));
    }
    if !last_is_nl {
        let piece = raw[stop].clone();
        proof {
            assert(rawspec.last() == raw@[stop as int]@);
            assert((out@.push(piece)).map_values(|t: String| t@)
                =~= out@.map_values(|t: String| t@).push(piece@));
        }
        out.push(piece);
    }
    out
}

/// `c` is an ASCII whitespace character.
pub open spec fn is_ws(c: char) -> bool {
    c == ' ' || c == '\t' || c == '\n' || c == '\r'
}

pub open spec fn ws_pred() -> spec_fn(char) -> bool {
    |c: char| is_ws(c)
}

pub open spec fn nonempty_piece() -> spec_fn(Seq<char>) -> bool {
    |t: Seq<char>| t.len() > 0
}

/// The whitespace-separated tokens of `s`, in order.
pub open spec fn spec_tokens(s: Seq<char>) -> Seq<Seq<char>> {
    spec_split_p(s, ws_pred()).filter(nonempty_piece())
}

/// Splits `s` at every whitespace character, empties included.
fn split_ws(s: &str) -> (r: Vec<String>)
    ensures
        r@.map_values(|t: String| t@) == spec_split_p(s@, ws_pred()),
{
    let len = s.unicode_len();
    let mut parts: Vec<String> = Vec::new();
    proof {
        assert(s@.skip(0) =~= s@);
        assert(parts@.map_values(|t: String| t@) + spec_split_p(s@, ws_pred())
            =~= spec_split_p(s@, ws_pred()));
    }
    let mut start: usize = 0;
    let mut i: usize = 0;
    while i < len
        invariant
            len == s@.len(),
            start <= i <= len,
            forall|j: int| start <= j < i ==> !ws_pred()(#[trigger] s@[j]),
            spec_split_p(s@, ws_pred()) == parts@.map_values(|t: String| t@)
                + spec_split_p(s@.skip(start as int), ws_pred()),
        decreases len - i,
    {
        let c = s.get_char(i);
        if c == ' ' || c == '\t' || c == '\n' || c == '\r' {
            let piece = String::from_str(s.substring_char(start, i));
            proof {
                lemma_split_p_step(s@, ws_pred(), start as int, i as int);
                assert((parts@.push(piece)).map_values(|t: String| t@)
                    =~= parts@.map_values(|t: String| t@).push(piece@));
                assert(parts@.map_values(|t: String| t@).push(piece@)
                    + spec_split_p(s@.skip(i + 1), ws_pred())
                    =~= parts@.map_values(|t: String| t@)
                    + (seq![s@.subrange(start as int, i as int)]
                        + spec_split_p(s@.skip(i + 1), ws_pred())));
            }
            parts.push(piece);
            start = i + 1;
        }
        i += 1;
    }
    let piece = String::from_str(s.substring_char(start, len));
    proof {
        lemma_split_p_step(s@, ws_pred(), start as int, len as int);
        assert(s@.skip(start as int) =~= s@.subrange(start as int, len as int));
        assert((parts@.push(piece)).map_values(|t: String| t@)
            =~= parts@.map_values(|t: String| t@).push(piece@));
        assert(parts@.map_values(|t: String| t@).push(piece@)
            =~= parts@.map_values(|t: String| t@) + seq![s@.skip(start as int)]);
    }
    parts.push(piece);
    parts
}

pub proof fn lemma_filter_push<T>(s: Seq<T>, p: spec_fn(T) -> bool, x: T)
    ensures
        (s.push(x)).filter(p) == if p(x) {
            s.filter(p).push(x)
        } else {
            s.filter(p)
        },
{
    reveal(Seq::filter);
    assert(s.push(x).drop_last() =~= s);
    assert(s.push(x).last() == x);
}

/// The whitespace-separated tokens of `s`, in order.
pub fn tokens_str(s: &str) -> (r: Vec<String>)
    ensures
        r@.map_values(|t: String| t@) == spec_tokens(s@),
{
    let raw = split_ws(s);
    let ghost rawspec = spec_split_p(s@, ws_pred());
    let mut out: Vec<String> = Vec::new();
    proof {
        reveal(Seq::filter);
        assert(raw@.map_values(|t: String| t@).len() == raw@.len());
        assert(rawspec.take(0) =~= Seq::<Seq<char>>::empty());
        assert(out@.map_values(|t: String| t@) =~= rawspec.take(0).filter(nonempty_piece()));
    }
    let n = raw.len();
    let mut i: usize = 0;
    while i < n
        invariant
            raw@.map_values(|t: String| t@) == rawspec,
            n == raw@.len(),
            i <= n,
            out@.map_values(|t: String| t@) == rawspec.take(i as int).filter(nonempty_piece()),
        decreases n - i,
    {
        proof {
            assert(rawspec.take(i + 1) =~= rawspec.take(i as int).push(rawspec[i as int]));
            lemma_filter_push(rawspec.take(i as int), nonempty_piece(), rawspec[i as int]);
            assert(rawspec[i as int] == raw@[i as int]@);
        }
        if raw[i].as_str().unicode_len() > 0 {
            let piece = raw[i].clone();
            proof {
                assert((out@.push(piece)).map_values(|t: String| t@)
                    =~= out@.map_values(|t: String| t@).push(piece@));
            }
            out.push(piece);
        }
        i += 1;
    }
    proof {
        assert(rawspec.take(n as int) =~= rawspec);
    }
    out
}

/// All pieces joined with nothing in between, in order.
pub open spec fn flat_concat(parts: Seq<Seq<char>>) -> Seq<char>
    decreases parts.len(),
{
    if parts.len() == 0 {
        Seq::empty()
    } else {
        flat_concat(parts.drop_last()) + parts.last()
    }
}

/// Joins all pieces with nothing in between.
pub fn join_all(parts: &Vec<String>) -> (r: String)
    ensures
        r@ == flat_concat(parts.deep_view()),
{
    let mut out = String::new();
    proof {
        assert(parts.deep_view().take(0) =~= Seq::<Seq<char>>::empty());
        assert(out@ =~= flat_concat(parts.deep_view().take(0)));
    }
    let n = parts.len();
    let mut i: usize = 0;
    while i < n
        invariant
            n == parts@.len(),
            i <= n,
            out@ == flat_concat(parts.deep_view().take(i as int)),
        decreases n - i,
    {
        proof {
            assert(parts.deep_view().take(i + 1).drop_last() =~= parts.deep_view().take(i as int));
            assert(parts.deep_view().take(i + 1).last() == parts@[i as int]@);
        }
        out.append(parts[i].as_str());
        i += 1;
    }
    proof {
        assert(parts.deep_view().take(n as int) =~= parts.deep_view());
    }
    out
}

/// Concatenation of two string slices.
pub fn concat2(a: &str, b: &str) -> (r: String)
    ensures
        r@ == a@ + b@,
{
    let mut s = String::from_str(a);
    s.append(b);
    s
}

/// Concatenation of three string slices.
pub fn concat3(a: &str, b: &str, c: &str) -> (r: String)
    ensures
        r@ == a@ + b@ + c@,
{
    let mut s = String::from_str(a);
    s.append(b);
    s.append(c);
    s
}

} // verus!
