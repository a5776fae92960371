//! Character-level text utilities: whitespace classification, conversions
//! between `&str` and `Vec<char>`, newline normalization and trimming.

use vstd::prelude::*;

verus! {

/// The Unicode `White_Space` code points, the class that `str::trim` and
/// friends strip.
pub open spec fn is_space_char(c: char) -> bool {
    ('\u{9}' <= c && c <= '\u{D}') || c == ' ' || c == '\u{85}' || c == '\u{A0}'
        || c == '\u{1680}' || ('\u{2000}' <= c && c <= '\u{200A}') || c == '\u{2028}'
        || c == '\u{2029}' || c == '\u{202F}' || c == '\u{205F}' || c == '\u{3000}'
}

pub fn is_space(c: char) -> (r: bool)
    ensures
        r == is_space_char(c),
{
    ('\u{9}' <= c && c <= '\u{D}') || c == ' ' || c == '\u{85}' || c == '\u{A0}'
        || c == '\u{1680}' || ('\u{2000}' <= c && c <= '\u{200A}') || c == '\u{2028}'
        || c == '\u{2029}' || c == '\u{202F}' || c == '\u{205F}' || c == '\u{3000}'
}

/// Collects the characters of a string slice into a vector.
pub fn str_chars(s: &str) -> (v: Vec<char>)
    ensures
        v@ == s@,
{
    let n = s.unicode_len();
    let mut v: Vec<char> = Vec::new();
    let mut i: usize = 0;
    while i < n
        invariant
            i <= n,
            n == s@.len(),
            v@ == s@.subrange(0, i as int),
        decreases n - i,
    {
        v.push(s.get_char(i));
        proof {
            assert(v@ =~= s@.subrange(0, i + 1 as int));
        }
        i += 1;
    }
    proof {
        assert(v@ =~= s@);
    }
    v
}

/// Relies on std's `FromIterator<char> for String`: collecting an iterator
/// of characters builds the string made of exactly those characters.
#[verifier::external_body]
pub fn chars_to_string(v: &Vec<char>) -> (s: String)
    ensures
        s@ == v@,
{
    v.iter().collect()
}

/// The result of replacing every `\r\n` with `\n`, scanning left to right.
pub open spec fn normalize_newlines_spec(s: Seq<char>) -> Seq<char>
    decreases s.len(),
{
    if s.len() >= 2 && s[0] == '\r' && s[1] == '\n' {
        seq!['\n'] + normalize_newlines_spec(s.skip(2))
    } else if s.len() >= 1 {
        seq![s[0]] + normalize_newlines_spec(s.skip(1))
    } else {
        Seq::empty()
    }
}

pub fn normalize_newlines_chars(v: &Vec<char>) -> (out: Vec<char>)
    ensures
        out@ == normalize_newlines_spec(v@),
{
    let n = v.len();
    let mut out: Vec<char> = Vec::new();
    let mut i: usize = 0;
    proof {
        assert(v@.skip(0) =~= v@);
        assert(Seq::<char>::empty() + normalize_newlines_spec(v@) =~= normalize_newlines_spec(
            v@,
        ));
    }
    while i < n
        invariant
            i <= n,
            n == v@.len(),
            normalize_newlines_spec(v@) == out@ + normalize_newlines_spec(v@.skip(i as int)),
        decreases n - i,
    {
        let ghost pre = out@;
        let ghost rest = v@.skip(i as int);
        if v[i] == '\r' && i + 1 < n && v[i + 1] == '\n' {
            out.push('\n');
            i += 2;
            proof {
                assert(rest.skip(2) =~= v@.skip(i as int));
                assert(pre + (seq!['\n'] + normalize_newlines_spec(v@.skip(i as int))) =~= out@
                    + normalize_newlines_spec(v@.skip(i as int)));
            }
        } else {
            out.push(v[i]);
            i += 1;
            proof {
                assert(rest.skip(1) =~= v@.skip(i as int));
                assert(rest[0] == v@[i - 1]);
                assert(pre + (seq![rest[0]] + normalize_newlines_spec(v@.skip(i as int))) =~= out@
                    + normalize_newlines_spec(v@.skip(i as int)));
            }
        }
    }
    proof {
        assert(v@.skip(n as int) =~= Seq::<char>::empty());
        assert(out@ + normalize_newlines_spec(v@.skip(n as int)) =~= out@);
    }
    out
}

/// A text without carriage returns is already normalized.
pub proof fn lemma_normalize_no_cr(s: Seq<char>)
    requires
        forall|i: int| 0 <= i < s.len() ==> s[i] != '\r',
    ensures
        normalize_newlines_spec(s) == s,
    decreases s.len(),
{
    if s.len() == 0 {
    } else {
        lemma_normalize_no_cr(s.skip(1));
        assert(seq![s[0]] + s.skip(1) =~= s);
    }
}

/// Normalization distributes over concatenation as long as the boundary
/// cannot split a CRLF pair.
pub proof fn lemma_normalize_append(x: Seq<char>, y: Seq<char>)
    requires
        x.len() > 0 ==> x.last() != '\r',
    ensures
        normalize_newlines_spec(x + y) == normalize_newlines_spec(x) + normalize_newlines_spec(y),
    decreases x.len(),
{
    if x.len() == 0 {
        assert(x + y =~= y);
        assert(normalize_newlines_spec(x) + normalize_newlines_spec(y) =~= normalize_newlines_spec(
            y,
        ));
    } else if x.len() >= 2 && x[0] == '\r' && x[1] == '\n' {
        let x2 = x.skip(2);
        lemma_normalize_append(x2, y);
        assert((x + y)[0] == '\r' && (x + y)[1] == '\n');
        assert((x + y).skip(2) =~= x2 + y);
        assert(seq!['\n'] + (normalize_newlines_spec(x2) + normalize_newlines_spec(y)) =~= (seq![
            '\n',
        ] + normalize_newlines_spec(x2)) + normalize_newlines_spec(y));
    } else {
        let x1 = x.skip(1);
        lemma_normalize_append(x1, y);
        if x.len() == 1 {
            assert(x[0] != '\r');
        } else {
            assert((x + y)[1] == x[1]);
        }
        assert((x + y)[0] == x[0]);
        assert((x + y).skip(1) =~= x1 + y);
        assert(seq![x[0]] + (normalize_newlines_spec(x1) + normalize_newlines_spec(y)) =~= (seq![
            x[0],
        ] + normalize_newlines_spec(x1)) + normalize_newlines_spec(y));
    }
}

/// Replaces every CRLF pair in `s` with a single LF, as the harness does
/// before any comparison or storage of section bodies.
pub fn normalize_newlines(s: &str) -> (r: String)
    ensures
        r@ == normalize_newlines_spec(s@),
{
    let v = str_chars(s);
    let out = normalize_newlines_chars(&v);
    chars_to_string(&out)
}

/// The string with trailing whitespace removed.
pub open spec fn strip_trailing_spaces(s: Seq<char>) -> Seq<char>
    decreases s.len(),
{
    if s.len() > 0 && is_space_char(s.last()) {
        strip_trailing_spaces(s.drop_last())
    } else {
        s
    }
}

/// Removes trailing whitespace, as `str::trim_end` does.
pub fn trim_end_chars(v: &Vec<char>) -> (out: Vec<char>)
    ensures
        out@ == strip_trailing_spaces(v@),
{
    let n = v.len();
    let mut hi: usize = n;
    proof {
        assert(v@.subrange(0, n as int) =~= v@);
    }
    while hi > 0 && is_space(v[hi - 1])
        invariant
            hi <= n,
            n == v@.len(),
            strip_trailing_spaces(v@) == strip_trailing_spaces(v@.subrange(0, hi as int)),
        decreases hi,
    {
        proof {
            let cur = v@.subrange(0, hi as int);
            assert(cur.last() == v@[hi - 1 as int]);
            assert(cur.drop_last() =~= v@.subrange(0, hi - 1 as int));
        }
        hi -= 1;
    }
    let mut out: Vec<char> = Vec::new();
    let mut i: usize = 0;
    while i < hi
        invariant
            i <= hi <= n,
            n == v@.len(),
            out@ == v@.subrange(0, i as int),
        decreases hi - i,
    {
        out.push(v[i]);
        proof {
            assert(out@ =~= v@.subrange(0, i + 1 as int));
        }
        i += 1;
    }
    proof {
        let cur = v@.subrange(0, hi as int);
        if hi > 0 {
            assert(cur.last() == v@[hi - 1 as int]);
        }
        assert(strip_trailing_spaces(cur) == cur);
    }
    out
}

/// Trims trailing whitespace from a string slice.
pub fn trim_end_str(s: &str) -> (r: String)
    ensures
        r@ == strip_trailing_spaces(s@),
{
    let v = str_chars(s);
    let t = trim_end_chars(&v);
    chars_to_string(&t)
}

/// The decimal digit characters.
pub open spec fn dec_digit(d: int) -> char {
    if d == 0 {
        '0'
    } else if d == 1 {
        '1'
    } else if d == 2 {
        '2'
    } else if d == 3 {
        '3'
    } else if d == 4 {
        '4'
    } else if d == 5 {
        '5'
    } else if d == 6 {
        '6'
    } else if d == 7 {
        '7'
    } else if d == 8 {
        '8'
    } else {
        '9'
    }
}

/// The decimal representation of a natural number, most significant digit
/// first, with no leading zeros.
pub open spec fn dec_str(n: nat) -> Seq<char>
    decreases n,
{
    if n < 10 {
        seq![dec_digit(n as int)]
    } else {
        dec_str(n / 10).push(dec_digit((n % 10) as int))
    }
}

fn digit_char(d: u64) -> (c: char)
    requires
        d < 10,
    ensures
        c == dec_digit(d as int),
{
    if d == 0 {
        '0'
    } else if d == 1 {
        '1'
    } else if d == 2 {
        '2'
    } else if d == 3 {
        '3'
    } else if d == 4 {
        '4'
    } else if d == 5 {
        '5'
    } else if d == 6 {
        '6'
    } else if d == 7 {
        '7'
    } else if d == 8 {
        '8'
    } else {
        '9'
    }
}

fn u64_digits(n: u64, out: &mut Vec<char>)
    ensures
        final(out)@ == old(out)@ + dec_str(n as nat),
    decreases n,
{
    if n >= 10 {
        proof {
            assert(n / 10 < n) by (nonlinear_arith)
                requires
                    n >= 10,
            ;
        }
        u64_digits(n / 10, out);
        let d = digit_char(n % 10);
        out.push(d);
        proof {
            assert((old(out)@ + dec_str((n / 10) as nat)).push(dec_digit((n % 10) as int)) =~= old(
                out,
            )@ + dec_str((n / 10) as nat).push(dec_digit((n % 10) as int)));
        }
    } else {
        let d = digit_char(n);
        out.push(d);
        proof {
            assert(old(out)@.push(dec_digit(n as int)) =~= old(out)@ + seq![dec_digit(n as int)]);
        }
    }
}

/// The decimal text of an unsigned number.
pub fn u64_to_string(n: u64) -> (r: String)
    ensures
        r@ == dec_str(n as nat),
{
    let mut v: Vec<char> = Vec::new();
    u64_digits(n, &mut v);
    proof {
        assert(Seq::<char>::empty() + dec_str(n as nat) =~= dec_str(n as nat));
    }
    chars_to_string(&v)
}

/// A fresh string with the same characters.
pub fn clone_string(s: &String) -> (r: String)
    ensures
        r@ == s@,
{
    String::from_str(s.as_str())
}

/// The string with leading and trailing whitespace removed.
pub open spec fn trim_spec(s: Seq<char>) -> Seq<char>
    decreases s.len(),
{
    if s.len() > 0 && is_space_char(s[0]) {
        trim_spec(s.skip(1))
    } else if s.len() > 0 && is_space_char(s.last()) {
        trim_spec(s.drop_last())
    } else {
        s
    }
}

pub fn trim_chars(v: &Vec<char>) -> (out: Vec<char>)
    ensures
        out@ == trim_spec(v@),
{
    let n = v.len();
    let mut lo: usize = 0;
    let mut hi: usize = n;
    proof {
        assert(v@.subrange(0, n as int) =~= v@);
    }
    while lo < hi && is_space(v[lo])
        invariant
            lo <= hi <= n,
            n == v@.len(),
            trim_spec(v@) == trim_spec(v@.subrange(lo as int, hi as int)),
            hi == n,
        decreases hi - lo,
    {
        proof {
            let cur = v@.subrange(lo as int, hi as int);
            assert(cur[0] == v@[lo as int]);
            assert(cur.skip(1) =~= v@.subrange(lo + 1 as int, hi as int));
        }
        lo += 1;
    }
    while lo < hi && is_space(v[hi - 1])
        invariant
            lo <= hi <= n,
            n == v@.len(),
            trim_spec(v@) == trim_spec(v@.subrange(lo as int, hi as int)),
            lo < hi ==> !is_space_char(v@[lo as int]),
        decreases hi - lo,
    {
        proof {
            let cur = v@.subrange(lo as int, hi as int);
            assert(cur[0] == v@[lo as int]);
            assert(cur.last() == v@[hi - 1 as int]);
            assert(cur.drop_last() =~= v@.subrange(lo as int, hi - 1 as int));
        }
        hi -= 1;
    }
    let mut out: Vec<char> = Vec::new();
    let mut i: usize = lo;
    while i < hi
        invariant
            lo <= i <= hi <= n,
            n == v@.len(),
            out@ == v@.subrange(lo as int, i as int),
        decreases hi - i,
    {
        out.push(v[i]);
        proof {
            assert(out@ =~= v@.subrange(lo as int, i + 1 as int));
        }
        i += 1;
    }
    proof {
        let cur = v@.subrange(lo as int, hi as int);
        if lo < hi {
            assert(cur[0] == v@[lo as int]);
            assert(cur.last() == v@[hi - 1 as int]);
        }
        assert(trim_spec(cur) == cur);
    }
    out
}

/// Trims leading and trailing whitespace from a string, as `str::trim` does.
pub fn trim_str(s: &str) -> (r: String)
    ensures
        r@ == trim_spec(s@),
{
    let v = str_chars(s);
    let t = trim_chars(&v);
    chars_to_string(&t)
}

/// The whitespace-separated tokens of a string, in order, with no empty
/// tokens, as `str::split_whitespace` yields them.
pub open spec fn split_ws(s: Seq<char>) -> Seq<Seq<char>>
    decreases s.len(),
{
    if s.len() == 0 {
        Seq::empty()
    } else if is_space_char(s[0]) {
        split_ws(s.skip(1))
    } else if s.len() == 1 {
        seq![seq![s[0]]]
    } else if is_space_char(s[1]) {
        seq![seq![s[0]]] + split_ws(s.skip(1))
    } else {
        let r = split_ws(s.skip(1));
        seq![seq![s[0]] + r[0]] + r.skip(1)
    }
}

proof fn lemma_split_ws_token(s: Seq<char>, j: int)
    requires
        0 < j <= s.len(),
        forall|k: int| 0 <= k < j ==> !is_space_char(#[trigger] s[k]),
        j == s.len() || is_space_char(s[j]),
    ensures
        split_ws(s) == seq![s.subrange(0, j)] + split_ws(s.skip(j)),
    decreases j,
{
    if j == 1 {
        if s.len() == 1 {
            assert(s.subrange(0, 1) =~= seq![s[0]]);
            assert(s.skip(1) =~= Seq::<char>::empty());
            assert(seq![s.subrange(0, 1)] + split_ws(s.skip(1)) =~= seq![seq![s[0]]]);
        } else {
            assert(is_space_char(s[1]));
            assert(s.subrange(0, 1) =~= seq![s[0]]);
            assert(seq![s.subrange(0, 1)] + split_ws(s.skip(1)) =~= seq![seq![s[0]]] + split_ws(
                s.skip(1),
            ));
        }
    } else {
        assert(!is_space_char(s[1]));
        let s1 = s.skip(1);
        assert(forall|k: int| 0 <= k < s1.len() ==> s1[k] == s[k + 1]);
        lemma_split_ws_token(s1, j - 1);
        let r = split_ws(s1);
        assert(r == seq![s1.subrange(0, j - 1)] + split_ws(s1.skip(j - 1)));
        assert(r[0] == s1.subrange(0, j - 1));
        assert(seq![s[0]] + r[0] =~= s.subrange(0, j));
        assert(s1.skip(j - 1) =~= s.skip(j));
        assert(r.skip(1) =~= split_ws(s.skip(j)));
        assert(seq![seq![s[0]] + r[0]] + r.skip(1) =~= seq![s.subrange(0, j)] + split_ws(
            s.skip(j),
        ));
    }
}

/// Splits a string on whitespace into its tokens.
pub fn split_whitespace_str(s: &str) -> (out: Vec<String>)
    ensures
        out.deep_view() == split_ws(s@),
{
    let v = str_chars(s);
    let n = v.len();
    let mut out: Vec<String> = Vec::new();
    let mut i: usize = 0;
    proof {
        assert(v@.skip(0) =~= v@);
        assert(out.deep_view() + split_ws(v@) =~= split_ws(v@));
    }
    while i < n
        invariant
            i <= n,
            n == v@.len(),
            v@ == s@,
            split_ws(s@) == out.deep_view() + split_ws(v@.skip(i as int)),
        decreases n - i,
    {
        let ghost rest = v@.skip(i as int);
        if is_space(v[i]) {
            proof {
                assert(rest[0] == v@[i as int]);
                assert(rest.skip(1) =~= v@.skip(i + 1 as int));
            }
            i += 1;
        } else {
            let start = i;
            let mut tok: Vec<char> = Vec::new();
            while i < n && !is_space(v[i])
                invariant
                    start <= i <= n,
                    n == v@.len(),
                    tok@ == v@.subrange(start as int, i as int),
                    forall|k: int| start <= k < i ==> !is_space_char(#[trigger] v@[k]),
                decreases n - i,
            {
                tok.push(v[i]);
                proof {
                    assert(tok@ =~= v@.subrange(start as int, i + 1 as int));
                }
                i += 1;
            }
            proof {
                assert(forall|k: int|
                    0 <= k < i - start ==> rest[k] == v@[start + k] && !is_space_char(rest[k]));
                if i < n {
                    assert(rest[i - start] == v@[i as int]);
                }
                lemma_split_ws_token(rest, i - start);
                assert(rest.subrange(0, i - start) =~= v@.subrange(start as int, i as int));
                assert(rest.skip(i - start) =~= v@.skip(i as int));
            }
            let ghost pdeep = out.deep_view();
            out.push(chars_to_string(&tok));
            proof {
                assert(out.deep_view() =~~= pdeep.push(tok@));
                assert(pdeep.push(tok@) + split_ws(v@.skip(i as int)) =~= pdeep + (seq![tok@]
                    + split_ws(v@.skip(i as int))));
                assert(seq![tok@] + split_ws(v@.skip(i as int)) =~= split_ws(rest));
            }
        }
    }
    proof {
        assert(v@.skip(n as int) =~= Seq::<char>::empty());
        assert(out.deep_view() + split_ws(v@.skip(n as int)) =~= out.deep_view());
    }
    out
}

/// Left-to-right, non-overlapping replacement of every occurrence of
/// `pat` by `rep`, as `str::replace` performs it (for non-empty `pat`).
pub open spec fn replace_spec(s: Seq<char>, pat: Seq<char>, rep: Seq<char>) -> Seq<char>
    decreases s.len(),
{
    if pat.len() == 0 || s.len() < pat.len() {
        s
    } else if s.subrange(0, pat.len() as int) == pat {
        rep + replace_spec(s.skip(pat.len() as int), pat, rep)
    } else {
        seq![s[0]] + replace_spec(s.skip(1), pat, rep)
    }
}

fn chars_match_at(s: &Vec<char>, i: usize, pat: &Vec<char>) -> (r: bool)
    requires
        i + pat@.len() <= s@.len(),
    ensures
        r == (s@.subrange(i as int, i + pat@.len()) == pat@),
{
    let m = pat.len();
    let n = s.len();
    let mut k: usize = 0;
    while k < m
        invariant
            k <= m,
            m == pat@.len(),
            n == s@.len(),
            i + m <= n,
            s@.subrange(i as int, i + k) == pat@.subrange(0, k as int),
        decreases m - k,
    {
        if s[i + k] != pat[k] {
            proof {
                assert(s@.subrange(i as int, i + m)[k as int] == s@[i + k]);
                assert(pat@[k as int] != s@[i + k]);
            }
            return false;
        }
        proof {
            assert(s@.subrange(i as int, i + k + 1) =~= pat@.subrange(0, k + 1 as int));
        }
        k += 1;
    }
    proof {
        assert(s@.subrange(i as int, i + m) =~= pat@);
    }
    true
}

/// Replaces every occurrence of `pat` in `s` by `rep`, scanning left to
/// right without overlap.
pub fn replace_all(s: &str, pat: &str, rep: &str) -> (r: String)
    ensures
        r@ == replace_spec(s@, pat@, rep@),
{
    let v = str_chars(s);
    let p = str_chars(pat);
    let w = str_chars(rep);
    let n = v.len();
    let m = p.len();
    if m == 0 {
        return String::from_str(s);
    }
    let mut out: Vec<char> = Vec::new();
    let mut i: usize = 0;
    proof {
        assert(v@.skip(0) =~= v@);
        assert(out@ + replace_spec(v@, p@, w@) =~= replace_spec(v@, p@, w@));
    }
    while i < n
        invariant
            i <= n,
            n == v@.len(),
            m == p@.len(),
            m >= 1,
            v@ == s@,
            p@ == pat@,
            w@ == rep@,
            replace_spec(s@, pat@, rep@) == out@ + replace_spec(v@.skip(i as int), p@, w@),
        decreases n - i,
    {
        let ghost rest = v@.skip(i as int);
        let ghost pre = out@;
        if m <= n && i <= n - m && chars_match_at(&v, i, &p) {
            proof {
                assert(forall|k: int| 0 <= k < rest.len() ==> rest[k] == v@[i + k]);
                assert(rest.subrange(0, m as int) =~= v@.subrange(i as int, i + m));
                assert(rest.skip(m as int) =~= v@.skip(i + m));
            }
            let mut t: usize = 0;
            let wl = w.len();
            proof {
                assert(pre + w@.subrange(0, 0) =~= pre);
            }
            while t < wl
                invariant
                    t <= wl,
                    wl == w@.len(),
                    out@ == pre + w@.subrange(0, t as int),
                decreases wl - t,
            {
                out.push(w[t]);
                proof {
                    assert(out@ =~= pre + w@.subrange(0, t + 1 as int));
                }
                t += 1;
            }
            proof {
                assert(w@.subrange(0, wl as int) =~= w@);
                assert(out@ =~= pre + w@);
                assert(pre + (w@ + replace_spec(v@.skip(i + m), p@, w@)) =~= out@ + replace_spec(
                    v@.skip(i + m),
                    p@,
                    w@,
                ));
            }
            i += m;
        } else {
            proof {
                assert(rest[0] == v@[i as int]);
                assert(rest.skip(1) =~= v@.skip(i + 1 as int));
                if rest.len() >= m {
                    assert(rest.subrange(0, m as int) =~= v@.subrange(i as int, i + m));
                }
                assert(pre + (seq![rest[0]] + replace_spec(v@.skip(i + 1 as int), p@, w@)) =~= pre.push(
                    rest[0],
                ) + replace_spec(v@.skip(i + 1 as int), p@, w@));
            }
            out.push(v[i]);
            i += 1;
        }
    }
    proof {
        assert(v@.skip(n as int) =~= Seq::<char>::empty());
        assert(out@ + replace_spec(v@.skip(n as int), p@, w@) =~= out@);
    }
    chars_to_string(&out)
}

/// Compares two string slices character by character.
pub fn str_eq(a: &str, b: &str) -> (r: bool)
    ensures
        r == (a@ == b@),
{
    let na = a.unicode_len();
    let nb = b.unicode_len();
    if na != nb {
        return false;
    }
    let mut i: usize = 0;
    while i < na
        invariant
            i <= na,
            na == a@.len(),
            na == b@.len(),
            a@.subrange(0, i as int) == b@.subrange(0, i as int),
        decreases na - i,
    {
        if a.get_char(i) != b.get_char(i) {
            return false;
        }
        proof {
            assert(a@.subrange(0, i + 1 as int) =~= b@.subrange(0, i + 1 as int));
        }
        i += 1;
    }
    proof {
        assert(a@.subrange(0, na as int) =~= a@);
        assert(b@.subrange(0, na as int) =~= b@);
    }
    true
}

} // verus!
