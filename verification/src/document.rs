//! The document model for `.santat` test-case files: an ordered sequence of
//! named sections delimited by `--NAME--` lines, parsed losslessly and
//! re-serialized back to text.

use vstd::prelude::*;
use crate::text::{
    chars_to_string, is_space, is_space_char, normalize_newlines_chars, normalize_newlines_spec,
    str_chars, str_eq, strip_trailing_spaces,
};

verus! {

/// One named section of a test-case file.
#[derive(Debug)]
pub struct TestBlock {
    pub name: String,
    pub content: String,
}

/// A parsed test-case file: its sections in original order.
#[derive(Debug)]
pub struct SantatFile {
    pub blocks: Vec<TestBlock>,
}

/// Why a test-case file was rejected.
#[derive(PartialEq, Eq, Structural, Clone, Copy, Debug)]
pub enum ParseError {
    MissingFileSection,
}

/// A section name character: the delimiter pattern admits capital letters
/// and underscores only.
pub open spec fn is_name_char(c: char) -> bool {
    ('A' <= c && c <= 'Z') || c == '_'
}

/// If `line` is a section delimiter (`--NAME--` with optional trailing
/// whitespace), the section name; otherwise `None`.
pub open spec fn delimiter_name(line: Seq<char>) -> Option<Seq<char>> {
    let t = strip_trailing_spaces(line);
    if t.len() >= 5 && t[0] == '-' && t[1] == '-' && t[t.len() - 1] == '-' && t[t.len() - 2] == '-'
        && (forall|i: int| 2 <= i < t.len() - 2 ==> is_name_char(#[trigger] t[i])) {
        Some(t.subrange(2, t.len() - 2))
    } else {
        None
    }
}

/// Splitting on `\n`: always one more piece than there are newlines.
pub open spec fn split_on_nl(s: Seq<char>) -> Seq<Seq<char>>
    decreases s.len(),
{
    if s.len() == 0 {
        seq![Seq::<char>::empty()]
    } else if s[0] == '\n' {
        seq![Seq::<char>::empty()] + split_on_nl(s.skip(1))
    } else {
        let r = split_on_nl(s.skip(1));
        seq![seq![s[0]] + r[0]] + r.skip(1)
    }
}

pub proof fn lemma_split_on_nl_len(s: Seq<char>)
    ensures
        split_on_nl(s).len() >= 1,
    decreases s.len(),
{
    if s.len() == 0 {
    } else if s[0] == '\n' {
        lemma_split_on_nl_len(s.skip(1));
    } else {
        lemma_split_on_nl_len(s.skip(1));
    }
}

/// The lines of a newline-normalized string, split at `\n`: a final line
/// ending does not produce an empty last line.
pub open spec fn lines_of(s: Seq<char>) -> Seq<Seq<char>> {
    if s.len() == 0 {
        Seq::empty()
    } else {
        let p = split_on_nl(s);
        if p.last().len() == 0 {
            p.drop_last()
        } else {
            p
        }
    }
}

/// Joining lines with a single `\n` between them, with no trailing newline.
pub open spec fn join_lines(ls: Seq<Seq<char>>) -> Seq<char>
    decreases ls.len(),
{
    if ls.len() == 0 {
        Seq::empty()
    } else if ls.len() == 1 {
        ls[0]
    } else {
        ls[0] + seq!['\n'] + join_lines(ls.skip(1))
    }
}

pub proof fn lemma_join_lines_snoc(ls: Seq<Seq<char>>, x: Seq<char>)
    ensures
        join_lines(ls.push(x)) == if ls.len() == 0 {
            x
        } else {
            join_lines(ls) + seq!['\n'] + x
        },
    decreases ls.len(),
{
    let p = ls.push(x);
    if ls.len() == 0 {
        assert(p.len() == 1);
        assert(p[0] == x);
    } else {
        lemma_join_lines_snoc(ls.skip(1), x);
        assert(p.skip(1) =~= ls.skip(1).push(x));
        assert(p[0] == ls[0]);
        if ls.len() == 1 {
            assert(ls.skip(1).len() == 0);
            assert(join_lines(p) == p[0] + seq!['\n'] + join_lines(p.skip(1)));
            assert(join_lines(ls) == ls[0]);
        } else {
            assert(join_lines(p) == p[0] + seq!['\n'] + join_lines(p.skip(1)));
            assert(join_lines(ls) == ls[0] + seq!['\n'] + join_lines(ls.skip(1)));
            assert(ls[0] + seq!['\n'] + (join_lines(ls.skip(1)) + seq!['\n'] + x) =~= (ls[0]
                + seq!['\n'] + join_lines(ls.skip(1))) + seq!['\n'] + x);
        }
    }
}

/// Joining lines with CRLF endings instead of LF.
pub open spec fn join_lines_crlf(ls: Seq<Seq<char>>) -> Seq<char>
    decreases ls.len(),
{
    if ls.len() == 0 {
        Seq::empty()
    } else if ls.len() == 1 {
        ls[0]
    } else {
        ls[0] + seq!['\r', '\n'] + join_lines_crlf(ls.skip(1))
    }
}

/// Newline style does not matter to a comparison made after normalization:
/// text whose lines are joined with CRLF normalizes to exactly the text of
/// the same lines joined with LF, so an expectation in one style and an
/// actual output in the other are judged equal.
pub proof fn lemma_crlf_matches_lf(ls: Seq<Seq<char>>)
    requires
        forall|i: int, j: int|
            0 <= i < ls.len() && 0 <= j < ls[i].len() ==> #[trigger] ls[i][j] != '\r',
    ensures
        normalize_newlines_spec(join_lines_crlf(ls)) == join_lines(ls),
        normalize_newlines_spec(join_lines(ls)) == join_lines(ls),
    decreases ls.len(),
{
    if ls.len() == 0 {
        crate::text::lemma_normalize_no_cr(Seq::empty());
    } else if ls.len() == 1 {
        crate::text::lemma_normalize_no_cr(ls[0]);
    } else {
        let ls1 = ls.skip(1);
        assert(forall|i: int, j: int|
            0 <= i < ls1.len() && 0 <= j < ls1[i].len() ==> #[trigger] ls1[i][j] != '\r') by {
            assert(forall|i: int| 0 <= i < ls1.len() ==> ls1[i] == ls[i + 1]);
        }
        lemma_crlf_matches_lf(ls1);
        let head = ls[0];
        if head.len() > 0 {
            assert(head.last() != '\r');
        }
        crate::text::lemma_normalize_no_cr(head);
        // the CRLF-joined text
        let tail_crlf = seq!['\r', '\n'] + join_lines_crlf(ls1);
        crate::text::lemma_normalize_append(head, tail_crlf);
        assert(join_lines_crlf(ls) =~= head + tail_crlf);
        assert(tail_crlf[0] == '\r' && tail_crlf[1] == '\n');
        assert(tail_crlf.skip(2) =~= join_lines_crlf(ls1));
        assert(normalize_newlines_spec(tail_crlf) == seq!['\n'] + normalize_newlines_spec(
            join_lines_crlf(ls1),
        ));
        assert(head + (seq!['\n'] + join_lines(ls1)) =~= head + seq!['\n'] + join_lines(ls1));
        // the LF-joined text
        let tail_lf = seq!['\n'] + join_lines(ls1);
        crate::text::lemma_normalize_append(head, tail_lf);
        assert(join_lines(ls) =~= head + tail_lf);
        assert(tail_lf[0] == '\n');
        assert(tail_lf.skip(1) =~= join_lines(ls1));
        assert(normalize_newlines_spec(tail_lf) == seq!['\n'] + normalize_newlines_spec(
            join_lines(ls1),
        ));
    }
}

/// The section fold over the lines of a document: a delimiter line closes
/// the current section (if any) and opens a new one; any other line joins
/// the current section's body. Text before the first delimiter is dropped.
pub open spec fn parse_lines(
    ls: Seq<Seq<char>>,
    cur: Option<Seq<char>>,
    buf: Seq<Seq<char>>,
    acc: Seq<(Seq<char>, Seq<char>)>,
) -> Seq<(Seq<char>, Seq<char>)>
    decreases ls.len(),
{
    if ls.len() == 0 {
        match cur {
            Some(n) => acc.push((n, join_lines(buf))),
            None => acc,
        }
    } else {
        match delimiter_name(ls[0]) {
            Some(m) => {
                let acc2 = match cur {
                    Some(n) => acc.push((n, join_lines(buf))),
                    None => acc,
                };
                parse_lines(ls.skip(1), Some(m), Seq::empty(), acc2)
            },
            None => parse_lines(ls.skip(1), cur, buf.push(ls[0]), acc),
        }
    }
}

/// The sections a document text parses to, as (name, body) pairs.
pub open spec fn parse_blocks_spec(text: Seq<char>) -> Seq<(Seq<char>, Seq<char>)> {
    parse_lines(lines_of(normalize_newlines_spec(text)), None, Seq::empty(), Seq::empty())
}

pub open spec fn has_section(bs: Seq<(Seq<char>, Seq<char>)>, name: Seq<char>) -> bool {
    exists|i: int| 0 <= i < bs.len() && bs[i].0 == name
}

/// The body of the most recently inserted section with this name, which is
/// what the lookup map reflects when a name repeats.
pub open spec fn lookup_spec(bs: Seq<(Seq<char>, Seq<char>)>, name: Seq<char>) -> Option<Seq<char>>
    decreases bs.len(),
{
    if bs.len() == 0 {
        None
    } else if bs.last().0 == name {
        Some(bs.last().1)
    } else {
        lookup_spec(bs.drop_last(), name)
    }
}

pub proof fn lemma_lookup_has_section(bs: Seq<(Seq<char>, Seq<char>)>, name: Seq<char>)
    ensures
        (lookup_spec(bs, name) is Some) <==> has_section(bs, name),
    decreases bs.len(),
{
    if bs.len() == 0 {
    } else if bs.last().0 == name {
        assert(bs[bs.len() - 1].0 == name);
    } else {
        lemma_lookup_has_section(bs.drop_last(), name);
        let sub = bs.drop_last();
        if has_section(bs, name) {
            let i = choose|i: int| 0 <= i < bs.len() && bs[i].0 == name;
            assert(i < bs.len() - 1);
            assert(sub[i].0 == name);
        }
        if has_section(sub, name) {
            let i = choose|i: int| 0 <= i < sub.len() && sub[i].0 == name;
            assert(bs[i].0 == name);
        }
    }
}

/// Joining distributes over concatenation of two non-empty line sequences.
pub proof fn lemma_join_lines_append(a: Seq<Seq<char>>, b: Seq<Seq<char>>)
    requires
        a.len() > 0,
        b.len() > 0,
    ensures
        join_lines(a + b) == join_lines(a) + seq!['\n'] + join_lines(b),
    decreases a.len(),
{
    let c = a + b;
    assert(c[0] == a[0]);
    if a.len() == 1 {
        assert(c.skip(1) =~= b);
        assert(join_lines(c) == c[0] + seq!['\n'] + join_lines(c.skip(1)));
    } else {
        lemma_join_lines_append(a.skip(1), b);
        assert(c.skip(1) =~= a.skip(1) + b);
        assert(join_lines(c) == c[0] + seq!['\n'] + join_lines(c.skip(1)));
        assert(join_lines(a) == a[0] + seq!['\n'] + join_lines(a.skip(1)));
        assert(a[0] + seq!['\n'] + (join_lines(a.skip(1)) + seq!['\n'] + join_lines(b)) =~= (a[0]
            + seq!['\n'] + join_lines(a.skip(1))) + seq!['\n'] + join_lines(b));
    }
}

/// Joining the full split on newlines rebuilds the original text.
pub proof fn lemma_join_split(s: Seq<char>)
    ensures
        join_lines(split_on_nl(s)) == s,
    decreases s.len(),
{
    if s.len() == 0 {
        assert(join_lines(split_on_nl(s)) =~= s);
    } else if s[0] == '\n' {
        lemma_join_split(s.skip(1));
        lemma_split_on_nl_len(s.skip(1));
        let p = split_on_nl(s);
        assert(p.len() >= 2);
        assert(p[0] =~= Seq::<char>::empty());
        assert(p.skip(1) =~= split_on_nl(s.skip(1)));
        assert(join_lines(p) == p[0] + seq!['\n'] + join_lines(p.skip(1)));
        assert(p[0] + seq!['\n'] + s.skip(1) =~= s);
    } else {
        lemma_join_split(s.skip(1));
        let r = split_on_nl(s.skip(1));
        lemma_split_on_nl_len(s.skip(1));
        let p = split_on_nl(s);
        assert(p == seq![seq![s[0]] + r[0]] + r.skip(1));
        assert(p[0] == seq![s[0]] + r[0]);
        if r.len() == 1 {
            assert(p.len() == 1);
            assert(join_lines(r) == r[0]);
            assert(join_lines(p) == p[0]);
            assert(seq![s[0]] + r[0] =~= s);
        } else {
            assert(p.len() >= 2);
            assert(p.skip(1) =~= r.skip(1));
            assert(join_lines(p) == p[0] + seq!['\n'] + join_lines(p.skip(1)));
            assert(join_lines(r) == r[0] + seq!['\n'] + join_lines(r.skip(1)));
            assert((seq![s[0]] + r[0]) + seq!['\n'] + join_lines(r.skip(1)) =~= seq![s[0]] + (r[0]
                + seq!['\n'] + join_lines(r.skip(1))));
            assert(seq![s[0]] + s.skip(1) =~= s);
        }
    }
}

/// A canonical delimiter line (no trailing whitespace) is exactly
/// `--NAME--`.
pub proof fn lemma_delim_canonical(l: Seq<char>, m: Seq<char>)
    requires
        delimiter_name(l) == Some(m),
        strip_trailing_spaces(l) == l,
    ensures
        l == seq!['-', '-'] + m + seq!['-', '-'],
{
    assert(m == l.subrange(2, l.len() - 2));
    assert(l =~= seq!['-', '-'] + m + seq!['-', '-']);
}

/// The serialized text of sections `acc` followed by one more block.
pub open spec fn emit_prefix(acc: Seq<(Seq<char>, Seq<char>)>) -> Seq<char> {
    if acc.len() == 0 {
        Seq::empty()
    } else {
        serialize_spec(acc) + seq!['\n']
    }
}

pub proof fn lemma_serialize_snoc(acc: Seq<(Seq<char>, Seq<char>)>, p: (Seq<char>, Seq<char>))
    ensures
        serialize_spec(acc.push(p)) == emit_prefix(acc) + block_text(p),
{
    let f = |b: (Seq<char>, Seq<char>)| block_text(b);
    assert(acc.push(p).map_values(f) =~= acc.map_values(f).push(block_text(p)));
    lemma_join_lines_snoc(acc.map_values(f), block_text(p));
    if acc.len() == 0 {
        assert(emit_prefix(acc) + block_text(p) =~= block_text(p));
    }
}

/// Within a line sequence where every delimiter line is canonical and is
/// followed by a non-delimiter line, the section fold emits exactly the
/// remaining text.
pub proof fn lemma_parse_emit(
    ls: Seq<Seq<char>>,
    n: Seq<char>,
    buf: Seq<Seq<char>>,
    acc: Seq<(Seq<char>, Seq<char>)>,
)
    requires
        forall|i: int|
            0 <= i < ls.len() && (#[trigger] delimiter_name(ls[i])) is Some ==> strip_trailing_spaces(
                ls[i],
            ) == ls[i] && i + 1 < ls.len() && delimiter_name(ls[i + 1]) is None,
        buf.len() == 0 ==> (ls.len() == 0 || delimiter_name(ls[0]) is None),
    ensures
        serialize_spec(parse_lines(ls, Some(n), buf, acc)) == emit_prefix(acc) + (seq!['-', '-'] + n
            + seq!['-', '-', '\n']) + join_lines(buf + ls),
    decreases ls.len(),
{
    let head = seq!['-', '-'] + n + seq!['-', '-', '\n'];
    if ls.len() == 0 {
        lemma_serialize_snoc(acc, (n, join_lines(buf)));
        assert(buf + ls =~= buf);
        assert(block_text((n, join_lines(buf))) =~= head + join_lines(buf));
        assert(emit_prefix(acc) + block_text((n, join_lines(buf))) =~= emit_prefix(acc) + head
            + join_lines(buf));
    } else {
        match delimiter_name(ls[0]) {
            Some(m) => {
                assert(buf.len() > 0);
                assert(1 < ls.len() && delimiter_name(ls[1]) is None);
                let acc2 = acc.push((n, join_lines(buf)));
                let ls1 = ls.skip(1);
                assert(ls1[0] == ls[1]);
                assert(forall|i: int|
                    0 <= i < ls1.len() && (#[trigger] delimiter_name(ls1[i])) is Some
                        ==> strip_trailing_spaces(ls1[i]) == ls1[i] && i + 1 < ls1.len()
                        && delimiter_name(ls1[i + 1]) is None) by {
                    assert(forall|i: int| 0 <= i < ls1.len() ==> ls1[i] == ls[i + 1]);
                }
                lemma_parse_emit(ls1, m, Seq::empty(), acc2);
                assert(parse_lines(ls, Some(n), buf, acc) == parse_lines(
                    ls1,
                    Some(m),
                    Seq::empty(),
                    acc2,
                ));
                lemma_serialize_snoc(acc, (n, join_lines(buf)));
                lemma_delim_canonical(ls[0], m);
                let headm = seq!['-', '-'] + m + seq!['-', '-', '\n'];
                assert(Seq::<Seq<char>>::empty() + ls1 =~= ls1);
                // emitted text of the recursive call
                assert(serialize_spec(parse_lines(ls, Some(n), buf, acc)) == emit_prefix(acc2)
                    + headm + join_lines(ls1));
                assert(emit_prefix(acc2) == serialize_spec(acc2) + seq!['\n']);
                assert(serialize_spec(acc2) == emit_prefix(acc) + block_text((n, join_lines(buf))));
                lemma_join_lines_append(buf, ls);
                assert(join_lines(ls) == ls[0] + seq!['\n'] + join_lines(ls1));
                assert(ls[0] == seq!['-', '-'] + m + seq!['-', '-']);
                assert(block_text((n, join_lines(buf))) == head + join_lines(buf)) by {
                    assert(block_text((n, join_lines(buf))) =~= head + join_lines(buf));
                }
                assert((emit_prefix(acc) + (head + join_lines(buf)) + seq!['\n']) + headm
                    + join_lines(ls1) =~= emit_prefix(acc) + head + (join_lines(buf) + seq!['\n']
                    + ((seq!['-', '-'] + m + seq!['-', '-']) + seq!['\n'] + join_lines(ls1))));
                assert(join_lines(buf + ls) =~= join_lines(buf) + seq!['\n'] + ((seq!['-', '-'] + m
                    + seq!['-', '-']) + seq!['\n'] + join_lines(ls1)));
                assert(emit_prefix(acc) + head + join_lines(buf + ls) =~= serialize_spec(
                    parse_lines(ls, Some(n), buf, acc),
                ));
            },
            None => {
                let ls1 = ls.skip(1);
                assert(forall|i: int|
                    0 <= i < ls1.len() && (#[trigger] delimiter_name(ls1[i])) is Some
                        ==> strip_trailing_spaces(ls1[i]) == ls1[i] && i + 1 < ls1.len()
                        && delimiter_name(ls1[i + 1]) is None) by {
                    assert(forall|i: int| 0 <= i < ls1.len() ==> ls1[i] == ls[i + 1]);
                }
                lemma_parse_emit(ls1, n, buf.push(ls[0]), acc);
                assert(buf.push(ls[0]) + ls1 =~= buf + ls);
            },
        }
    }
}

/// A well-formed line sequence: it opens with a delimiter, every delimiter
/// line is canonical (no trailing whitespace), and every section has at
/// least one body line.
pub open spec fn wf_lines(ls: Seq<Seq<char>>) -> bool {
    &&& ls.len() > 0
    &&& delimiter_name(ls[0]) is Some
    &&& forall|i: int|
        0 <= i < ls.len() && (#[trigger] delimiter_name(ls[i])) is Some ==> strip_trailing_spaces(
            ls[i],
        ) == ls[i] && i + 1 < ls.len() && delimiter_name(ls[i + 1]) is None
}

/// A well-formed document text: already newline-normalized, with
/// well-formed lines.
pub open spec fn wf_document_text(text: Seq<char>) -> bool {
    &&& normalize_newlines_spec(text) == text
    &&& wf_lines(lines_of(text))
}

/// Round-trip: serializing the sections parsed from a well-formed document
/// reproduces the document's text, up to a single trailing newline.
pub proof fn lemma_parse_serialize_round_trip(text: Seq<char>)
    requires
        wf_document_text(text),
    ensures
        serialize_spec(parse_blocks_spec(text)) == join_lines(lines_of(text)),
        text == join_lines(lines_of(text)) || text == join_lines(lines_of(text)) + seq!['\n'],
{
    let ls = lines_of(text);
    let m = delimiter_name(ls[0])->Some_0;
    assert(1 < ls.len() && delimiter_name(ls[1]) is None);
    let ls1 = ls.skip(1);
    assert(ls1[0] == ls[1]);
    assert(forall|i: int|
        0 <= i < ls1.len() && (#[trigger] delimiter_name(ls1[i])) is Some
            ==> strip_trailing_spaces(ls1[i]) == ls1[i] && i + 1 < ls1.len() && delimiter_name(
            ls1[i + 1],
        ) is None) by {
        assert(forall|i: int| 0 <= i < ls1.len() ==> ls1[i] == ls[i + 1]);
    }
    lemma_parse_emit(ls1, m, Seq::empty(), Seq::empty());
    assert(parse_blocks_spec(text) == parse_lines(ls, None, Seq::empty(), Seq::empty()));
    assert(parse_lines(ls, None, Seq::empty(), Seq::empty()) == parse_lines(
        ls1,
        Some(m),
        Seq::empty(),
        Seq::empty(),
    ));
    lemma_delim_canonical(ls[0], m);
    assert(Seq::<Seq<char>>::empty() + ls1 =~= ls1);
    assert(emit_prefix(Seq::empty()) =~= Seq::<char>::empty());
    let head = seq!['-', '-'] + m + seq!['-', '-', '\n'];
    assert(serialize_spec(parse_blocks_spec(text)) == emit_prefix(Seq::empty()) + head
        + join_lines(ls1));
    assert(join_lines(ls) == ls[0] + seq!['\n'] + join_lines(ls1));
    assert(emit_prefix(Seq::empty()) + head + join_lines(ls1) =~= (seq!['-', '-'] + m + seq![
        '-',
        '-',
    ]) + seq!['\n'] + join_lines(ls1));
    // text is the joined lines, up to one dropped trailing newline
    lemma_join_split(text);
    let p = split_on_nl(text);
    lemma_split_on_nl_len(text);
    if p.last().len() == 0 {
        assert(ls == p.drop_last());
        assert(p.len() >= 2) by {
            if p.len() == 1 {
                assert(ls.len() == 0);
            }
        }
        lemma_join_lines_snoc(p.drop_last(), p.last());
        assert(p.drop_last().push(p.last()) =~= p);
        assert(join_lines(p) == join_lines(ls) + seq!['\n'] + p.last());
        assert(join_lines(ls) + seq!['\n'] + p.last() =~= join_lines(ls) + seq!['\n']);
    } else {
        assert(ls == p);
    }
}

/// The name a pending-section state stands for, at the spec level.
pub open spec fn opt_rep(c: Option<Vec<char>>) -> Option<Seq<char>> {
    match c {
        Some(v) => Some(v@),
        None => None,
    }
}

/// The (name, body) pairs of a sequence of blocks.
pub open spec fn blocks_rep(bs: Seq<TestBlock>) -> Seq<(Seq<char>, Seq<char>)> {
    bs.map_values(|b: TestBlock| (b.name@, b.content@))
}

/// A delimiter line as re-emitted by serialization, plus the newline that
/// separates it from the body.
pub open spec fn block_text(b: (Seq<char>, Seq<char>)) -> Seq<char> {
    seq!['-', '-'] + b.0 + seq!['-', '-', '\n'] + b.1
}

/// The serialized form of a sequence of sections.
pub open spec fn serialize_spec(bs: Seq<(Seq<char>, Seq<char>)>) -> Seq<char> {
    join_lines(bs.map_values(|b: (Seq<char>, Seq<char>)| block_text(b)))
}

/// If `line` is a section delimiter, its name.
pub fn delimiter_of(line: &Vec<char>) -> (r: Option<Vec<char>>)
    ensures
        match r {
            Some(n) => delimiter_name(line@) == Some(n@),
            None => delimiter_name(line@) is None,
        },
{
    let n = line.len();
    let mut hi: usize = n;
    proof {
        assert(line@.subrange(0, n as int) =~= line@);
    }
    while hi > 0 && is_space(line[hi - 1])
        invariant
            hi <= n,
            n == line@.len(),
            strip_trailing_spaces(line@) == strip_trailing_spaces(
                line@.subrange(0, hi as int),
            ),
        decreases hi,
    {
        proof {
            let cur = line@.subrange(0, hi as int);
            assert(cur.last() == line@[hi - 1 as int]);
            assert(cur.drop_last() =~= line@.subrange(0, hi - 1 as int));
        }
        hi -= 1;
    }
    proof {
        let cur = line@.subrange(0, hi as int);
        if hi > 0 {
            assert(cur.last() == line@[hi - 1 as int]);
        }
        assert(strip_trailing_spaces(cur) == cur);
    }
    let ghost t = strip_trailing_spaces(line@);
    if hi < 5 {
        return None;
    }
    if !(line[0] == '-' && line[1] == '-' && line[hi - 1] == '-' && line[hi - 2] == '-') {
        proof {
            assert(t[0] == line@[0]);
            assert(t[1] == line@[1]);
            assert(t[t.len() - 1] == line@[hi - 1 as int]);
            assert(t[t.len() - 2] == line@[hi - 2 as int]);
        }
        return None;
    }
    let mut name: Vec<char> = Vec::new();
    let mut i: usize = 2;
    while i < hi - 2
        invariant
            2 <= i <= hi - 2,
            5 <= hi <= n,
            n == line@.len(),
            t == strip_trailing_spaces(line@),
            t == line@.subrange(0, hi as int),
            name@ == t.subrange(2, i as int),
            forall|j: int| 2 <= j < i ==> is_name_char(#[trigger] t[j]),
        decreases hi - i,
    {
        let c = line[i];
        proof {
            assert(t[i as int] == line@[i as int]);
        }
        if !(('A' <= c && c <= 'Z') || c == '_') {
            return None;
        }
        name.push(c);
        proof {
            assert(name@ =~= t.subrange(2, i + 1 as int));
        }
        i += 1;
    }
    proof {
        assert(t[0] == line@[0]);
        assert(t[1] == line@[1]);
        assert(t[t.len() - 1] == line@[hi - 1 as int]);
        assert(t[t.len() - 2] == line@[hi - 2 as int]);
        assert(delimiter_name(line@) == Some(t.subrange(2, t.len() - 2)));
        assert(name@ == t.subrange(2, t.len() - 2));
    }
    Some(name)
}

/// Splits newline-normalized text into its lines.
pub fn split_lines(v: &Vec<char>) -> (out: Vec<Vec<char>>)
    ensures
        out.deep_view() == lines_of(v@),
{
    let n = v.len();
    if n == 0 {
        let out: Vec<Vec<char>> = Vec::new();
        proof {
            assert(out.deep_view() =~~= lines_of(v@));
        }
        return out;
    }
    let mut done: Vec<Vec<char>> = Vec::new();
    let mut cur: Vec<char> = Vec::new();
    let mut i: usize = 0;
    proof {
        assert(v@.skip(0) =~= v@);
        lemma_split_on_nl_len(v@);
        assert(done.deep_view() + seq![cur@ + split_on_nl(v@)[0]] + split_on_nl(v@).skip(1)
            =~= seq![split_on_nl(v@)[0]] + split_on_nl(v@).skip(1));
        assert(seq![split_on_nl(v@)[0]] + split_on_nl(v@).skip(1) =~= split_on_nl(v@));
    }
    while i < n
        invariant
            i <= n,
            n == v@.len(),
            split_on_nl(v@) == done.deep_view() + seq![cur@ + split_on_nl(v@.skip(i as int))[0]]
                + split_on_nl(v@.skip(i as int)).skip(1),
        decreases n - i,
    {
        let ghost rest = v@.skip(i as int);
        let ghost drest = done.deep_view();
        let ghost pcur = cur@;
        if v[i] == '\n' {
            proof {
                assert(rest[0] == v@[i as int]);
                assert(rest.skip(1) =~= v@.skip(i + 1 as int));
                lemma_split_on_nl_len(v@.skip(i + 1 as int));
            }
            done.push(cur);
            cur = Vec::new();
            proof {
                let next = v@.skip(i + 1 as int);
                assert(split_on_nl(rest) == seq![Seq::<char>::empty()] + split_on_nl(next));
                assert(split_on_nl(rest)[0] =~= Seq::<char>::empty());
                assert(pcur + split_on_nl(rest)[0] =~= pcur);
                assert(split_on_nl(rest).skip(1) =~= split_on_nl(next));
                assert(done.deep_view() =~~= drest.push(pcur));
                assert(split_on_nl(v@) =~= done.deep_view() + seq![cur@ + split_on_nl(next)[0]]
                    + split_on_nl(next).skip(1));
            }
            i += 1;
        } else {
            let c = v[i];
            cur.push(c);
            proof {
                let next = v@.skip(i + 1 as int);
                assert(rest[0] == v@[i as int]);
                assert(rest.skip(1) =~= next);
                lemma_split_on_nl_len(next);
                assert(split_on_nl(rest) == seq![seq![rest[0]] + split_on_nl(next)[0]]
                    + split_on_nl(next).skip(1));
                assert(split_on_nl(rest)[0] == seq![rest[0]] + split_on_nl(next)[0]);
                assert(split_on_nl(rest).skip(1) =~= split_on_nl(next).skip(1));
                assert(cur@ + split_on_nl(next)[0] =~= pcur + (seq![rest[0]] + split_on_nl(
                    next,
                )[0]));
                assert(split_on_nl(v@) =~= done.deep_view() + seq![cur@ + split_on_nl(next)[0]]
                    + split_on_nl(next).skip(1));
            }
            i += 1;
        }
    }
    proof {
        assert(v@.skip(n as int) =~= Seq::<char>::empty());
        assert(split_on_nl(v@.skip(n as int)) == seq![Seq::<char>::empty()]);
        assert(split_on_nl(v@.skip(n as int)).skip(1) =~= Seq::<Seq<char>>::empty());
        assert(split_on_nl(v@) =~= done.deep_view().push(cur@));
    }
    let last_empty = cur.len() == 0;
    if last_empty {
        proof {
            assert(split_on_nl(v@).last() == cur@);
            assert(cur@ =~= Seq::<char>::empty());
            assert(done.deep_view() =~~= split_on_nl(v@).drop_last());
        }
        done
    } else {
        done.push(cur);
        proof {
            assert(split_on_nl(v@).last() == cur@);
            assert(done.deep_view() =~~= split_on_nl(v@));
        }
        done
    }
}

/// Joins body lines with `\n`, rebuilding a section body.
pub fn join_chars(buf: &Vec<Vec<char>>) -> (out: Vec<char>)
    ensures
        out@ == join_lines(buf.deep_view()),
{
    let n = buf.len();
    let mut out: Vec<char> = Vec::new();
    let mut j: usize = 0;
    proof {
        assert(buf.deep_view().subrange(0, 0) =~= Seq::<Seq<char>>::empty());
    }
    while j < n
        invariant
            j <= n,
            n == buf@.len(),
            buf.deep_view().len() == n,
            out@ == join_lines(buf.deep_view().subrange(0, j as int)),
        decreases n - j,
    {
        let ghost pre = buf.deep_view().subrange(0, j as int);
        if j > 0 {
            out.push('\n');
        }
        let line = &buf[j];
        let m = line.len();
        let mut k: usize = 0;
        let ghost mid = out@;
        while k < m
            invariant
                k <= m,
                m == line@.len(),
                out@ == mid + line@.subrange(0, k as int),
            decreases m - k,
        {
            out.push(line[k]);
            proof {
                assert(mid + line@.subrange(0, k + 1 as int) =~= out@);
            }
            k += 1;
        }
        proof {
            lemma_join_lines_snoc(pre, buf.deep_view()[j as int]);
            assert(buf.deep_view().subrange(0, j + 1 as int) =~= pre.push(
                buf.deep_view()[j as int],
            ));
            assert(buf.deep_view()[j as int] =~= line@);
            assert(line@.subrange(0, m as int) =~= line@);
            if j > 0 {
                assert(out@ =~= join_lines(pre) + seq!['\n'] + line@);
            } else {
                assert(pre.len() == 0);
                assert(out@ =~= line@);
            }
        }
        j += 1;
    }
    proof {
        assert(buf.deep_view().subrange(0, n as int) =~= buf.deep_view());
    }
    out
}

/// Joins strings with a single `\n` between them.
pub fn join_strings_nl(v: &Vec<String>) -> (r: String)
    ensures
        r@ == join_lines(v.deep_view()),
{
    let n = v.len();
    let mut out = String::new();
    let mut i: usize = 0;
    proof {
        assert(v.deep_view().subrange(0, 0) =~= Seq::<Seq<char>>::empty());
    }
    while i < n
        invariant
            i <= n,
            n == v@.len(),
            v.deep_view().len() == n,
            out@ == join_lines(v.deep_view().subrange(0, i as int)),
        decreases n - i,
    {
        let ghost pre = v.deep_view().subrange(0, i as int);
        if i > 0 {
            out.append("\n");
        }
        out.append(v[i].as_str());
        proof {
            lemma_join_lines_snoc(pre, v.deep_view()[i as int]);
            assert(v.deep_view().subrange(0, i + 1 as int) =~= pre.push(v.deep_view()[i as int]));
            assert(v.deep_view()[i as int] =~= v@[i as int]@);
            reveal_strlit("\n");
            assert("\n"@ =~= seq!['\n']);
            if i > 0 {
                assert(out@ =~= join_lines(pre) + seq!['\n'] + v@[i as int]@);
            } else {
                assert(pre.len() == 0);
                assert(out@ =~= v@[i as int]@);
            }
        }
        i += 1;
    }
    proof {
        assert(v.deep_view().subrange(0, n as int) =~= v.deep_view());
    }
    out
}

impl SantatFile {
    /// The body of the most recently inserted section named `name`, the
    /// behavior of the original lookup map when a name repeats.
    pub fn get<'a>(&'a self, name: &str) -> (r: Option<&'a String>)
        ensures
            match r {
                Some(s) => lookup_spec(blocks_rep(self.blocks@), name@) == Some(s@),
                None => lookup_spec(blocks_rep(self.blocks@), name@) is None,
            },
    {
        let n = self.blocks.len();
        let mut i: usize = n;
        proof {
            assert(blocks_rep(self.blocks@).subrange(0, n as int) =~= blocks_rep(self.blocks@));
        }
        while i > 0
            invariant
                i <= n,
                n == self.blocks@.len(),
                blocks_rep(self.blocks@).len() == n,
                lookup_spec(blocks_rep(self.blocks@), name@) == lookup_spec(
                    blocks_rep(self.blocks@).subrange(0, i as int),
                    name@,
                ),
            decreases i,
        {
            let ghost rep = blocks_rep(self.blocks@);
            let ghost cur = rep.subrange(0, i as int);
            let b = &self.blocks[i - 1];
            proof {
                assert(cur.last() == rep[i - 1 as int]);
                assert(rep[i - 1 as int] == (b.name@, b.content@));
                assert(cur.drop_last() =~= rep.subrange(0, i - 1 as int));
            }
            if str_eq(b.name.as_str(), name) {
                return Some(&b.content);
            }
            i -= 1;
        }
        proof {
            assert(blocks_rep(self.blocks@).subrange(0, 0) =~= Seq::<(Seq<char>, Seq<char>)>::empty());
        }
        None
    }

    /// Whether a section with this name exists.
    pub fn has(&self, name: &str) -> (r: bool)
        ensures
            r == has_section(blocks_rep(self.blocks@), name@),
    {
        proof {
            lemma_lookup_has_section(blocks_rep(self.blocks@), name@);
        }
        match self.get(name) {
            Some(_) => true,
            None => false,
        }
    }
}

impl ParseError {
    /// The stable classification text for this error.
    pub fn message(&self) -> (r: String)
        ensures
            r@ == "Missing required --FILE-- section"@,
    {
        String::from_str("Missing required --FILE-- section")
    }
}

/// Parses a test-case file into its ordered sections, normalizing newlines
/// first. Fails if and only if no `FILE` section is present.
pub fn parse_santat_file(content: &str) -> (r: Result<SantatFile, ParseError>)
    ensures
        match r {
            Ok(f) => blocks_rep(f.blocks@) == parse_blocks_spec(content@) && has_section(
                parse_blocks_spec(content@),
                "FILE"@,
            ),
            Err(e) => e == ParseError::MissingFileSection && !has_section(
                parse_blocks_spec(content@),
                "FILE"@,
            ),
        },
{
    let chars = str_chars(content);
    let norm = normalize_newlines_chars(&chars);
    let lines = split_lines(&norm);
    let ghost ls = lines.deep_view();
    let n = lines.len();
    let mut cur: Option<Vec<char>> = None;
    let mut buf: Vec<Vec<char>> = Vec::new();
    let mut blocks: Vec<TestBlock> = Vec::new();
    let mut i: usize = 0;
    proof {
        assert(ls.skip(0) =~= ls);
        assert(buf.deep_view() =~= Seq::<Seq<char>>::empty());
        assert(blocks_rep(blocks@) =~= Seq::<(Seq<char>, Seq<char>)>::empty());
    }
    while i < n
        invariant
            i <= n,
            n == lines@.len(),
            ls == lines.deep_view(),
            ls.len() == n,
            parse_blocks_spec(content@) == parse_lines(
                ls.skip(i as int),
                opt_rep(cur),
                buf.deep_view(),
                blocks_rep(blocks@),
            ),
        decreases n - i,
    {
        let ghost rest = ls.skip(i as int);
        let ghost pcur = opt_rep(cur);
        let ghost pbuf = buf.deep_view();
        let ghost pacc = blocks_rep(blocks@);
        proof {
            assert(rest[0] == ls[i as int]);
            assert(ls[i as int] =~= lines@[i as int]@);
            assert(rest.skip(1) =~= ls.skip(i + 1 as int));
        }
        let line = &lines[i];
        match delimiter_of(line) {
            Some(name) => {
                if let Some(prev) = cur {
                    let body = join_chars(&buf);
                    blocks.push(
                        TestBlock {
                            name: chars_to_string(&prev),
                            content: chars_to_string(&body),
                        },
                    );
                    proof {
                        assert(blocks_rep(blocks@) =~= pacc.push((prev@, join_lines(pbuf))));
                    }
                }
                cur = Some(name);
                buf = Vec::new();
                proof {
                    assert(buf.deep_view() =~= Seq::<Seq<char>>::empty());
                }
            },
            None => {
                buf.push(line.clone());
                proof {
                    assert(buf.deep_view() =~~= pbuf.push(rest[0]));
                }
            },
        }
        i += 1;
    }
    proof {
        assert(ls.skip(n as int) =~= Seq::<Seq<char>>::empty());
    }
    if let Some(prev) = cur {
        let body = join_chars(&buf);
        let ghost pacc = blocks_rep(blocks@);
        let ghost pbuf = buf.deep_view();
        blocks.push(
            TestBlock { name: chars_to_string(&prev), content: chars_to_string(&body) },
        );
        proof {
            assert(blocks_rep(blocks@) =~= pacc.push((prev@, join_lines(pbuf))));
        }
    }
    let f = SantatFile { blocks };
    if f.has("FILE") {
        Ok(f)
    } else {
        Err(ParseError::MissingFileSection)
    }
}

/// Serializes sections back to text: each section is its delimiter line
/// followed by its body, sections joined by a single newline.
pub fn stringify_santat_blocks(blocks: &Vec<TestBlock>) -> (r: String)
    ensures
        r@ == serialize_spec(blocks_rep(blocks@)),
{
    let ghost rep = blocks_rep(blocks@);
    let ghost texts = rep.map_values(|b: (Seq<char>, Seq<char>)| block_text(b));
    let n = blocks.len();
    let mut out = String::new();
    let mut i: usize = 0;
    proof {
        assert(rep.len() == n);
        assert(texts.len() == n);
        assert(texts.subrange(0, 0) =~= Seq::<Seq<char>>::empty());
    }
    while i < n
        invariant
            i <= n,
            n == blocks@.len(),
            rep == blocks_rep(blocks@),
            texts == rep.map_values(|b: (Seq<char>, Seq<char>)| block_text(b)),
            texts.len() == n,
            out@ == join_lines(texts.subrange(0, i as int)),
        decreases n - i,
    {
        let ghost pre = texts.subrange(0, i as int);
        let ghost mid0 = out@;
        if i > 0 {
            out.append("\n");
        }
        let b = &blocks[i];
        out.append("--");
        out.append(b.name.as_str());
        out.append("--\n");
        out.append(b.content.as_str());
        proof {
            lemma_join_lines_snoc(pre, texts[i as int]);
            assert(texts.subrange(0, i + 1 as int) =~= pre.push(texts[i as int]));
            assert(rep[i as int] == (b.name@, b.content@));
            assert(texts[i as int] == block_text((b.name@, b.content@)));
            reveal_strlit("\n");
            reveal_strlit("--");
            reveal_strlit("--\n");
            assert("--"@ =~= seq!['-', '-']);
            assert("--\n"@ =~= seq!['-', '-', '\n']);
            assert("\n"@ =~= seq!['\n']);
            if i > 0 {
                assert(out@ =~= join_lines(pre) + seq!['\n'] + block_text((b.name@, b.content@)));
            } else {
                assert(pre.len() == 0);
                assert(out@ =~= block_text((b.name@, b.content@)));
            }
        }
        i += 1;
    }
    proof {
        assert(texts.subrange(0, n as int) =~= texts);
    }
    out
}

} // verus!
