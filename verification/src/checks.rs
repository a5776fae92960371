//! The checks a test case can trigger, their judgement against expected
//! output, diff rendering, and the color strategy for reports.

use vstd::prelude::*;
use crate::document::{blocks_rep, has_section, join_lines, join_strings_nl, SantatFile};
use crate::text::{
    dec_str, normalize_newlines, normalize_newlines_spec, str_eq, strip_trailing_spaces,
    trim_end_str, u64_to_string,
};

verus! {

/// One invocation mode of the target, each bound to the expectation
/// section that triggers it.
#[derive(Clone, Copy, PartialEq, Eq, Structural, Debug)]
pub enum CheckKind {
    Output,
    Ast,
    Tokens,
}

pub open spec fn label_spec(k: CheckKind) -> Seq<char> {
    match k {
        CheckKind::Output => "output"@,
        CheckKind::Ast => "ast"@,
        CheckKind::Tokens => "tokens"@,
    }
}

pub open spec fn section_spec(k: CheckKind) -> Seq<char> {
    match k {
        CheckKind::Output => "EXPECT"@,
        CheckKind::Ast => "EXPECT_AST"@,
        CheckKind::Tokens => "EXPECT_TOKENS"@,
    }
}

/// The extra arguments of each invocation mode, always ending with the
/// materialized source path.
pub open spec fn args_spec(k: CheckKind, source_path: Seq<char>) -> Seq<Seq<char>> {
    match k {
        CheckKind::Output => seq![source_path],
        CheckKind::Ast => seq!["ast"@, source_path],
        CheckKind::Tokens => seq!["tokens"@, source_path],
    }
}

impl CheckKind {
    /// The short name used in report lines.
    pub fn label(&self) -> (r: &'static str)
        ensures
            r@ == label_spec(*self),
    {
        match self {
            CheckKind::Output => "output",
            CheckKind::Ast => "ast",
            CheckKind::Tokens => "tokens",
        }
    }

    /// The expectation section whose presence triggers this check.
    pub fn expect_section(&self) -> (r: &'static str)
        ensures
            r@ == section_spec(*self),
    {
        match self {
            CheckKind::Output => "EXPECT",
            CheckKind::Ast => "EXPECT_AST",
            CheckKind::Tokens => "EXPECT_TOKENS",
        }
    }

    /// The argument vector for this check against one source file.
    pub fn args(&self, source_path: &str) -> (r: Vec<String>)
        ensures
            r.deep_view() == args_spec(*self, source_path@),
    {
        let mut v: Vec<String> = Vec::new();
        match self {
            CheckKind::Output => {},
            CheckKind::Ast => {
                v.push(String::from_str("ast"));
            },
            CheckKind::Tokens => {
                v.push(String::from_str("tokens"));
            },
        }
        v.push(String::from_str(source_path));
        proof {
            assert(v.deep_view() =~~= args_spec(*self, source_path@));
        }
        v
    }
}

/// The checks a document triggers, in the fixed documented order: output,
/// then AST, then tokens.
pub open spec fn triggered_spec(bs: Seq<(Seq<char>, Seq<char>)>) -> Seq<CheckKind> {
    (if has_section(bs, "EXPECT"@) {
        seq![CheckKind::Output]
    } else {
        Seq::empty()
    }) + (if has_section(bs, "EXPECT_AST"@) {
        seq![CheckKind::Ast]
    } else {
        Seq::empty()
    }) + (if has_section(bs, "EXPECT_TOKENS"@) {
        seq![CheckKind::Tokens]
    } else {
        Seq::empty()
    })
}

pub fn triggered_checks(doc: &SantatFile) -> (r: Vec<CheckKind>)
    ensures
        r@ == triggered_spec(blocks_rep(doc.blocks@)),
{
    let mut v: Vec<CheckKind> = Vec::new();
    if doc.has("EXPECT") {
        v.push(CheckKind::Output);
    }
    if doc.has("EXPECT_AST") {
        v.push(CheckKind::Ast);
    }
    if doc.has("EXPECT_TOKENS") {
        v.push(CheckKind::Tokens);
    }
    proof {
        assert(v@ =~= triggered_spec(blocks_rep(doc.blocks@)));
    }
    v
}

/// The color strategy: ANSI escapes when enabled, plain text otherwise,
/// chosen once at startup.
pub struct Colors {
    pub use_color: bool,
}

pub open spec fn red_spec(s: Seq<char>, use_color: bool) -> Seq<char> {
    if use_color {
        "\u{1b}[31m"@ + s + "\u{1b}[0m"@
    } else {
        s
    }
}

pub open spec fn green_spec(s: Seq<char>, use_color: bool) -> Seq<char> {
    if use_color {
        "\u{1b}[32m"@ + s + "\u{1b}[0m"@
    } else {
        s
    }
}

pub open spec fn cyan_spec(s: Seq<char>, use_color: bool) -> Seq<char> {
    if use_color {
        "\u{1b}[36m"@ + s + "\u{1b}[0m"@
    } else {
        s
    }
}

pub open spec fn bold_spec(s: Seq<char>, use_color: bool) -> Seq<char> {
    if use_color {
        "\u{1b}[1m"@ + s + "\u{1b}[0m"@
    } else {
        s
    }
}

impl Colors {
    pub fn new(use_color: bool) -> (c: Colors)
        ensures
            c.use_color == use_color,
    {
        Colors { use_color }
    }

    pub fn red(&self, s: &str) -> (r: String)
        ensures
            r@ == red_spec(s@, self.use_color),
    {
        if self.use_color {
            let mut o = String::from_str("\u{1b}[31m");
            o.append(s);
            o.append("\u{1b}[0m");
            o
        } else {
            String::from_str(s)
        }
    }

    pub fn green(&self, s: &str) -> (r: String)
        ensures
            r@ == green_spec(s@, self.use_color),
    {
        if self.use_color {
            let mut o = String::from_str("\u{1b}[32m");
            o.append(s);
            o.append("\u{1b}[0m");
            o
        } else {
            String::from_str(s)
        }
    }

    pub fn cyan(&self, s: &str) -> (r: String)
        ensures
            r@ == cyan_spec(s@, self.use_color),
    {
        if self.use_color {
            let mut o = String::from_str("\u{1b}[36m");
            o.append(s);
            o.append("\u{1b}[0m");
            o
        } else {
            String::from_str(s)
        }
    }

    pub fn bold(&self, s: &str) -> (r: String)
        ensures
            r@ == bold_spec(s@, self.use_color),
    {
        if self.use_color {
            let mut o = String::from_str("\u{1b}[1m");
            o.append(s);
            o.append("\u{1b}[0m");
            o
        } else {
            String::from_str(s)
        }
    }
}

/// One diffed line's disposition.
#[derive(Clone, Copy, PartialEq, Eq, Structural, Debug)]
pub enum DiffTag {
    Delete,
    Insert,
    Equal,
}

/// One line of a line-level diff.
pub struct DiffChange {
    pub tag: DiffTag,
    pub text: String,
}

pub open spec fn diff_tag_code(t: DiffTag) -> int {
    match t {
        DiffTag::Delete => 0,
        DiffTag::Insert => 1,
        DiffTag::Equal => 2,
    }
}

pub open spec fn changes_rep(cs: Seq<DiffChange>) -> Seq<(int, Seq<char>)> {
    cs.map_values(|c: DiffChange| (diff_tag_code(c.tag), c.text@))
}

/// The line-level diff of two texts, as the `similar` crate computes it: a
/// function of the two texts alone.
pub uninterp spec fn line_diff(expected: Seq<char>, actual: Seq<char>) -> Seq<(int, Seq<char>)>;

/// Relies on `similar::TextDiff::from_lines` and `iter_all_changes`: a
/// deterministic line diff of the two texts, each change tagged delete,
/// insert or equal, carrying the affected line.
#[verifier::external_body]
fn diff_changes(expected: &str, actual: &str) -> (r: Vec<DiffChange>)
    ensures
        changes_rep(r@) == line_diff(expected@, actual@),
{
    let diff = similar::TextDiff::from_lines(expected, actual);
    let mut r: Vec<DiffChange> = Vec::new();
    for c in diff.iter_all_changes() {
        let tag = match c.tag() {
            similar::ChangeTag::Delete => DiffTag::Delete,
            similar::ChangeTag::Insert => DiffTag::Insert,
            similar::ChangeTag::Equal => DiffTag::Equal,
        };
        r.push(DiffChange { tag, text: c.value().to_string() });
    }
    r
}

pub open spec fn diff_sign_spec(code: int, use_color: bool) -> Seq<char> {
    if code == 0 {
        red_spec("-"@, use_color)
    } else if code == 1 {
        green_spec("+"@, use_color)
    } else {
        " "@
    }
}

pub open spec fn diff_line_spec(c: (int, Seq<char>), use_color: bool) -> Seq<char> {
    diff_sign_spec(c.0, use_color) + strip_trailing_spaces(c.1)
}

/// A rendered unified diff: the two label header lines, then one line per
/// change, its sign then the line with trailing whitespace trimmed.
pub open spec fn render_diff_spec(
    cs: Seq<(int, Seq<char>)>,
    expected_label: Seq<char>,
    actual_label: Seq<char>,
    use_color: bool,
) -> Seq<char> {
    join_lines(
        seq!["--- "@ + expected_label, "+++ "@ + actual_label] + cs.map_values(
            |c: (int, Seq<char>)| diff_line_spec(c, use_color),
        ),
    )
}

/// Renders diff changes as a unified diff block.
pub fn render_diff(
    changes: &Vec<DiffChange>,
    expected_label: &str,
    actual_label: &str,
    colors: &Colors,
) -> (r: String)
    ensures
        r@ == render_diff_spec(changes_rep(changes@), expected_label@, actual_label@, colors.use_color),
{
    let ghost mapped = changes_rep(changes@).map_values(
        |c: (int, Seq<char>)| diff_line_spec(c, colors.use_color),
    );
    let mut lines: Vec<String> = Vec::new();
    let mut h1 = String::from_str("--- ");
    h1.append(expected_label);
    lines.push(h1);
    let mut h2 = String::from_str("+++ ");
    h2.append(actual_label);
    lines.push(h2);
    let n = changes.len();
    let mut i: usize = 0;
    proof {
        assert(mapped.len() == n);
        assert(lines.deep_view() =~~= seq!["--- "@ + expected_label@, "+++ "@ + actual_label@]
            + mapped.subrange(0, 0));
    }
    while i < n
        invariant
            i <= n,
            n == changes@.len(),
            mapped == changes_rep(changes@).map_values(
                |c: (int, Seq<char>)| diff_line_spec(c, colors.use_color),
            ),
            mapped.len() == n,
            lines.deep_view() == seq!["--- "@ + expected_label@, "+++ "@ + actual_label@]
                + mapped.subrange(0, i as int),
        decreases n - i,
    {
        let c = &changes[i];
        let mut sign = match c.tag {
            DiffTag::Delete => colors.red("-"),
            DiffTag::Insert => colors.green("+"),
            DiffTag::Equal => String::from_str(" "),
        };
        sign.append(trim_end_str(c.text.as_str()).as_str());
        proof {
            assert(changes_rep(changes@)[i as int] == (diff_tag_code(c.tag), c.text@));
            assert(sign@ == diff_line_spec(changes_rep(changes@)[i as int], colors.use_color));
            assert(mapped[i as int] == diff_line_spec(
                changes_rep(changes@)[i as int],
                colors.use_color,
            ));
        }
        let ghost pdeep = lines.deep_view();
        let ghost signv = sign@;
        lines.push(sign);
        proof {
            assert(lines.deep_view() =~~= pdeep.push(signv));
            assert(mapped.subrange(0, i + 1 as int) =~= mapped.subrange(0, i as int).push(
                mapped[i as int],
            ));
            assert(pdeep.push(signv) =~= seq!["--- "@ + expected_label@, "+++ "@ + actual_label@]
                + mapped.subrange(0, i + 1 as int));
        }
        i += 1;
    }
    proof {
        assert(mapped.subrange(0, n as int) =~= mapped);
    }
    join_strings_nl(&lines)
}

/// Renders the unified line diff of expected against actual output.
pub fn create_unified_diff(
    expected: &str,
    actual: &str,
    expected_label: &str,
    actual_label: &str,
    colors: &Colors,
) -> (r: String)
    ensures
        r@ == render_diff_spec(
            line_diff(expected@, actual@),
            expected_label@,
            actual_label@,
            colors.use_color,
        ),
{
    let changes = diff_changes(expected, actual);
    render_diff(&changes, expected_label, actual_label, colors)
}

/// What one invocation of the target produced.
pub struct CheckOutcome {
    pub exit_code: i32,
    pub stdout: String,
    pub stderr: String,
    pub timed_out: bool,
}

/// The verdict of a single check.
pub enum CheckJudgment {
    Passed,
    Failed { diff: String },
    TimedOut,
}

/// Judges one check: a timed-out run fails as timed out; otherwise the
/// expected text and the captured stdout are compared for exact equality
/// after newline normalization, a mismatch carrying the rendered diff
/// (stored without color, as the original keeps stored output plain).
pub fn judge_check(kind: CheckKind, expected: &str, outcome: &CheckOutcome) -> (j: CheckJudgment)
    ensures
        match j {
            CheckJudgment::TimedOut => outcome.timed_out,
            CheckJudgment::Passed => !outcome.timed_out && normalize_newlines_spec(expected@)
                == normalize_newlines_spec(outcome.stdout@),
            CheckJudgment::Failed { diff } => !outcome.timed_out && normalize_newlines_spec(
                expected@,
            ) != normalize_newlines_spec(outcome.stdout@) && diff@ == render_diff_spec(
                line_diff(expected@, outcome.stdout@),
                label_spec(kind) + " expected"@,
                label_spec(kind) + " actual"@,
                false,
            ),
        },
{
    if outcome.timed_out {
        return CheckJudgment::TimedOut;
    }
    let e_norm = normalize_newlines(expected);
    let a_norm = normalize_newlines(outcome.stdout.as_str());
    if str_eq(e_norm.as_str(), a_norm.as_str()) {
        CheckJudgment::Passed
    } else {
        let mut el = String::from_str(kind.label());
        el.append(" expected");
        let mut al = String::from_str(kind.label());
        al.append(" actual");
        let diff = create_unified_diff(
            expected,
            outcome.stdout.as_str(),
            el.as_str(),
            al.as_str(),
            &Colors::new(false),
        );
        CheckJudgment::Failed { diff }
    }
}

/// The report lines of one judged check.
pub open spec fn check_report_spec(kind: CheckKind, j: CheckJudgment, timeout_secs: u64) -> Seq<
    Seq<char>,
> {
    match j {
        CheckJudgment::Passed => seq!["    ✓ "@ + label_spec(kind) + " matches"@],
        CheckJudgment::TimedOut => seq![
            "    ✗ "@ + label_spec(kind) + " timed out after "@ + dec_str(timeout_secs as nat)
                + "s"@,
        ],
        CheckJudgment::Failed { diff } => seq![
            "    ✗ "@ + label_spec(kind) + " differs"@,
            diff@,
        ],
    }
}

pub fn check_report_lines(kind: CheckKind, j: &CheckJudgment, timeout_secs: u64) -> (r: Vec<String>)
    ensures
        r.deep_view() == check_report_spec(kind, *j, timeout_secs),
{
    let mut r: Vec<String> = Vec::new();
    match j {
        CheckJudgment::Passed => {
            let mut l = String::from_str("    ✓ ");
            l.append(kind.label());
            l.append(" matches");
            r.push(l);
        },
        CheckJudgment::TimedOut => {
            let mut l = String::from_str("    ✗ ");
            l.append(kind.label());
            l.append(" timed out after ");
            l.append(u64_to_string(timeout_secs).as_str());
            l.append("s");
            r.push(l);
        },
        CheckJudgment::Failed { diff } => {
            let mut l = String::from_str("    ✗ ");
            l.append(kind.label());
            l.append(" differs");
            r.push(l);
            r.push(crate::text::clone_string(diff));
        },
    }
    proof {
        assert(r.deep_view() =~~= check_report_spec(kind, *j, timeout_secs));
    }
    r
}

/// The report line of a check whose subprocess could not be run at all;
/// `msg` is the spawn error's text.
pub fn check_error_line(kind: CheckKind, msg: &str) -> (r: String)
    ensures
        r@ == "    ✗ "@ + label_spec(kind) + " failed: "@ + msg@,
{
    let mut l = String::from_str("    ✗ ");
    l.append(kind.label());
    l.append(" failed: ");
    l.append(msg);
    l
}

} // verus!
