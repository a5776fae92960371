//! Per-case logic of the harness: the case title, the report assembly and
//! the pass/fail verdict of one test-case file.

use vstd::prelude::*;
use crate::checks::CheckJudgment;
use crate::document::{blocks_rep, join_lines, join_strings_nl, lookup_spec, SantatFile};
use crate::text::{trim_spec, trim_str};

verus! {

/// The outcome of one test case: its verdict and its report text.
pub struct TestResult {
    pub passed: bool,
    pub output: String,
}

/// The fixed name of the materialized source file inside a workspace.
pub fn source_file_name() -> (r: &'static str)
    ensures
        r@ == "test.santa"@,
{
    "test.santa"
}

/// The case title: the trimmed `TEST` section when present and non-empty,
/// else the given fallback (the file's base name).
pub open spec fn case_title_spec(bs: Seq<(Seq<char>, Seq<char>)>, fallback: Seq<char>) -> Seq<
    char,
> {
    match lookup_spec(bs, "TEST"@) {
        Some(t) => if trim_spec(t).len() > 0 {
            trim_spec(t)
        } else {
            fallback
        },
        None => fallback,
    }
}

pub fn case_title(doc: &SantatFile, fallback: &str) -> (r: String)
    ensures
        r@ == case_title_spec(blocks_rep(doc.blocks@), fallback@),
{
    match doc.get("TEST") {
        Some(t) => {
            let trimmed = trim_str(t.as_str());
            if trimmed.as_str().unicode_len() > 0 {
                trimmed
            } else {
                String::from_str(fallback)
            }
        },
        None => String::from_str(fallback),
    }
}

/// The heading line of a case report.
pub fn title_line(title: &str, path: &str) -> (r: String)
    ensures
        r@ == "• "@ + title@ + " ("@ + path@ + ")"@,
{
    let mut l = String::from_str("• ");
    l.append(title);
    l.append(" (");
    l.append(path);
    l.append(")");
    l
}

/// The report line noting that a file's expectations were rewritten.
pub fn updated_line(file_name: &str) -> (r: String)
    ensures
        r@ == "  UPDATED "@ + file_name@,
{
    let mut l = String::from_str("  UPDATED ");
    l.append(file_name);
    l
}

/// A case passes exactly when no check failed, timed out or errored.
pub fn case_passed(judgments: &Vec<CheckJudgment>, had_errors: bool) -> (r: bool)
    ensures
        r == (!had_errors && forall|i: int|
            0 <= i < judgments@.len() ==> (#[trigger] judgments@[i]) is Passed),
{
    if had_errors {
        return false;
    }
    let n = judgments.len();
    let mut i: usize = 0;
    while i < n
        invariant
            i <= n,
            n == judgments@.len(),
            forall|k: int| 0 <= k < i ==> (#[trigger] judgments@[k]) is Passed,
        decreases n - i,
    {
        match &judgments[i] {
            CheckJudgment::Passed => {},
            CheckJudgment::Failed { .. } => {
                return false;
            },
            CheckJudgment::TimedOut => {
                return false;
            },
        }
        i += 1;
    }
    true
}

/// Closes a case report: appends the final `PASS` or `FAIL` line and joins
/// everything into the stored report text.
pub fn finish_case(lines: Vec<String>, passed: bool) -> (r: TestResult)
    ensures
        r.passed == passed,
        r.output@ == join_lines(
            lines.deep_view().push(
                if passed {
                    "  PASS"@
                } else {
                    "  FAIL"@
                },
            ),
        ),
{
    let mut lines = lines;
    let ghost pre = lines.deep_view();
    if passed {
        lines.push(String::from_str("  PASS"));
        proof {
            assert(lines.deep_view() =~~= pre.push("  PASS"@));
        }
    } else {
        lines.push(String::from_str("  FAIL"));
        proof {
            assert(lines.deep_view() =~~= pre.push("  FAIL"@));
        }
    }
    let output = join_strings_nl(&lines);
    TestResult { passed, output }
}

} // verus!
