//! Run-level reporting: discovery of test-case files by name, the summary
//! line, and the process exit status.

use vstd::prelude::*;
use crate::checks::{bold_spec, cyan_spec, green_spec, red_spec, Colors};
use crate::executor::TestResult;
use crate::text::{dec_str, replace_all, replace_spec, str_eq, u64_to_string};

verus! {

/// Whether a file name carries the test-case extension, as the path-based
/// check does: it ends in `.santat` with a non-empty stem.
pub open spec fn is_santat_name_spec(s: Seq<char>) -> bool {
    s.len() >= 8 && s.subrange(s.len() - 7, s.len() as int) == ".santat"@
}

pub fn is_santat_file_name(name: &str) -> (r: bool)
    ensures
        r == is_santat_name_spec(name@),
{
    let n = name.unicode_len();
    if n < 8 {
        return false;
    }
    let tail = name.substring_char(n - 7, n);
    str_eq(tail, ".santat")
}

/// How many results passed.
pub open spec fn count_passed_spec(rs: Seq<TestResult>) -> int
    decreases rs.len(),
{
    if rs.len() == 0 {
        0int
    } else {
        count_passed_spec(rs.drop_last()) + if rs.last().passed {
            1int
        } else {
            0int
        }
    }
}

pub fn count_passed(results: &Vec<TestResult>) -> (r: usize)
    ensures
        r as int == count_passed_spec(results@),
        r <= results@.len(),
{
    let n = results.len();
    let mut count: usize = 0;
    let mut i: usize = 0;
    proof {
        assert(results@.subrange(0, 0) =~= Seq::<TestResult>::empty());
    }
    while i < n
        invariant
            i <= n,
            n == results@.len(),
            count <= i,
            count as int == count_passed_spec(results@.subrange(0, i as int)),
        decreases n - i,
    {
        proof {
            let next = results@.subrange(0, i + 1 as int);
            assert(next.drop_last() =~= results@.subrange(0, i as int));
            assert(next.last() == results@[i as int]);
        }
        if results[i].passed {
            count += 1;
        }
        i += 1;
    }
    proof {
        assert(results@.subrange(0, n as int) =~= results@);
    }
    count
}

/// A stored report colorized for display: the check marks and the verdict
/// and update words wrapped in their colors. Without color the text is
/// unchanged.
pub open spec fn colorize_spec(s: Seq<char>, use_color: bool) -> Seq<char> {
    if use_color {
        replace_spec(
            replace_spec(
                replace_spec(
                    replace_spec(
                        replace_spec(s, "✓"@, green_spec("✓"@, true)),
                        "✗"@,
                        red_spec("✗"@, true),
                    ),
                    "PASS"@,
                    green_spec("PASS"@, true),
                ),
                "FAIL"@,
                red_spec("FAIL"@, true),
            ),
            "UPDATED"@,
            cyan_spec("UPDATED"@, true),
        )
    } else {
        s
    }
}

pub fn colorize_output(s: &str, colors: &Colors) -> (r: String)
    ensures
        r@ == colorize_spec(s@, colors.use_color),
{
    if colors.use_color {
        let a = replace_all(s, "✓", colors.green("✓").as_str());
        let b = replace_all(a.as_str(), "✗", colors.red("✗").as_str());
        let c = replace_all(b.as_str(), "PASS", colors.green("PASS").as_str());
        let d = replace_all(c.as_str(), "FAIL", colors.red("FAIL").as_str());
        replace_all(d.as_str(), "UPDATED", colors.cyan("UPDATED").as_str())
    } else {
        String::from_str(s)
    }
}

/// The closing summary line of a run.
pub fn summary_line(colors: &Colors, pass: usize, total: usize) -> (r: String)
    requires
        pass <= total,
    ensures
        r@ == bold_spec("Summary"@, colors.use_color) + ": "@ + dec_str(pass as nat) + "/"@
            + dec_str(total as nat) + " passing, "@ + dec_str((total - pass) as nat) + " failing"@,
{
    let mut l = colors.bold("Summary");
    l.append(": ");
    l.append(u64_to_string(pass as u64).as_str());
    l.append("/");
    l.append(u64_to_string(total as u64).as_str());
    l.append(" passing, ");
    l.append(u64_to_string((total - pass) as u64).as_str());
    l.append(" failing");
    l
}

/// The process exit status of a run: 2 when no test-case file was found,
/// 0 when every case passed, 1 otherwise.
pub open spec fn exit_status_spec(total: int, pass: int) -> int {
    if total == 0 {
        2int
    } else if pass == total {
        0int
    } else {
        1int
    }
}

pub fn exit_status(total: usize, pass: usize) -> (r: i32)
    requires
        pass <= total,
    ensures
        r as int == exit_status_spec(total as int, pass as int),
{
    if total == 0 {
        2
    } else if pass == total {
        0
    } else {
        1
    }
}

} // verus!
