use santa_tools::checks::{
    check_error_line, check_report_lines, create_unified_diff, judge_check, triggered_checks,
    CheckJudgment, CheckKind, CheckOutcome, Colors,
};
use santa_tools::document::parse_santat_file;
use santa_tools::executor::{case_passed, case_title, finish_case, source_file_name, title_line};
use santa_tools::report::{colorize_output, count_passed, exit_status, is_santat_file_name, summary_line};
use santa_tools::runner::{HostContext, Runner};
use santa_tools::update::apply_failure_updates;
use santa_tools::text::replace_all;

fn outcome(stdout: &str, timed_out: bool) -> CheckOutcome {
    CheckOutcome {
        exit_code: 0,
        stdout: stdout.to_string(),
        stderr: String::new(),
        timed_out,
    }
}

#[test]
fn test_colors_with_color() {
    let colors = Colors::new(true);
    let red_text = colors.red("error");
    assert!(red_text.contains("\x1b[31m"));
    assert!(red_text.contains("\x1b[0m"));
}

#[test]
fn test_colors_without_color() {
    let colors = Colors::new(false);
    let red_text = colors.red("error");
    assert_eq!(red_text, "error");
}

#[test]
fn test_passing_case_scenario() {
    // input `--FILE--\nprint(1+1)\n--EXPECT--\n2\n` against an
    // implementation that prints `2`
    let doc = parse_santat_file("--FILE--\nprint(1+1)\n--EXPECT--\n2\n").unwrap();
    let checks = triggered_checks(&doc);
    assert_eq!(checks, vec![CheckKind::Output]);
    let expected = doc.get("EXPECT").unwrap().clone();
    let j = judge_check(CheckKind::Output, &expected, &outcome("2", false));
    assert!(matches!(j, CheckJudgment::Passed));
    let lines = check_report_lines(CheckKind::Output, &j, 5);
    assert_eq!(lines, vec!["    ✓ output matches".to_string()]);
    assert!(case_passed(&vec![j], false));
    let colors = Colors::new(false);
    assert_eq!(summary_line(&colors, 1, 1), "Summary: 1/1 passing, 0 failing");
    assert_eq!(exit_status(1, 1), 0);
}

#[test]
fn test_failing_case_scenario_with_update() {
    // same file but the implementation prints `3`
    let text = "--FILE--\nprint(1+1)\n--EXPECT--\n2\n";
    let mut doc = parse_santat_file(text).unwrap();
    let expected = doc.get("EXPECT").unwrap().clone();
    let j = judge_check(CheckKind::Output, &expected, &outcome("3", false));
    let diff = match &j {
        CheckJudgment::Failed { diff } => diff.clone(),
        _ => panic!("expected a failing judgement"),
    };
    assert!(diff.contains("-2"));
    assert!(diff.contains("+3"));
    assert!(!case_passed(&vec![j], false));
    assert_eq!(exit_status(1, 0), 1);

    // update mode rewrites EXPECT with the observed output, FILE untouched
    let failures = vec![("EXPECT".to_string(), "3".to_string())];
    let changed = apply_failure_updates(&mut doc.blocks, &failures);
    assert!(changed);
    assert_eq!(doc.get("FILE").unwrap().as_str(), "print(1+1)");
    assert_eq!(doc.get("EXPECT").unwrap().as_str(), "3");
}

#[test]
fn test_update_is_idempotent() {
    let mut doc = parse_santat_file("--FILE--\nf\n--EXPECT--\nold").unwrap();
    let failures = vec![("EXPECT".to_string(), "new out".to_string())];
    assert!(apply_failure_updates(&mut doc.blocks, &failures));
    // no intervening implementation change: the second pass reports no change
    assert!(!apply_failure_updates(&mut doc.blocks, &failures));
    assert_eq!(doc.get("EXPECT").unwrap().as_str(), "new out");
}

#[test]
fn test_timeout_scenario() {
    let doc = parse_santat_file("--FILE--\nloop {}\n--EXPECT--\nnever").unwrap();
    let expected = doc.get("EXPECT").unwrap().clone();
    let j = judge_check(CheckKind::Output, &expected, &outcome("", true));
    assert!(matches!(j, CheckJudgment::TimedOut));
    let lines = check_report_lines(CheckKind::Output, &j, 1);
    assert_eq!(lines, vec!["    ✗ output timed out after 1s".to_string()]);
    let r = finish_case(lines, case_passed(&vec![j], false));
    assert!(!r.passed);
    assert!(r.output.ends_with("  FAIL"));
}

#[test]
fn test_crlf_and_lf_outputs_are_judged_equal() {
    let j = judge_check(CheckKind::Output, "a\r\nb\r\n", &outcome("a\nb\n", false));
    assert!(matches!(j, CheckJudgment::Passed));
    let j2 = judge_check(CheckKind::Output, "a\nb", &outcome("a\r\nb", false));
    assert!(matches!(j2, CheckJudgment::Passed));
}

#[test]
fn test_failing_checks_are_independent() {
    // both EXPECT and EXPECT_AST present, only EXPECT_AST differs
    let text = "--FILE--\nprint(1)\n--EXPECT--\n1\n--EXPECT_AST--\n(old)\n";
    let mut doc = parse_santat_file(text).unwrap();
    let checks = triggered_checks(&doc);
    assert_eq!(checks, vec![CheckKind::Output, CheckKind::Ast]);

    let expected_out = doc.get("EXPECT").unwrap().clone();
    let expected_ast = doc.get("EXPECT_AST").unwrap().clone();
    let j_out = judge_check(CheckKind::Output, &expected_out, &outcome("1", false));
    let j_ast = judge_check(CheckKind::Ast, &expected_ast, &outcome("(new)", false));
    assert!(matches!(j_out, CheckJudgment::Passed));
    assert!(matches!(j_ast, CheckJudgment::Failed { .. }));
    let judgments = vec![j_out, j_ast];
    let failing = judgments
        .iter()
        .filter(|j| matches!(j, CheckJudgment::Failed { .. }))
        .count();
    assert_eq!(failing, 1);
    assert!(!case_passed(&judgments, false));

    // the update writer rewrites only EXPECT_AST
    let failures = vec![("EXPECT_AST".to_string(), "(new)".to_string())];
    assert!(apply_failure_updates(&mut doc.blocks, &failures));
    assert_eq!(doc.get("EXPECT").unwrap().as_str(), "1");
    assert_eq!(doc.get("EXPECT_AST").unwrap().as_str(), "(new)");
    assert_eq!(doc.get("FILE").unwrap().as_str(), "print(1)");
}

#[test]
fn test_unified_diff_format() {
    let colors = Colors::new(false);
    let diff = create_unified_diff("2\n", "3\n", "output expected", "output actual", &colors);
    let lines: Vec<&str> = diff.lines().collect();
    assert_eq!(lines[0], "--- output expected");
    assert_eq!(lines[1], "+++ output actual");
    assert!(lines.contains(&"-2"));
    assert!(lines.contains(&"+3"));
}

#[test]
fn test_unified_diff_marks_equal_lines() {
    let colors = Colors::new(false);
    let diff = create_unified_diff("a\nb\n", "a\nc\n", "expected", "actual", &colors);
    let lines: Vec<&str> = diff.lines().collect();
    assert!(lines.contains(&" a"));
    assert!(lines.contains(&"-b"));
    assert!(lines.contains(&"+c"));
}

#[test]
fn test_check_args_and_sections() {
    assert_eq!(CheckKind::Output.args("w/test.santa"), vec!["w/test.santa".to_string()]);
    assert_eq!(
        CheckKind::Ast.args("w/test.santa"),
        vec!["ast".to_string(), "w/test.santa".to_string()]
    );
    assert_eq!(
        CheckKind::Tokens.args("w/test.santa"),
        vec!["tokens".to_string(), "w/test.santa".to_string()]
    );
    assert_eq!(CheckKind::Output.expect_section(), "EXPECT");
    assert_eq!(CheckKind::Ast.expect_section(), "EXPECT_AST");
    assert_eq!(CheckKind::Tokens.expect_section(), "EXPECT_TOKENS");
    assert_eq!(source_file_name(), "test.santa");
}

#[test]
fn test_case_title_prefers_trimmed_test_section() {
    let doc = parse_santat_file("--FILE--\nx\n--TEST--\n  My title  ").unwrap();
    assert_eq!(case_title(&doc, "file.santat"), "My title");
    let doc2 = parse_santat_file("--FILE--\nx\n--TEST--\n   ").unwrap();
    assert_eq!(case_title(&doc2, "file.santat"), "file.santat");
    let doc3 = parse_santat_file("--FILE--\nx").unwrap();
    assert_eq!(case_title(&doc3, "file.santat"), "file.santat");
    assert_eq!(title_line("My title", "tests/a.santat"), "• My title (tests/a.santat)");
}

#[test]
fn test_check_error_line_format() {
    let l = check_error_line(CheckKind::Tokens, "No such file or directory");
    assert_eq!(l, "    ✗ tokens failed: No such file or directory");
}

#[test]
fn test_runner_parse_local_and_docker() {
    let local = Runner::parse("./cli", "");
    assert!(matches!(local, Runner::Local { .. }));
    match Runner::parse("docker://edd/santa-go:cli", "--network host --cpus 2") {
        Runner::Docker { image, extra } => {
            assert_eq!(image, "edd/santa-go:cli");
            assert_eq!(extra, vec!["--network".to_string(), "host".to_string(),
                "--cpus".to_string(), "2".to_string()]);
        }
        _ => panic!("expected containerized execution"),
    }
}

#[test]
fn test_runner_command_local() {
    let r = Runner::parse("./cli", "");
    let host = HostContext {
        cwd: "/work".to_string(),
        uid: 1000,
        gid: 1000,
        stdout_is_tty: false,
    };
    let (prog, args) = r.command(&vec!["ast".to_string(), "t.santa".to_string()], &host);
    assert_eq!(prog, "./cli");
    assert_eq!(args, vec!["ast".to_string(), "t.santa".to_string()]);
}

#[test]
fn test_runner_command_docker() {
    let r = Runner::parse("docker://img:tag", "--cpus 2");
    let host = HostContext {
        cwd: "/work".to_string(),
        uid: 1000,
        gid: 100,
        stdout_is_tty: true,
    };
    let (prog, args) = r.command(&vec!["t.santa".to_string()], &host);
    assert_eq!(prog, "docker");
    assert_eq!(
        args,
        vec![
            "run".to_string(),
            "--rm".to_string(),
            "-i".to_string(),
            "-t".to_string(),
            "-e".to_string(),
            "HOST_UID=1000".to_string(),
            "-e".to_string(),
            "HOST_GID=100".to_string(),
            "--cpus".to_string(),
            "2".to_string(),
            "-v".to_string(),
            "/work:/work".to_string(),
            "-w".to_string(),
            "/work".to_string(),
            "img:tag".to_string(),
            "t.santa".to_string(),
        ]
    );
}

#[test]
fn test_runner_command_docker_no_tty() {
    let r = Runner::parse("docker://img", "");
    let host = HostContext {
        cwd: "/w".to_string(),
        uid: 0,
        gid: 0,
        stdout_is_tty: false,
    };
    let (_, args) = r.command(&vec![], &host);
    assert!(!args.contains(&"-t".to_string()));
    assert!(args.contains(&"HOST_UID=0".to_string()));
}

#[test]
fn test_replace_all_scans_left_to_right() {
    assert_eq!(replace_all("a-b-c", "-", "+"), "a+b+c");
    assert_eq!(replace_all("aaa", "aa", "b"), "ba");
    assert_eq!(replace_all("none here", "zzz", "y"), "none here");
    assert_eq!(replace_all("PASS and PASS", "PASS", "ok"), "ok and ok");
}

#[test]
fn test_colorize_output_wraps_marks() {
    let plain = "    ✓ output matches\n  PASS";
    let c = colorize_output(plain, &Colors::new(true));
    assert!(c.contains("\x1b[32m✓\x1b[0m"));
    assert!(c.contains("\x1b[32mPASS\x1b[0m"));
    let un = colorize_output(plain, &Colors::new(false));
    assert_eq!(un, plain);
}

#[test]
fn test_discovery_name_filter() {
    assert!(is_santat_file_name("basic.santat"));
    assert!(is_santat_file_name("a.b.santat"));
    assert!(!is_santat_file_name(".santat"));
    assert!(!is_santat_file_name("basic.santa"));
    assert!(!is_santat_file_name("santat"));
    assert!(!is_santat_file_name("basic.santats"));
}

#[test]
fn test_count_and_summary() {
    let results = vec![
        finish_case(vec!["• a (a.santat)".to_string()], true),
        finish_case(vec!["• b (b.santat)".to_string()], false),
        finish_case(vec!["• c (c.santat)".to_string()], true),
    ];
    assert_eq!(count_passed(&results), 2);
    let colors = Colors::new(false);
    assert_eq!(summary_line(&colors, 2, 3), "Summary: 2/3 passing, 1 failing");
    assert_eq!(exit_status(3, 2), 1);
    assert_eq!(exit_status(0, 0), 2);
    assert!(results[0].output.ends_with("  PASS"));
    assert_eq!(results[1].output, "• b (b.santat)\n  FAIL");
}
