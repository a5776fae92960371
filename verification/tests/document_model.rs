use santa_tools::document::{parse_santat_file, stringify_santat_blocks, TestBlock};
use santa_tools::text::normalize_newlines;

#[test]
fn test_parse_santat_file() {
    let content = r#"--FILE--
print("hello world")

--EXPECT--
hello world

--TEST--
Simple hello world test"#;

    let result = parse_santat_file(content).unwrap();
    assert_eq!(result.blocks.len(), 3);
    assert!(result.get("FILE").is_some());
    assert!(result.get("EXPECT").is_some());
    assert!(result.get("TEST").is_some());
    assert_eq!(result.get("FILE").unwrap().as_str(), "print(\"hello world\")\n");
    assert_eq!(result.get("EXPECT").unwrap().as_str(), "hello world\n");
    assert_eq!(result.get("TEST").unwrap().as_str(), "Simple hello world test");
}

#[test]
fn test_parse_santat_file_missing_file_section() {
    let content = r#"--EXPECT--
hello world"#;

    let result = parse_santat_file(content);
    assert!(result.is_err());
    assert!(result
        .unwrap_err()
        .message()
        .contains("Missing required --FILE-- section"));
}

#[test]
fn test_normalize_newlines() {
    assert_eq!(normalize_newlines("hello\r\nworld"), "hello\nworld");
    assert_eq!(normalize_newlines("hello\nworld"), "hello\nworld");
    assert_eq!(normalize_newlines("hello world"), "hello world");
}

#[test]
fn test_stringify_santat_blocks() {
    let blocks = vec![
        TestBlock {
            name: "FILE".to_string(),
            content: "print(\"test\")".to_string(),
        },
        TestBlock {
            name: "EXPECT".to_string(),
            content: "test".to_string(),
        },
    ];

    let result = stringify_santat_blocks(&blocks);
    assert_eq!(result, "--FILE--\nprint(\"test\")\n--EXPECT--\ntest");
}

#[test]
fn test_round_trip_reproduces_text() {
    let text = "--FILE--\nlet x = 1;\nprint(x)\n--EXPECT--\n1\n--TEST--\nround trip";
    let parsed = parse_santat_file(text).unwrap();
    assert_eq!(stringify_santat_blocks(&parsed.blocks), text);
}

#[test]
fn test_round_trip_drops_single_trailing_newline() {
    let text = "--FILE--\nprint(1)\n--EXPECT--\n1\n";
    let parsed = parse_santat_file(text).unwrap();
    assert_eq!(stringify_santat_blocks(&parsed.blocks), "--FILE--\nprint(1)\n--EXPECT--\n1");
}

#[test]
fn test_round_trip_preserves_internal_blank_lines() {
    let text = "--FILE--\na\n\n\nb\n--EXPECT--\nout";
    let parsed = parse_santat_file(text).unwrap();
    assert_eq!(parsed.get("FILE").unwrap().as_str(), "a\n\n\nb");
    assert_eq!(stringify_santat_blocks(&parsed.blocks), text);
}

#[test]
fn test_missing_file_error_is_stable_across_section_sets() {
    for content in [
        "--EXPECT--\nx",
        "--EXPECT_AST--\nast",
        "--EXPECT--\nx\n--EXPECT_AST--\ny\n--TEST--\nt",
        "plain text with no sections",
        "",
    ] {
        let err = parse_santat_file(content).unwrap_err();
        assert_eq!(err.message(), "Missing required --FILE-- section");
    }
}

#[test]
fn test_parse_normalizes_crlf() {
    let content = "--FILE--\r\nprint(1)\r\n--EXPECT--\r\n1";
    let parsed = parse_santat_file(content).unwrap();
    assert_eq!(parsed.get("FILE").unwrap().as_str(), "print(1)");
    assert_eq!(parsed.get("EXPECT").unwrap().as_str(), "1");
}

#[test]
fn test_duplicate_sections_keep_order_and_last_lookup() {
    let text = "--FILE--\nfirst\n--FILE--\nsecond\n--EXPECT--\nout";
    let parsed = parse_santat_file(text).unwrap();
    assert_eq!(parsed.blocks.len(), 3);
    assert_eq!(parsed.blocks[0].content, "first");
    assert_eq!(parsed.blocks[1].content, "second");
    // the lookup reflects the most recently inserted value
    assert_eq!(parsed.get("FILE").unwrap().as_str(), "second");
    // all occurrences are retained for serialization
    assert_eq!(
        stringify_santat_blocks(&parsed.blocks),
        "--FILE--\nfirst\n--FILE--\nsecond\n--EXPECT--\nout"
    );
}

#[test]
fn test_delimiter_tolerates_trailing_whitespace() {
    let text = "--FILE--   \nprint(1)\n--EXPECT--\t\n1";
    let parsed = parse_santat_file(text).unwrap();
    assert_eq!(parsed.get("FILE").unwrap().as_str(), "print(1)");
    assert_eq!(parsed.get("EXPECT").unwrap().as_str(), "1");
}

#[test]
fn test_non_delimiter_dashes_stay_in_body() {
    let text = "--FILE--\n--not a delimiter\n----\n--lower--\n--EXPECT--\nx";
    let parsed = parse_santat_file(text).unwrap();
    assert_eq!(
        parsed.get("FILE").unwrap().as_str(),
        "--not a delimiter\n----\n--lower--"
    );
}
