use santa_tools::journal::{
    progress_table, stage_get, stage_set, status_to_str, Progress, Stage, StatusVal,
};
use santa_tools::scaffold::{impl_folder_name, sanitize_segment, unix_timestamp_seconds};
use santa_tools::site::{base_url, layout, layout_impl, normalize_base_path, tailwind_head};

#[test]
fn test_sanitize_segment() {
    assert_eq!(sanitize_segment(""), "");
    assert_eq!(sanitize_segment("Python"), "python");
    assert_eq!(sanitize_segment("GPT-4o"), "gpt4o");
    assert_eq!(sanitize_segment("Sonnet 4"), "sonnet4");
    assert_eq!(sanitize_segment("C++"), "c");
    assert_eq!(sanitize_segment("node.js"), "nodejs");
    assert_eq!(sanitize_segment("  Rust  "), "rust");
    assert_eq!(sanitize_segment("test_123"), "test123");
    assert_eq!(sanitize_segment("Codex CLI"), "codexcli");
    assert_eq!(sanitize_segment("C#"), "csharp");
    assert_eq!(sanitize_segment("F#"), "fsharp");
}

#[test]
fn test_unix_timestamp_seconds() {
    let ts = unix_timestamp_seconds();
    // Should be a reasonable timestamp (after 2020)
    assert!(ts > 1577836800); // Jan 1, 2020
}

#[test]
fn test_impl_folder_name() {
    assert_eq!(
        impl_folder_name("Rust", "Cursor", "GPT-4o", 1700000000),
        "rust-cursor-gpt4o-1700000000"
    );
}

#[test]
fn test_stage_get_and_set() {
    let mut p = Progress {
        stage_1: "not-started".to_string(),
        stage_2: "not-started".to_string(),
        stage_3: "not-started".to_string(),
        stage_4: "not-started".to_string(),
        stage_5: "not-started".to_string(),
    };
    stage_set(&mut p, Stage::Stage3, status_to_str(StatusVal::InProgress));
    assert_eq!(stage_get(&p, Stage::Stage3).as_str(), "in-progress");
    assert_eq!(stage_get(&p, Stage::Stage2).as_str(), "not-started");
    stage_set(&mut p, Stage::Stage3, status_to_str(StatusVal::Complete));
    assert_eq!(stage_get(&p, Stage::Stage3).as_str(), "complete");
    assert_eq!(stage_get(&p, Stage::Stage1).as_str(), "not-started");
}

#[test]
fn test_status_to_str() {
    assert_eq!(status_to_str(StatusVal::NotStarted), "not-started");
    assert_eq!(status_to_str(StatusVal::InProgress), "in-progress");
    assert_eq!(status_to_str(StatusVal::Complete), "complete");
}

#[test]
fn test_progress_table_lines() {
    let p = Progress {
        stage_1: "complete".to_string(),
        stage_2: "in-progress".to_string(),
        stage_3: "not-started".to_string(),
        stage_4: "not-started".to_string(),
        stage_5: "not-started".to_string(),
    };
    let table = progress_table(&p);
    assert_eq!(table.len(), 7);
    assert_eq!(table[0], "Stage     Status");
    assert_eq!(table[1], "--------  -----------");
    assert_eq!(table[2], "stage-1  complete");
    assert_eq!(table[3], "stage-2  in-progress");
    assert_eq!(table[6], "stage-5  not-started");
}

#[test]
fn test_normalize_base_path_forms() {
    assert_eq!(normalize_base_path(""), "");
    assert_eq!(normalize_base_path("   "), "");
    assert_eq!(normalize_base_path("/"), "");
    assert_eq!(normalize_base_path("/santa-lang-workshop"), "/santa-lang-workshop");
    assert_eq!(normalize_base_path("santa-lang-workshop"), "/santa-lang-workshop");
    assert_eq!(normalize_base_path("/base/"), "/base");
    assert_eq!(normalize_base_path(" /base// "), "/base");
}

#[test]
fn test_base_url_joins_under_base() {
    assert_eq!(base_url("", "logo-light.png"), "/logo-light.png");
    assert_eq!(base_url("", "/logo-light.png"), "/logo-light.png");
    assert_eq!(base_url("/repo", "language"), "/repo/language");
    assert_eq!(base_url("repo/", "/tasks"), "/repo/tasks");
}

#[test]
fn test_tailwind_head_markup() {
    let head = tailwind_head();
    assert!(head.starts_with("<meta charset=\"utf-8\" />"));
    assert!(head.contains("tailwind.config"));
    assert!(head.ends_with("</style>"));
}

#[test]
fn test_layout_escapes_title() {
    let page = layout("A < B & C", "<p>body</p>", "");
    assert!(page.contains("<title>A &lt; B &amp; C</title>"));
    // the body is embedded unescaped
    assert!(page.contains("<p>body</p>"));
    assert!(page.starts_with("<!doctype html>"));
    assert!(page.ends_with("</html>"));
}

#[test]
fn test_layout_resolves_links_against_base() {
    let page = layout("t", "b", "/repo");
    assert!(page.contains("src=\"/repo/logo-light.png\""));
    assert!(page.contains("href=\"/repo/\""));
    assert!(page.contains("href=\"/repo/language/\""));
    assert!(page.contains("href=\"/repo/tasks/\""));
    let root = layout_impl("t", "b", "");
    assert!(root.contains("href=\"/\""));
    assert!(root.contains("href=\"/language/\""));
}
