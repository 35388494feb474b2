use symbio_session::paths::session_subdir;
use symbio_session::tool_result_guard::{
    archive_file_name, content_fingerprint, guard_tool_result, omit_placeholder_prefix,
    prune_victims, summarize_tool_result, FADE_NOTE,
};

fn archive_for(session: &str, text: &str) -> String {
    let dir = session_subdir("/tmp/symbio-guard-test/session", session, "tool_archives");
    format!("{dir}/{}", archive_file_name(1_700_000_000_123, text.len() / 4, text))
}

#[test]
fn short_text_passes_through() {
    let g = guard_tool_result("hello world", 8192, None);
    assert!(!g.truncated);
    assert_eq!(g.text, "hello world");
    assert!(g.archive_path.is_none());
}

#[test]
fn long_text_is_truncated_and_keeps_head_tail() {
    let line = "fn main() {\n    println!(\"line\");\n}\n";
    let big = line.repeat(2000);
    let g = guard_tool_result(&big, 500, Some(archive_for("s1", &big)));
    assert!(g.truncated);
    assert!(g.text.contains("[... 已省略"));
    assert!(g.text.contains("完整输出已存档至: "));
    assert!(g.text.contains("vdfs_read"));
    assert!(g.text.contains("fn main()"));
    assert!(g.text.len() < big.len() / 2);
}

#[test]
fn single_long_line_is_char_truncated() {
    let huge = format!("{{\"entries\":[\"{}\"]}}", "x".repeat(10_000));
    let g = guard_tool_result(&huge, 300, Some(archive_for("s1", &huge)));
    assert!(g.truncated);
    assert!(g.text.contains("vdfs_read"));
    assert!(g.text.starts_with("{\"entries"), "{}", &g.text[..40.min(g.text.len())]);
}

#[test]
fn a_failed_archive_is_said_in_the_placeholder() {
    let big = "line\n".repeat(3000);
    let g = guard_tool_result(&big, 500, None);
    assert!(g.truncated);
    assert!(g.archive_path.is_none());
    assert!(g.text.contains("完整输出未存档"));
    assert!(!g.text.contains("完整输出已存档至"));
}

#[test]
fn the_archive_sits_in_the_session_tool_archives_dir() {
    let p = archive_for("test_session_guard_01", "x");
    assert!(p.contains("session/test_session_guard_01/tool_archives/"), "{p}");
    let big = "line\n".repeat(3000);
    let g = guard_tool_result(&big, 500, Some(p.clone()));
    assert_eq!(g.archive_path.as_deref(), Some(p.as_str()));
    assert!(g.text.contains(&p));
}

#[test]
fn same_milli_same_tokens_get_distinct_archive_names() {
    let a = "a".repeat(4096);
    let b = format!("a{}a", "b".repeat(4094));
    let n1 = archive_file_name(42, 1024, &a);
    let n2 = archive_file_name(42, 1024, &b);
    assert_ne!(n1, n2);
    assert!(n1.starts_with("tool_42_1024_") && n1.ends_with(".txt"), "{n1}");
    assert_eq!(archive_file_name(42, 1024, &a), n1);
}

#[test]
fn fingerprint_is_the_high_half_of_fnv1a_in_eight_hex_digits() {
    assert_eq!(content_fingerprint(""), "cbf29ce4");
    assert_eq!(content_fingerprint("a"), "af63dc4c");
    assert_eq!(content_fingerprint("a").len(), 8);
}

#[test]
fn prune_keeps_only_the_newest_files() {
    let times: Vec<u64> = vec![10, 20, 30, 40, 50, 60];
    assert_eq!(prune_victims(&times, 20), vec![false; 6]);
    assert_eq!(prune_victims(&times, 3), vec![true, true, true, false, false, false]);
    let shuffled: Vec<u64> = vec![60, 10, 50, 20, 40, 30];
    assert_eq!(prune_victims(&shuffled, 3), vec![false, true, false, true, false, true]);
    let ties: Vec<u64> = vec![5, 5, 5];
    assert_eq!(prune_victims(&ties, 2), vec![false, false, true]);
}

#[test]
fn faded_results_keep_head_and_tail_with_a_note() {
    let big = "row\n".repeat(4000);
    let s = summarize_tool_result(&big, 200);
    assert!(s.contains(FADE_NOTE));
    assert!(s.starts_with("row"));
    assert!(s.len() < big.len());
    assert_eq!(summarize_tool_result("short", 200), "short");
}

#[test]
fn omit_prefix_counts_the_left_out_tokens() {
    assert_eq!(omit_placeholder_prefix(1234), "\n[... 已省略约 1234 tokens 的中间内容。");
}
