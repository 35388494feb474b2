use symbio_session::paths::{safe_id, session_dir, session_subdir, RETRIEVAL_HINT, TOOL_ARCHIVES_SUBDIR, TRANSCRIPTS_SUBDIR};

#[test]
fn safe_id_replaces_path_separators_and_colon() {
    assert_eq!(safe_id("a/b"), "a_b");
    assert_eq!(safe_id("a\\b"), "a_b");
    assert_eq!(safe_id("c:tmp"), "c_tmp");
    assert_eq!(safe_id("a/b\\c:d"), "a_b_c_d");
}

#[test]
fn safe_id_keeps_normal_ids_untouched() {
    assert_eq!(safe_id("plain-id_123"), "plain-id_123");
    assert_eq!(safe_id("v2_sess_1717_a1b2"), "v2_sess_1717_a1b2");
    assert_eq!(safe_id(""), "_empty_");
}

#[test]
fn retrieval_hint_mentions_unified_entry() {
    assert!(!RETRIEVAL_HINT.is_empty());
    assert!(RETRIEVAL_HINT.contains("vdfs_read"));
    assert!(RETRIEVAL_HINT.contains("offset/limit"));
}

#[test]
fn session_subdir_appends_under_safe_session_dir() {
    let dir = session_subdir("/data/session", "a/b", TOOL_ARCHIVES_SUBDIR);
    let parts: Vec<&str> = dir.split('/').collect();
    assert!(parts.len() >= 2);
    let last_two: Vec<String> = parts[parts.len() - 2..].iter().map(|s| s.to_string()).collect();
    assert_eq!(last_two, vec!["a_b".to_string(), "tool_archives".to_string()]);
}

#[test]
fn safe_id_neutralises_dot_segments_and_reserved_characters() {
    assert_eq!(safe_id("."), "_");
    assert_eq!(safe_id(".."), "__");
    assert_eq!(safe_id("..."), "...");
    assert_eq!(safe_id("weird*name?.md"), "weird_name_.md");
    assert_eq!(safe_id("a\u{1}b"), "a_b");
    assert_eq!(safe_id(" padded "), " padded ");
}

#[test]
fn session_dir_joins_storage_and_safe_id() {
    assert_eq!(session_dir("/root/session", "x:y"), "/root/session/x_y");
    assert_eq!(
        session_subdir("/root/session", "s1", TRANSCRIPTS_SUBDIR),
        "/root/session/s1/transcripts"
    );
}

#[test]
fn safe_id_is_the_same_rule_as_vdfs_entry_segments() {
    let cases = [
        ("a/b", "a_b"),
        ("a\\b", "a_b"),
        ("c:tmp", "c_tmp"),
        ("plain-id_123", "plain-id_123"),
        ("..", "__"),
        (".", "_"),
        ("weird*name?.md", "weird_name_.md"),
        (" padded ", " padded "),
    ];
    for (id, segment) in cases {
        assert_eq!(safe_id(id), segment, "id `{id}`");
    }
}
