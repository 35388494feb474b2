use symbio_session::text_split::{
    split_head_tail, truncate_head_chars, truncate_head_chars_if_over, truncate_tail_chars,
    truncate_tokens, HeadTailSplit,
};
use symbio_session::tokenizer::HeuristicTokenizer;

fn split(text: &str, head_budget: usize, tail_budget: usize) -> HeadTailSplit {
    split_head_tail(text, head_budget, tail_budget, &HeuristicTokenizer)
}

#[test]
fn short_text_kept_whole_in_head() {
    let s = split("a\nb\nc", 100, 100);
    assert_eq!(s.head, "a\nb\nc\n");
    assert_eq!(s.tail, "");
}

#[test]
fn single_long_line_head_truncated() {
    let line = "x".repeat(50);
    let s = split(&line, 5, 100);
    assert_eq!(s.head, format!("{}…\n", "x".repeat(10)), "字符上限 = 5×2");
    assert_eq!(s.tail, line, "50 字符 ≈ 15 token ≤ tail 预算 100，整行进 tail");
}

#[test]
fn tail_line_truncation_keeps_line_end() {
    let text = format!("head_line\n{}", "y".repeat(50));
    let s = split(&text, 10, 5);
    assert_eq!(s.head, "head_line\n");
    assert_eq!(s.tail, format!("…{}", "y".repeat(10)), "尾行保行尾 5×2 字符");
}

#[test]
fn head_and_tail_do_not_overlap() {
    let text = "l1\nl2\nl3\nl4\nl5";
    let s = split(text, 4, 4);
    let head_lines: Vec<&str> = s.head.lines().collect();
    let tail_lines: Vec<&str> = s.tail.lines().collect();
    assert_eq!(head_lines, vec!["l1", "l2"]);
    assert_eq!(tail_lines, vec!["l4", "l5"]);
    assert!(head_lines.iter().all(|h| !tail_lines.contains(h)));
}

#[test]
fn char_truncation_is_multibyte_safe() {
    let cjk = "你好世界";
    assert_eq!(truncate_head_chars(cjk, 1), "你好");
    assert_eq!(truncate_tail_chars(cjk, 1), "世界");
}

#[test]
fn conditional_truncation_only_when_over() {
    assert_eq!(truncate_head_chars_if_over("hello", 10), "hello");
    let t = truncate_head_chars_if_over(&"z".repeat(30), 10);
    assert_eq!(t, format!("{}…", "z".repeat(20)));
}

#[test]
fn truncate_tokens_keeps_the_head_within_the_character_cap() {
    assert_eq!(truncate_tokens("abcdef", 2), "abcd…");
    assert_eq!(truncate_tokens("abc", 2), "abc");
}

#[test]
fn empty_text_splits_into_nothing() {
    let s = split("", 10, 10);
    assert_eq!(s.head, "");
    assert_eq!(s.tail, "");
}
