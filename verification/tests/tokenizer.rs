use symbio_session::tokenizer::{default_tokenizer, CalibratedTokenizer};

#[test]
fn chinese_is_not_underestimated_by_byte_length() {
    let text = "你好世界";
    let est = default_tokenizer().count(text);
    assert!(est >= 4, "中文估算过低（{est}），疑似又退回按字节数估算");
    assert!(est <= 12, "中文估算过高：{est}");
}

#[test]
fn english_is_roughly_four_chars_per_token() {
    let text = "a".repeat(400);
    let est = default_tokenizer().count(&text);
    assert!((80..=200).contains(&est), "英文估算偏离预期：{est}");
}

#[test]
fn large_input_is_sampled_not_scanned() {
    let big = "a".repeat(2_000_000);
    let est = default_tokenizer().count(&big);
    assert!((300_000..=900_000).contains(&est), "大输入外推异常：{est}");
}

#[test]
fn calibration_converges_toward_actual() {
    let mut cal = CalibratedTokenizer::new();
    let text = "x".repeat(10_000);
    let est = cal.count(&text);
    let raw = cal.count_raw(&text);
    let actual = raw * 2;
    for _ in 0..40 {
        cal.feedback(actual, raw);
    }
    let after = cal.count(&text);
    assert!(after > est + est / 2, "校准未生效：before={est}, after={after}");
}

#[test]
fn heuristic_counts_seven_tokens_per_twenty_five_ascii_chars_plus_one() {
    assert_eq!(default_tokenizer().count(""), 1);
    assert_eq!(default_tokenizer().count(&"a".repeat(25)), 8);
    assert_eq!(default_tokenizer().count("你好"), 3);
}
