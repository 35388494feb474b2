use symbio_session::json::{Json, JsonMap, JsonNumber};
use symbio_session::message::{ChatMessage, ContentPart, MessageContent, MessageRole, PartList};
use symbio_session::types::{
    derive_session_summary, derive_session_title, session_meta_tags, HeartbeatConfig, Session,
    SessionSummary,
};

fn obj(entries: Vec<(&str, Json)>) -> Json {
    let mut m = JsonMap::Nil;
    for (k, v) in entries {
        m.insert(k.to_string(), v);
    }
    Json::Obj(m)
}

fn user_msg(text: &str) -> ChatMessage {
    ChatMessage {
        id: "m1".into(),
        role: Some(MessageRole::User),
        content: Some(MessageContent::Text(text.into())),
        ..Default::default()
    }
}

fn assistant_msg(text: &str) -> ChatMessage {
    ChatMessage {
        id: "a1".into(),
        role: Some(MessageRole::Assistant),
        content: Some(MessageContent::Text(text.into())),
        ..Default::default()
    }
}

#[test]
fn derive_title_takes_first_user_line() {
    let msgs = vec![user_msg("帮我分析一下这个报错\n第二行"), user_msg("第二条")];
    assert_eq!(derive_session_title(&msgs).as_deref(), Some("帮我分析一下这个报错"));
}

#[test]
fn tests_derive_title_truncates_long_text() {
    let long = "这是一个特别特别长的用户首条消息用来验证截断逻辑是否正常工作";
    let t = derive_session_title(&vec![user_msg(long)]).unwrap();
    assert!(t.ends_with('…'));
    assert!(t.chars().count() <= 25);
}

#[test]
fn types_test_derive_title_truncates_long_text() {
    let long = "这是一个特别特别长的用户首条消息用来验证截断逻辑是否正常工作";
    let t = derive_session_title(&vec![user_msg(long)]).unwrap();
    assert!(t.ends_with('…'));
    assert!(t.chars().count() <= 25);
}

#[test]
fn tests_derive_title_skips_empty_and_non_user() {
    let empty = ChatMessage {
        id: "m0".into(),
        role: Some(MessageRole::User),
        content: Some(MessageContent::Text("   \n  ".into())),
        ..Default::default()
    };
    assert_eq!(derive_session_title(&vec![empty]), None);
}

#[test]
fn types_test_derive_title_skips_empty_and_non_user() {
    let empty = ChatMessage {
        id: "m0".into(),
        role: Some(MessageRole::User),
        content: Some(MessageContent::Text("   \n  ".into())),
        ..Default::default()
    };
    assert_eq!(derive_session_title(&vec![empty]), None);
}

#[test]
fn summary_takes_last_assistant_reply() {
    let msgs = vec![
        assistant_msg("早先的回答"),
        user_msg("新的问题"),
        assistant_msg("最新的回答\n它的第二行"),
    ];
    assert_eq!(derive_session_summary(&msgs).as_deref(), Some("最新的回答"));
}

fn check_from_metadata_missing_returns_disabled_default() {
    let m = obj(vec![("title", Json::Str("x".into()))]);
    let hb = HeartbeatConfig::from_metadata(&m);
    assert!(!hb.enabled);
    assert_eq!(hb.interval_seconds, 300);
    assert!(hb.include_history);
    assert!(hb.prompt.is_empty());
}

fn check_from_metadata_parses_full_config() {
    let hb_obj = obj(vec![
        ("enabled", Json::Bool(true)),
        ("interval_seconds", Json::Num(JsonNumber::PosInt(120))),
        ("prompt", Json::Str("请检查待办".into())),
        ("include_history", Json::Bool(false)),
    ]);
    let m = obj(vec![("heartbeat", hb_obj)]);
    let hb = HeartbeatConfig::from_metadata(&m);
    assert!(hb.enabled);
    assert_eq!(hb.interval_seconds, 120);
    assert_eq!(hb.prompt, "请检查待办");
    assert!(!hb.include_history);
}

fn check_from_metadata_missing_fields_use_defaults() {
    let m = obj(vec![("heartbeat", obj(vec![("enabled", Json::Bool(true))]))]);
    let hb = HeartbeatConfig::from_metadata(&m);
    assert!(hb.enabled);
    assert_eq!(hb.interval_seconds, 300);
    assert!(hb.include_history);
}

#[test]
fn heartbeat_that_is_not_an_object_is_the_default() {
    let m = obj(vec![("heartbeat", Json::Bool(true))]);
    let hb = HeartbeatConfig::from_metadata(&m);
    assert!(!hb.enabled);
    assert_eq!(hb.interval_seconds, 300);
}

fn check_display_title() {
    let mut s = Session::new("sess-123".to_string());
    assert_eq!(s.display_title(), "新对话");
    s.messages = vec![user_msg("帮我查天气")];
    assert_eq!(s.display_title(), "帮我查天气");
    s.metadata = obj(vec![("title", Json::Str("自定义名".into()))]);
    assert_eq!(s.display_title(), "自定义名");
}

#[test]
fn types_test_display_title_prefers_metadata_then_content_then_default() {
    check_display_title();
}

#[test]
fn tests_display_title_prefers_metadata_then_content_then_default() {
    check_display_title();
}

#[test]
fn a_blank_title_falls_back_to_the_content() {
    let mut s = Session::new("sess-1".to_string());
    s.messages = vec![user_msg("帮我查天气")];
    s.metadata = obj(vec![("title", Json::Str("   ".into()))]);
    assert_eq!(s.display_title(), "帮我查天气");
}

#[test]
fn title_collapses_whitespace_and_joins_parts_with_spaces() {
    let parts = PartList::Cons(
        ContentPart::Text("a  b".into()),
        Box::new(PartList::Cons(
            ContentPart::Image("u".into()),
            Box::new(PartList::Cons(ContentPart::Text("c".into()), Box::new(PartList::Nil))),
        )),
    );
    let m = ChatMessage {
        id: "p".into(),
        role: Some(MessageRole::User),
        content: Some(MessageContent::Parts(parts)),
        ..Default::default()
    };
    assert_eq!(derive_session_title(&vec![m]).as_deref(), Some("a b c"));
    assert_eq!(derive_session_title(&vec![user_msg(&"x".repeat(24))]).unwrap(), "x".repeat(24));
    assert_eq!(
        derive_session_title(&vec![user_msg(&"x".repeat(25))]).unwrap(),
        format!("{}…", "x".repeat(24))
    );
}

#[test]
fn summary_is_the_last_message_with_text() {
    let textless = ChatMessage { id: "t".into(), role: Some(MessageRole::Assistant), ..Default::default() };
    let msgs = vec![assistant_msg("有文本的回复"), user_msg("再问"), textless];
    assert_eq!(derive_session_summary(&msgs).as_deref(), Some("有文本的回复"));
    assert_eq!(derive_session_summary(&vec![]), None);
    let long = "y".repeat(61);
    assert_eq!(derive_session_summary(&vec![assistant_msg(&long)]).unwrap(), format!("{}…", "y".repeat(60)));
    assert_eq!(derive_session_summary(&vec![assistant_msg(&"a".repeat(60))]).unwrap(), "a".repeat(60));
    assert_eq!(derive_session_summary(&vec![assistant_msg(&"y".repeat(59))]).unwrap(), "y".repeat(59));
}

#[test]
fn meta_tags_carry_workdir_name_and_count() {
    let m = obj(vec![("workdir", Json::Str(" D:\\ws\\proj\\ ".into()))]);
    assert_eq!(session_meta_tags(&m, 3), vec!["proj".to_string(), "3 条".to_string()]);
    let m = obj(vec![("workdir", Json::Str("/".into()))]);
    assert_eq!(session_meta_tags(&m, 0), vec!["0 条".to_string()]);
    assert_eq!(session_meta_tags(&Json::Null, 12), vec!["12 条".to_string()]);
}

#[test]
fn summary_projection_counts_messages() {
    let mut s = Session::new("s".to_string());
    s.messages = vec![user_msg("问"), assistant_msg("答")];
    let sum = SessionSummary::of(&s);
    assert_eq!(sum.id, "s");
    assert_eq!(sum.title, "问");
    assert_eq!(sum.message_count, 2);
    assert_eq!(sum.summary.as_deref(), Some("答"));
    assert_eq!(sum.meta_tags, vec!["2 条".to_string()]);
}

#[test]
fn parent_session_id_is_trimmed_and_never_self() {
    let mut s = Session::new("me".to_string());
    assert_eq!(s.parent_session_id(), None);
    s.metadata = obj(vec![("parent_session_id", Json::Str(" p1 ".into()))]);
    assert_eq!(s.parent_session_id().as_deref(), Some("p1"));
    s.metadata = obj(vec![("parent_session_id", Json::Str("me".into()))]);
    assert_eq!(s.parent_session_id(), None);
    s.metadata = obj(vec![("parent_session_id", Json::Str("  ".into()))]);
    assert_eq!(s.parent_session_id(), None);
}

#[test]
fn types_test_from_metadata_missing_returns_disabled_default() {
    check_from_metadata_missing_returns_disabled_default();
}

#[test]
fn tests_from_metadata_missing_returns_disabled_default() {
    check_from_metadata_missing_returns_disabled_default();
}

#[test]
fn types_test_from_metadata_parses_full_config() {
    check_from_metadata_parses_full_config();
}

#[test]
fn tests_from_metadata_parses_full_config() {
    check_from_metadata_parses_full_config();
}

#[test]
fn types_test_from_metadata_missing_fields_use_defaults() {
    check_from_metadata_missing_fields_use_defaults();
}

#[test]
fn tests_from_metadata_missing_fields_use_defaults() {
    check_from_metadata_missing_fields_use_defaults();
}

#[test]
fn title_passes_over_blank_user_messages() {
    let msgs = vec![user_msg("   \n  "), assistant_msg("答"), user_msg("你好")];
    assert_eq!(derive_session_title(&msgs).as_deref(), Some("你好"));
    assert_eq!(derive_session_title(&vec![user_msg("   \n  ")]), None);
}

#[test]
fn summary_ignores_user_messages() {
    assert_eq!(derive_session_summary(&vec![user_msg("只有提问")]), None);
}

#[test]
fn summary_skips_textless_assistant_messages() {
    let tool_only = ChatMessage {
        id: "t1".into(),
        role: Some(MessageRole::Assistant),
        content: None,
        ..Default::default()
    };
    let msgs = vec![assistant_msg("有文本的回复"), user_msg("再问"), tool_only];
    assert_eq!(derive_session_summary(&msgs).as_deref(), Some("有文本的回复"));
}

#[test]
fn derive_title_truncates_long_text() {
    let long = "这是一个特别特别长的用户首条消息用来验证截断逻辑是否正常工作";
    let t = derive_session_title(&vec![user_msg(long)]).unwrap();
    assert!(t.ends_with('…'));
    assert!(t.chars().count() <= 25);
}

#[test]
fn derive_title_skips_empty_and_non_user() {
    let empty = ChatMessage {
        id: "m0".into(),
        role: Some(MessageRole::User),
        content: Some(MessageContent::Text("   \n  ".into())),
        ..Default::default()
    };
    assert_eq!(derive_session_title(&vec![empty]), None);
}
