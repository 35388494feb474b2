use symbio_session::json::{Json, JsonList, JsonMap, JsonNumber};
use symbio_session::message::{ChatMessage, MessageContent, MessageRole, MessageStatus, MessageType};
use symbio_session::nodes::{inbox_item_path, message_dir_path, message_label, message_preview, message_status};
use symbio_session::nodes::{inbox_item_node, message_body, message_node, NodeView, EXT_MESSAGE, KIND_INBOX};
use symbio_session::nodes::{
    cursor_id, message_path, ordered, overlay_live, parse_session_path, session_id_from_new_path,
    session_node, transcript_window, SessionPath, SessionRuntime, OUTCOME_ABORTED,
    OUTCOME_COMPLETED, OUTCOME_FAILED, STATUS_ACTIVE, STATUS_FAILED, STATUS_WORKING,
};
use symbio_session::types::{Session, SessionSummary};

fn msg(id: &str, seq: Option<i64>) -> ChatMessage {
    ChatMessage { id: id.into(), seq, ..Default::default() }
}

fn child(id: &str, seq: Option<i64>, parent: &str) -> ChatMessage {
    ChatMessage { id: id.into(), seq, parent_id: Some(parent.into()), ..Default::default() }
}

fn ids(v: &[ChatMessage]) -> Vec<&str> {
    v.iter().map(|m| m.id.as_str()).collect()
}

fn text_of(m: &ChatMessage) -> String {
    match &m.content {
        Some(c) => c.to_text(),
        None => String::new(),
    }
}

fn obj(entries: Vec<(&str, Json)>) -> Json {
    let mut m = JsonMap::Nil;
    for (k, v) in entries {
        m.insert(k.to_string(), v);
    }
    Json::Obj(m)
}

fn str_at(j: Option<&Json>) -> Option<String> {
    match j {
        Some(Json::Str(s)) => Some(s.clone()),
        _ => None,
    }
}

fn strings_of(j: Option<&Json>) -> Vec<String> {
    let mut out = Vec::new();
    if let Some(Json::Arr(l)) = j {
        let mut cur = l;
        while let JsonList::Cons(h, t) = cur {
            if let Json::Str(s) = h.as_ref() {
                out.push(s.clone());
            }
            cur = t.as_ref();
        }
    }
    out
}

#[test]
fn session_id_from_new_path_uses_the_address_as_identity() {
    assert_eq!(session_id_from_new_path("我的会话").as_deref(), Some("我的会话"));
    assert_eq!(session_id_from_new_path("dir/我的会话").as_deref(), Some("我的会话"));
    assert_eq!(session_id_from_new_path("abc.session").as_deref(), Some("abc.session"));
    assert_eq!(session_id_from_new_path(""), None);
    assert_eq!(session_id_from_new_path("/"), None);
    assert_eq!(session_id_from_new_path("dir/"), None);
    assert_eq!(session_id_from_new_path("   "), None);
}

fn is_messages(p: &SessionPath, id: &str, mid: Option<&str>) -> bool {
    matches!(p, SessionPath::Messages { id: i, mid: m } if i == id && m.as_deref() == mid)
}

fn is_inbox(p: &SessionPath, id: &str, iid: Option<&str>) -> bool {
    matches!(p, SessionPath::Inbox { id: i, iid: m } if i == id && m.as_deref() == iid)
}

#[test]
fn nodes_test_vdfs_internal_path_parsing() {
    assert!(matches!(parse_session_path("").unwrap(), SessionPath::Root));
    assert!(matches!(parse_session_path("/").unwrap(), SessionPath::Root));
    assert!(matches!(parse_session_path("abc").unwrap(), SessionPath::Session(s) if s == "abc"));
    assert!(matches!(parse_session_path("abc/MEMORY.md").unwrap(), SessionPath::Memory(s) if s == "abc"));
    assert!(parse_session_path("abc/MEMORY.md/deeper").is_err());
    assert!(is_messages(&parse_session_path("abc/message").unwrap(), "abc", None));
    assert!(is_messages(&parse_session_path("abc/message/m1").unwrap(), "abc", Some("m1")));
    assert!(is_inbox(&parse_session_path("abc/inbox").unwrap(), "abc", None));
    assert!(is_inbox(&parse_session_path("abc/inbox/i1").unwrap(), "abc", Some("i1")));
    assert!(matches!(
        parse_session_path("abc/subsession").unwrap(),
        SessionPath::SubSessions(s) if s == "abc"
    ));
    assert!(matches!(
        parse_session_path("abc/subsession/s1").unwrap(),
        SessionPath::SubSession { id, sub } if id == "abc" && sub == "s1"
    ));
    assert!(matches!(
        parse_session_path("abc/workdir").unwrap(),
        SessionPath::Workdir { id, rel } if id == "abc" && rel.is_empty()
    ));
    assert!(matches!(
        parse_session_path("abc/workdir/src/lib.rs").unwrap(),
        SessionPath::Workdir { id, rel } if id == "abc" && rel == "src/lib.rs"
    ));
    assert!(parse_session_path("abc/nope").is_err());
    assert!(parse_session_path("abc/message/m1/deeper").is_err());
    assert!(parse_session_path("abc/inbox/i1/deeper").is_err());
    assert!(parse_session_path("abc/subsession/s1/deeper").is_err());
}

fn check_whole_list() {
    let msgs = vec![msg("t1", Some(1)), child("r1", Some(2), "t1")];
    assert_eq!(ids(&transcript_window(&msgs, None, None)), vec!["t1", "r1"]);
}

fn check_parent_closed() {
    let msgs = vec![
        msg("t1", Some(1)),
        child("r1", Some(2), "t1"),
        msg("t2", Some(3)),
        child("r2", Some(4), "t2"),
    ];
    assert_eq!(ids(&transcript_window(&msgs, Some(1), None)), vec!["t2", "r2"]);
    assert_eq!(ids(&transcript_window(&msgs, Some(2), None)), vec!["t1", "r1", "t2", "r2"]);
    let orphan = vec![msg("t1", Some(1)), child("o1", Some(2), "nope")];
    assert_eq!(ids(&transcript_window(&orphan, Some(1), None)), vec!["o1"]);
}

fn check_pages_before_cursor(address: &str) {
    let msgs = vec![msg("t1", Some(1)), msg("t2", Some(2)), msg("t3", Some(3))];
    assert_eq!(ids(&transcript_window(&msgs, Some(2), Some("t3"))), vec!["t1", "t2"]);
    assert_eq!(ids(&transcript_window(&msgs, Some(1), Some("t2"))), vec!["t1"]);
    assert_eq!(ids(&transcript_window(&msgs, Some(2), Some(address))), vec!["t1", "t2"]);
    assert!(transcript_window(&msgs, Some(2), Some("t1")).is_empty());
}

fn check_turns_whole() {
    let msgs = vec![
        msg("t2", Some(1)),
        child("r2", Some(2), "t2"),
        child("c2", Some(3), "t2"),
        msg("t3", Some(4)),
    ];
    assert_eq!(ids(&transcript_window(&msgs, Some(1), None)), vec!["t3"]);
    assert_eq!(ids(&transcript_window(&msgs, Some(1), Some("t3"))), vec!["t2", "r2", "c2"]);
}

fn check_ordered_by_seq() {
    let msgs = vec![
        msg("c", Some(30)),
        msg("x", None),
        msg("a", Some(10)),
        msg("y", None),
        msg("b", Some(20)),
    ];
    let ids: Vec<String> = ordered(msgs).into_iter().map(|m| m.id).collect();
    assert_eq!(ids, vec!["a", "b", "c", "x", "y"]);
}

fn check_overlay_keeps_seq() {
    let mut stored = msg("m1", Some(5));
    stored.content = Some(MessageContent::Text("落库正文".into()));
    stored.status = Some(MessageStatus::Completed);
    let mut live = msg("m1", None);
    live.content = Some(MessageContent::Text("落库正文 + 流式追加".into()));
    live.status = Some(MessageStatus::Streaming);

    let merged = overlay_live(vec![stored], vec![live, msg("m2", None)]);
    let ids: Vec<String> = ordered(merged).into_iter().map(|m| m.id).collect();
    assert_eq!(ids, vec!["m1", "m2"]);

    let merged = overlay_live(vec![msg("m1", Some(5))], vec![{
        let mut l = msg("m1", None);
        l.content = Some(MessageContent::Text("增量".into()));
        l
    }]);
    assert_eq!(merged.len(), 1);
    assert_eq!(merged[0].seq, Some(5));
    assert_eq!(text_of(&merged[0]), "增量");
}

#[test]
fn nodes_test_transcript_window_without_params_is_the_whole_list() {
    check_whole_list();
}

#[test]
fn tests_transcript_window_without_params_is_the_whole_list() {
    check_whole_list();
}

#[test]
fn nodes_test_transcript_window_is_parent_closed() {
    check_parent_closed();
}

#[test]
fn tests_transcript_window_is_parent_closed() {
    check_parent_closed();
}

#[test]
fn nodes_test_transcript_window_pages_before_cursor() {
    check_pages_before_cursor("x/s/message/t3");
}

#[test]
fn tests_transcript_window_pages_before_cursor() {
    check_pages_before_cursor(".vdfs/session/s/消息/t3");
}

#[test]
fn nodes_test_transcript_window_keeps_turns_whole() {
    check_turns_whole();
}

#[test]
fn tests_transcript_window_keeps_turns_whole() {
    check_turns_whole();
}

#[test]
fn nodes_test_vdfs_messages_are_ordered_by_seq() {
    check_ordered_by_seq();
}

#[test]
fn tests_vdfs_messages_are_ordered_by_seq() {
    check_ordered_by_seq();
}

#[test]
fn nodes_test_overlay_live_keeps_seq_from_stored() {
    check_overlay_keeps_seq();
}

#[test]
fn tests_overlay_live_keeps_seq_from_stored() {
    check_overlay_keeps_seq();
}

#[test]
fn nodes_test_message_path_round_trips_through_parser() {
    let p = message_path("abc", "m1");
    assert_eq!(p, "abc/message/m1");
    assert!(is_messages(&parse_session_path(&p).unwrap(), "abc", Some("m1")));
}

#[test]
fn session_node_projects_runtime_state() {
    let mut s = Session::new("abc".to_string());
    s.updated_at = 1_700_000_000;

    let failed = session_node(
        &SessionSummary::of(&s),
        &SessionRuntime::finished(OUTCOME_FAILED, Some("上游 502".to_string()), None),
    );
    assert_eq!(failed.status, STATUS_FAILED);
    assert_eq!(str_at(failed.attributes.get("outcome")).as_deref(), Some("failed"));
    assert_eq!(str_at(failed.attributes.get("error")).as_deref(), Some("上游 502"));

    let aborted = session_node(
        &SessionSummary::of(&s),
        &SessionRuntime::finished(OUTCOME_ABORTED, None, None),
    );
    assert_eq!(aborted.status, STATUS_ACTIVE);
    assert_eq!(str_at(aborted.attributes.get("outcome")).as_deref(), Some("aborted"));
    assert!(aborted.attributes.get("error").is_none());

    let idle = session_node(&SessionSummary::of(&s), &SessionRuntime::idle(None));
    assert_eq!(idle.status, STATUS_ACTIVE);
    assert!(idle.attributes.get("outcome").is_none());
}

#[test]
fn nodes_test_vdfs_session_node_carries_list_fields() {
    let mut s = Session::new("abc".to_string());
    s.updated_at = 1_700_000_000;
    s.metadata = obj(vec![
        ("workdir", Json::Str("/tmp/proj/demo".into())),
        ("title", Json::Str("T".into())),
    ]);

    let n = session_node(&SessionSummary::of(&s), &SessionRuntime::idle(None));
    assert!(matches!(
        n.attributes.get("message_count"),
        Some(Json::Num(JsonNumber::PosInt(0)))
    ));
    let workdir = n.attributes.get("metadata").and_then(|m| m.get("workdir"));
    assert_eq!(str_at(workdir).as_deref(), Some("/tmp/proj/demo"));
    let tags = strings_of(n.attributes.get("meta_tags"));
    assert_eq!(tags.len(), 2);
    assert_eq!(tags[0], "demo");
    assert_eq!(tags[1], "0 条");

    assert_eq!(n.status, STATUS_ACTIVE);
    assert_eq!(
        session_node(&SessionSummary::of(&s), &SessionRuntime::working()).status,
        STATUS_WORKING
    );
    assert_eq!(
        session_node(
            &SessionSummary::of(&s),
            &SessionRuntime::finished(OUTCOME_FAILED, Some("boom".into()), None)
        )
        .status,
        STATUS_FAILED
    );
    assert_eq!(
        session_node(
            &SessionSummary::of(&s),
            &SessionRuntime::finished(OUTCOME_COMPLETED, None, None)
        )
        .status,
        STATUS_ACTIVE
    );
}

#[test]
fn session_node_names_the_session_and_keeps_its_time() {
    let mut s = Session::new("abc".to_string());
    s.updated_at = 1_700_000_000_000;
    let n = session_node(&SessionSummary::of(&s), &SessionRuntime::idle(None));
    assert_eq!(n.name, "abc");
    assert_eq!(n.ext.as_deref(), Some("session"));
    assert_eq!(n.kind, "session");
    assert_eq!(n.updated_at, Some(1_700_000_000_000));
    assert_eq!(n.title, "新对话");
}

#[test]
fn cursor_takes_the_last_segment_of_an_address() {
    assert_eq!(cursor_id("a/b/c").as_deref(), Some("c"));
    assert_eq!(cursor_id("c//").as_deref(), Some("c"));
    assert_eq!(cursor_id("///"), None);
    assert_eq!(cursor_id(""), None);
}

#[test]
fn window_with_zero_limit_is_empty() {
    let msgs = vec![msg("t1", Some(1)), msg("t2", Some(2))];
    assert!(transcript_window(&msgs, Some(0), None).is_empty());
    assert_eq!(ids(&transcript_window(&msgs, None, Some("t2"))), vec!["t1"]);
}

#[test]
fn collection_addresses_are_ascii_segments_under_the_session() {
    assert_eq!(message_dir_path("abc"), "abc/message");
    assert_eq!(inbox_item_path("abc", "i1"), "abc/inbox/i1");
}

#[test]
fn message_items_show_role_state_and_a_flat_preview() {
    let call = ChatMessage {
        id: "tc".into(),
        role: Some(MessageRole::Assistant),
        msg_type: Some(MessageType::ToolCall),
        name: Some("local/ls".into()),
        ..Default::default()
    };
    assert_eq!(message_label(&call), "助手 · local/ls");
    let anon = ChatMessage { msg_type: Some(MessageType::ToolCall), ..msg("x", None) };
    assert_eq!(message_label(&anon), "消息 · 工具调用");
    let user = ChatMessage { role: Some(MessageRole::User), ..msg("u", None) };
    assert_eq!(message_label(&user), "用户");
    assert_eq!(message_status(&user), "completed");
    let streaming = ChatMessage { status: Some(MessageStatus::Streaming), ..msg("s", None) };
    assert_eq!(message_status(&streaming), "streaming");

    let mut m = msg("p", None);
    m.content = Some(MessageContent::Text("  第一行\n  第二行\t尾  ".into()));
    assert_eq!(message_preview(&m).as_deref(), Some("第一行 第二行 尾"));
    m.content = Some(MessageContent::Text("   ".into()));
    assert_eq!(message_preview(&m), None);
    m.content = Some(MessageContent::Text("字".repeat(61)));
    let p = message_preview(&m).unwrap();
    assert_eq!(p.chars().count(), 61);
    assert!(p.ends_with('…'));
}

/// The value of attribute `key` of a node.
fn attr<'a>(n: &'a NodeView, key: &str) -> Option<&'a Json> {
    let mut cur = match &n.attributes {
        Json::Obj(m) => m,
        _ => return None,
    };
    while let JsonMap::Entry(k, v, rest) = cur {
        if k == key {
            return Some(v);
        }
        cur = rest;
    }
    None
}

fn is_str(j: Option<&Json>, want: &str) -> bool {
    matches!(j, Some(Json::Str(s)) if s == want)
}

#[test]
fn message_node_serialized_name_is_node_id_not_tool_name() {
    let m = ChatMessage {
        id: "nodeid123".into(),
        role: Some(MessageRole::Assistant),
        msg_type: Some(MessageType::Text),
        status: Some(MessageStatus::Streaming),
        content: Some(MessageContent::Text("你好".into())),
        parent_id: Some("turn1".into()),
        ..Default::default()
    };
    let n = message_node(&m);
    assert_eq!(n.name, "nodeid123");
    assert!(is_str(attr(&n, "parent_id"), "turn1"));
    assert!(matches!(attr(&n, "tool_name"), Some(Json::Null)));
    assert!(attr(&n, "name").is_none());

    let tc = ChatMessage {
        id: "tc456".into(),
        msg_type: Some(MessageType::ToolCall),
        name: Some("local/ls".into()),
        ..Default::default()
    };
    let n = message_node(&tc);
    assert_eq!(n.name, "tc456");
    assert!(is_str(attr(&n, "tool_name"), "local/ls"));
}

#[test]
fn inbox_item_node_reuses_message_shape() {
    let m = ChatMessage {
        id: "i1".into(),
        role: Some(MessageRole::User),
        msg_type: Some(MessageType::Text),
        content: Some(MessageContent::Text("待发的这句话".into())),
        status: Some(MessageStatus::Completed),
        timestamp: Some(1_700_000_000_000),
        ..Default::default()
    };
    let n = inbox_item_node(&m);
    assert_eq!(n.name, "i1");
    assert_eq!(n.kind, KIND_INBOX);
    assert_eq!(n.ext.as_deref(), Some(EXT_MESSAGE));
    assert_eq!(n.title, "用户");
    assert_eq!(n.description.as_deref(), Some("待消费 · 待发的这句话"));
    assert_eq!(n.updated_at, Some(1_700_000_000_000));
}

#[test]
fn message_node_keeps_structure_in_attributes() {
    let m = ChatMessage {
        id: "m1".into(),
        role: Some(MessageRole::Assistant),
        msg_type: Some(MessageType::ToolCall),
        name: Some("vdfs_list".into()),
        status: Some(MessageStatus::Failed),
        error: Some("模型超时".into()),
        seq: Some(7),
        timestamp: Some(1_700_000_000_000),
        ..Default::default()
    };
    let n = message_node(&m);
    assert_eq!(n.title, "助手 · vdfs_list");
    assert_eq!(n.status, "failed");
    assert_eq!(n.updated_at, Some(1_700_000_000_000));
    assert!(is_str(attr(&n, "role"), "assistant"));
    assert!(is_str(attr(&n, "type"), "tool_call"));
    assert!(is_str(attr(&n, "error"), "模型超时"));
    assert!(matches!(attr(&n, "seq"), Some(Json::Num(JsonNumber::PosInt(7)))));
    assert!(matches!(attr(&n, "meta"), Some(Json::Null)));
    assert!(n.description.is_none());
    let n = inbox_item_node(&m);
    assert_eq!(n.description.as_deref(), Some("待消费"));
}

#[test]
fn message_body_is_the_text_of_plain_nodes_only() {
    let mut m = ChatMessage {
        id: "m1".into(),
        msg_type: Some(MessageType::Text),
        content: Some(MessageContent::Text("你好，世界".into())),
        ..Default::default()
    };
    assert_eq!(message_body(&m).as_deref(), Some("你好，世界"));
    m.msg_type = None;
    assert_eq!(message_body(&m).as_deref(), Some("你好，世界"));
    m.content = None;
    assert_eq!(message_body(&m).as_deref(), Some(""));
    m.msg_type = Some(MessageType::ToolCall);
    assert_eq!(message_body(&m), None);
    m.msg_type = Some(MessageType::Turn);
    assert_eq!(message_body(&m), None);
}

#[test]
fn an_unknown_cursor_gives_an_empty_page() {
    let msgs = vec![msg("t1", Some(1)), msg("t2", Some(2))];
    assert!(transcript_window(&msgs, Some(2), Some("gone")).is_empty());
    assert!(transcript_window(&msgs, Some(2), Some("///")).is_empty());
    assert!(transcript_window(&msgs, None, Some("gone")).is_empty());
    let one = vec![msg("t1", Some(1))];
    assert!(transcript_window(&one, Some(1), Some("x")).is_empty());
}

#[test]
fn window_keeps_grandchildren_with_their_root() {
    let msgs = vec![
        msg("t1", Some(1)),
        child("r1", Some(2), "t1"),
        child("g1", Some(3), "r1"),
        msg("t2", Some(4)),
        child("g2", Some(5), "r1"),
    ];
    assert_eq!(ids(&transcript_window(&msgs, Some(1), None)), vec!["t2"]);
    assert_eq!(ids(&transcript_window(&msgs, Some(1), Some("t2"))), vec!["t1", "r1", "g1", "g2"]);
    assert_eq!(ids(&transcript_window(&msgs, Some(5), None)), ids(&msgs));
}
