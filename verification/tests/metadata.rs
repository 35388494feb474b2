use serde_json::Value;
use symbio_session::entry::PluginError;
use symbio_session::inbox::{
    cleared_text, complete_inbox_message, inbox_route, inbox_text_message, is_structured_inbox,
    missing_item_cancel_text, missing_item_stat_text, InboxRoute, INBOX_NO_BINARY_TEXT,
};
use symbio_session::json::{Json, JsonList, JsonMap, JsonNumber};
use symbio_session::message::{ChatMessage, MessageRole, MessageStatus, MessageType};
use symbio_session::transcript_ops::NodeRequest;
use symbio_session::types::Session;
use symbio_session::upsert::{
    initial_metadata, plan_session_upsert, UpsertPlan, NOT_OBJECT_TEXT, NO_FIELDS_TEXT,
    ROOT_NEEDS_CREATE_TEXT,
};

fn to_json(v: &Value) -> Json {
    match v {
        Value::Null => Json::Null,
        Value::Bool(b) => Json::Bool(*b),
        Value::Number(n) => match (n.as_u64(), n.as_i64()) {
            (Some(u), _) => Json::Num(JsonNumber::PosInt(u)),
            (None, Some(i)) => Json::Num(JsonNumber::NegInt(i)),
            _ => Json::Num(JsonNumber::Float(n.to_string())),
        },
        Value::String(s) => Json::Str(s.clone()),
        Value::Array(items) => {
            let mut l = JsonList::Nil;
            for it in items.iter().rev() {
                l = JsonList::Cons(Box::new(to_json(it)), Box::new(l));
            }
            Json::Arr(l)
        }
        Value::Object(m) => {
            let mut out = JsonMap::Nil;
            for (k, x) in m.iter() {
                out.insert(k.clone(), to_json(x));
            }
            Json::Obj(out)
        }
    }
}

fn from_json(j: &Json) -> Value {
    match j {
        Json::Null => Value::Null,
        Json::Bool(b) => Value::Bool(*b),
        Json::Num(JsonNumber::PosInt(u)) => Value::from(*u),
        Json::Num(JsonNumber::NegInt(i)) => Value::from(*i),
        Json::Num(JsonNumber::Float(t)) => serde_json::from_str(t).unwrap(),
        Json::Str(s) => Value::String(s.clone()),
        Json::Arr(l) => {
            let mut out = Vec::new();
            let mut cur = l;
            while let JsonList::Cons(h, t) = cur {
                out.push(from_json(h));
                cur = t;
            }
            Value::Array(out)
        }
        Json::Obj(m) => {
            let mut out = serde_json::Map::new();
            let mut cur = m;
            while let JsonMap::Entry(k, v, rest) = cur {
                out.entry(k.clone()).or_insert_with(|| from_json(v));
                cur = rest;
            }
            Value::Object(out)
        }
    }
}

fn j(text: &str) -> Json {
    to_json(&serde_json::from_str::<Value>(text).unwrap())
}

fn v(text: &str) -> Value {
    serde_json::from_str(text).unwrap()
}

fn session(meta: &str) -> Session {
    let mut s = Session::new("s1".into());
    s.metadata = j(meta);
    s
}

#[test]
fn merge_metadata_is_shallow_and_keeps_untouched_keys() {
    let mut s = session(r#"{"workdir": "/a", "agent_id": "x"}"#);
    s.merge_metadata_object(&j(r#"{"metadata": {"workdir": "/b"}}"#));
    let m = from_json(&s.metadata);
    assert_eq!(m["workdir"], v(r#""/b""#));
    assert_eq!(m["agent_id"], v(r#""x""#));
}

#[test]
fn merge_metadata_absent_field_leaves_metadata_alone() {
    let mut s = session(r#"{"workdir": "/a"}"#);
    s.merge_metadata_object(&j(r#"{"title": "新名字"}"#));
    let m = from_json(&s.metadata);
    assert_eq!(m["workdir"], v(r#""/a""#));
    assert_eq!(m["title"], v(r#""新名字""#));
}

#[test]
fn merge_metadata_non_object_replaces_wholesale() {
    let mut s = session(r#"{"workdir": "/a"}"#);
    s.merge_metadata_object(&j(r#"{"metadata": null}"#));
    assert_eq!(from_json(&s.metadata), Value::Null);

    let mut s2 = Session::new("s2".into());
    s2.metadata = Json::Str("不是对象".into());
    s2.merge_metadata_object(&j(r#"{"metadata": {"k": 1}}"#));
    assert_eq!(from_json(&s2.metadata), v(r#"{"k": 1}"#));
}

#[test]
fn merge_metadata_writes_empty_title_verbatim() {
    let mut s = session(r#"{"title": "旧名字"}"#);
    s.merge_metadata_object(&j(r#"{"title": ""}"#));
    assert_eq!(from_json(&s.metadata)["title"], v(r#""""#));

    let mut s2 = Session::new("s2".into());
    s2.merge_metadata_object(&j(r#"{"title": null}"#));
    assert!(from_json(&s2.metadata).get("title").is_none());
}

#[test]
fn merge_metadata_empty_object_is_a_noop() {
    let mut s = session(r#"{"workdir": "/a", "title": "旧"}"#);
    s.merge_metadata_object(&j("{}"));
    assert_eq!(from_json(&s.metadata), v(r#"{"workdir": "/a", "title": "旧"}"#));
}

#[test]
fn merge_metadata_sets_title_after_the_metadata_field() {
    let mut s = session(r#"{"title": "a"}"#);
    s.merge_metadata_object(&j(r#"{"metadata": {"title": "b", "x": 1}, "title": "c"}"#));
    assert_eq!(from_json(&s.metadata), v(r#"{"title": "c", "x": 1}"#));
}

#[test]
fn a_named_create_uses_the_address_as_the_session_id() {
    let body = j(r#"{"metadata": {"workdir": "/w"}, "title": "  我的  "}"#);
    match plan_session_upsert("dir/我的会话", &body, false, true) {
        Ok(UpsertPlan::Create { id, metadata }) => {
            assert_eq!(id.as_deref(), Some("我的会话"));
            assert_eq!(
                from_json(&metadata),
                v(r#"{"workdir": "/w", "title": "我的", "created_via": "vdfs"}"#)
            );
        }
        other => panic!("{other:?}"),
    }
}

#[test]
fn a_create_at_the_root_asks_for_a_fresh_id() {
    match plan_session_upsert("", &j("{}"), false, true) {
        Ok(UpsertPlan::Create { id, metadata }) => {
            assert!(id.is_none());
            assert_eq!(from_json(&metadata), v(r#"{"created_via": "vdfs"}"#));
        }
        other => panic!("{other:?}"),
    }
}

#[test]
fn a_named_create_on_an_existing_session_merges() {
    match plan_session_upsert("abc", &j(r#"{"title": "T"}"#), true, true) {
        Ok(UpsertPlan::Merge { id }) => assert_eq!(id, "abc"),
        other => panic!("{other:?}"),
    }
}

#[test]
fn overwrites_need_a_field_and_a_named_target() {
    match plan_session_upsert("abc", &j(r#"{"messages": []}"#), true, false) {
        Err(PluginError::ValidationError(t)) => assert_eq!(t, NO_FIELDS_TEXT),
        other => panic!("{other:?}"),
    }
    match plan_session_upsert("", &j(r#"{"title": "x"}"#), false, false) {
        Err(PluginError::ValidationError(t)) => assert_eq!(t, ROOT_NEEDS_CREATE_TEXT),
        other => panic!("{other:?}"),
    }
    match plan_session_upsert("abc", &j("[1]"), false, true) {
        Err(PluginError::ValidationError(t)) => assert_eq!(t, NOT_OBJECT_TEXT),
        other => panic!("{other:?}"),
    }
}

#[test]
fn an_explicit_origin_is_kept_and_a_blank_title_is_ignored() {
    let m = initial_metadata(&j(r#"{"metadata": {"created_via": "cli", "title": "m"}, "title": "  "}"#));
    assert_eq!(from_json(&m), v(r#"{"created_via": "cli", "title": "m"}"#));
}

#[test]
fn parse_inbox_message_distinguishes_shape_by_first_char() {
    assert!(is_structured_inbox(r#"{"content": "hi"}"#));
    assert!(is_structured_inbox("  {content}"));
    assert!(!is_structured_inbox("hello {x}"));
    assert!(!is_structured_inbox(""));

    let m = inbox_text_message(" 你好 ", 42);
    assert_eq!(m.id, "");
    assert_eq!(m.role, Some(MessageRole::User));
    assert_eq!(m.msg_type, Some(MessageType::Text));
    assert_eq!(m.status, Some(MessageStatus::Completed));
    assert_eq!(m.timestamp, Some(42));
    assert_eq!(m.content.unwrap().to_text(), " 你好 ");
}

#[test]
fn structured_inbox_messages_get_defaults_without_losing_fields() {
    let m = complete_inbox_message(ChatMessage {
        id: "x".into(),
        role: Some(MessageRole::System),
        status: Some(MessageStatus::Streaming),
        name: Some("n".into()),
        ..Default::default()
    });
    assert_eq!(m.id, "x");
    assert_eq!(m.role, Some(MessageRole::System));
    assert_eq!(m.msg_type, Some(MessageType::Text));
    assert_eq!(m.status, Some(MessageStatus::Completed));
    assert_eq!(m.name.as_deref(), Some("n"));
    let d = complete_inbox_message(ChatMessage::with_id(String::new()));
    assert_eq!(d.role, Some(MessageRole::User));
}

#[test]
fn the_inbox_takes_writes_and_cancels_items() {
    let p = "s/inbox";
    assert!(matches!(inbox_route(&NodeRequest::List, false, p), InboxRoute::ListItems));
    assert!(matches!(inbox_route(&NodeRequest::List, true, p), InboxRoute::NotFound(_)));
    assert!(matches!(
        inbox_route(&NodeRequest::Write { create: true, binary: false }, false, p),
        InboxRoute::Enqueue
    ));
    assert!(matches!(
        inbox_route(&NodeRequest::Write { create: false, binary: false }, true, p),
        InboxRoute::Enqueue
    ));
    match inbox_route(&NodeRequest::Write { create: false, binary: true }, true, p) {
        InboxRoute::Invalid(t) => assert_eq!(t, INBOX_NO_BINARY_TEXT),
        other => panic!("{other:?}"),
    }
    assert!(matches!(inbox_route(&NodeRequest::Delete, true, p), InboxRoute::Cancel));
    match inbox_route(&NodeRequest::Delete, false, p) {
        InboxRoute::Forbidden(t) => {
            assert_eq!(t, "收件箱不可整体删除：清空待消费队列请用 action(\"clear\")：s/inbox")
        }
        other => panic!("{other:?}"),
    }
    assert!(matches!(
        inbox_route(&NodeRequest::Action("clear".into()), false, p),
        InboxRoute::Clear
    ));
    assert!(matches!(
        inbox_route(&NodeRequest::Action("clear".into()), true, p),
        InboxRoute::NotImplemented
    ));
    assert_eq!(cleared_text(3), "已取消 3 条待消费消息");
    assert_eq!(missing_item_stat_text("i1"), "收件箱里没有待消费条目：i1（已出队的那条在转写里）");
    assert_eq!(
        missing_item_cancel_text("i1", "s/inbox/i1"),
        "收件箱里没有待消费条目 i1（已出队的那条已是会话里的消息，中止请走 action(会话地址, \"abort\")）：s/inbox/i1"
    );
}
