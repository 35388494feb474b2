use symbio_session::json::{Json, JsonList, JsonMap, JsonNumber};
use symbio_session::message::{ChatMessage, MessageContent, MessageRole, MessageStatus, MessageType};
use symbio_session::tool_exec::{
    apply_not_executed, build_tool_message, build_user_prompt_message, extract_result, is_pending,
    parse_error_text, pending_prompt_from, post_hook_output, running_parent, tool_run_result,
    BatchStep,
    IdleWatch, PendingPrompt, ToolBatch, ToolCallInfo, ToolRunOutcome, MISSING_ID_TEXT,
    MISSING_NAME_TEXT, NEEDS_APPROVAL, NEEDS_INTERACTION, RESULT_CONTENT, RESULT_OUTPUT,
};
use symbio_session::tool_result_guard::guard_tool_result;

/// A JSON value from its text, and the text a compact rendering gives.
fn parse(text: &str) -> (Json, String) {
    let v: serde_json::Value = serde_json::from_str(text).unwrap();
    (to_json(&v), v.to_string())
}

fn to_json(v: &serde_json::Value) -> Json {
    match v {
        serde_json::Value::Null => Json::Null,
        serde_json::Value::Bool(b) => Json::Bool(*b),
        serde_json::Value::Number(n) => {
            if let Some(u) = n.as_u64() {
                Json::Num(JsonNumber::PosInt(u))
            } else if let Some(i) = n.as_i64() {
                Json::Num(JsonNumber::NegInt(i))
            } else {
                Json::Num(JsonNumber::Float(n.to_string()))
            }
        }
        serde_json::Value::String(s) => Json::Str(s.clone()),
        serde_json::Value::Array(items) => {
            let mut l = JsonList::Nil;
            for it in items.iter().rev() {
                l = JsonList::Cons(Box::new(to_json(it)), Box::new(l));
            }
            Json::Arr(l)
        }
        serde_json::Value::Object(m) => {
            let mut out = JsonMap::Nil;
            for (k, x) in m.iter() {
                out.insert(k.clone(), to_json(x));
            }
            Json::Obj(out)
        }
    }
}

fn extract(text: &str) -> String {
    let (data, _) = parse(text);
    extract_result(&data)
}

fn str_at(j: Option<&Json>) -> Option<String> {
    match j {
        Some(Json::Str(s)) => Some(s.clone()),
        _ => None,
    }
}

fn meta_str(m: &ChatMessage, key: &str) -> Option<String> {
    m.meta.as_ref().and_then(|j| str_at(j.get(key)))
}

fn body(m: &ChatMessage) -> String {
    m.content.as_ref().map(|c| c.to_text()).unwrap_or_default()
}

fn call(id: Option<&str>, name: Option<&str>) -> ToolCallInfo {
    ToolCallInfo {
        id: id.map(|s| s.to_string()),
        wire_id: None,
        name: name.map(|s| s.to_string()),
        arguments: Json::Obj(JsonMap::Nil),
        parse_error: None,
    }
}

fn tool_call_node(id: &str) -> ChatMessage {
    ChatMessage {
        id: id.into(),
        role: Some(MessageRole::Assistant),
        msg_type: Some(MessageType::ToolCall),
        status: Some(MessageStatus::Streaming),
        ..Default::default()
    }
}

#[test]
fn content_wins_over_output() {
    assert_eq!(extract(r#"{"content": "正文", "output": "命令输出"}"#), "正文");
}

#[test]
fn output_is_read_when_content_absent() {
    assert_eq!(extract(r#"{"output": "ls 结果"}"#), "ls 结果");
}

#[test]
fn success_true_falls_back_to_the_whole_payload() {
    assert_eq!(extract(r#"{"success": true, "n": 3}"#), r#"{"n":3,"success":true}"#);
}

#[test]
fn success_false_renders_the_error_field() {
    assert_eq!(extract(r#"{"success": false, "error": "权限不足"}"#), "Error: 权限不足");
}

#[test]
fn success_false_without_error_says_unknown() {
    assert_eq!(extract(r#"{"success": false}"#), "Error: unknown error");
}

#[test]
fn bare_string_is_taken_as_is() {
    assert_eq!(extract(r#""直接给一段文本""#), "直接给一段文本");
}

#[test]
fn opaque_payload_is_stringified() {
    assert_eq!(extract(r#"{"path": "a.txt", "lines": 12}"#), r#"{"lines":12,"path":"a.txt"}"#);
    assert_eq!(extract("null"), "null");
    assert_eq!(extract("42"), "42");
}

#[test]
fn non_string_content_does_not_hijack_the_read() {
    assert_eq!(extract(r#"{"content": [1, 2], "output": "真正的输出"}"#), "真正的输出");
}

#[test]
fn empty_content_string_is_a_hit() {
    assert_eq!(extract(r#"{"content": "", "output": "x"}"#), "");
}

#[test]
fn result_field_constants_match_the_documented_order() {
    assert_eq!((RESULT_CONTENT, RESULT_OUTPUT), ("content", "output"));
}

#[test]
fn not_executed_patch_is_completed_not_failed() {
    let mut p = ChatMessage {
        id: "tc1".into(),
        role: Some(MessageRole::Assistant),
        msg_type: Some(MessageType::ToolCall),
        ..Default::default()
    };
    apply_not_executed(&mut p, "not_executed");
    assert_eq!(p.id, "tc1");
    assert_eq!(p.status, Some(MessageStatus::Completed));
    assert!(p.error.is_none());
    assert!(matches!(
        p.meta.as_ref().and_then(|m| m.get("success")),
        Some(Json::Bool(false))
    ));
    assert_eq!(meta_str(&p, "failure_kind").as_deref(), Some("not_executed"));
    let mut blocked = ChatMessage { id: "tc1".into(), ..Default::default() };
    apply_not_executed(&mut blocked, "blocked");
    assert_eq!(meta_str(&blocked, "failure_kind").as_deref(), Some("blocked"));
}

#[test]
fn pending_prompt_from_only_accepts_the_pending_kinds() {
    for kind in ["needs_approval", "needs_interaction"] {
        let text = format!(
            r#"{{"content": "需要确认：执行 cmd", "prompt": {{"kind": "confirm"}}, "failure_kind": "{kind}"}}"#
        );
        let (data, _) = parse(&text);
        let p = pending_prompt_from(&data).unwrap_or_else(|| panic!("{kind} waits"));
        assert_eq!(p.failure_kind, kind);
        assert_eq!(p.text, "需要确认：执行 cmd");
        assert_eq!(str_at(p.prompt.get("kind")).as_deref(), Some("confirm"));
    }
    for kind in ["error", "permission_denied", "tool_unavailable"] {
        let (data, _) = parse(&format!(r#"{{"content": "x", "failure_kind": "{kind}"}}"#));
        assert!(pending_prompt_from(&data).is_none(), "{kind}");
    }
    let (data, _) = parse(r#"{"content": "ok"}"#);
    assert!(pending_prompt_from(&data).is_none());
}

#[test]
fn build_user_prompt_message_uses_the_orchestrator_owned_ids() {
    let (prompt, _) = parse(r#"{"kind": "question", "questions": []}"#);
    let pending = PendingPrompt {
        text: "请回答问题以继续".into(),
        prompt,
        failure_kind: NEEDS_INTERACTION.into(),
    };
    let msg = build_user_prompt_message("res-1", "tc-1", &pending);
    assert_eq!(msg.id, "res-1");
    assert_eq!(msg.parent_id.as_deref(), Some("tc-1"));
    assert_eq!(msg.msg_type, Some(MessageType::UserPrompt));
    assert_eq!(msg.status, Some(MessageStatus::WaitingUserAction));
    assert_eq!(msg.role, Some(MessageRole::Tool));
    let meta = msg.meta.expect("meta");
    assert_eq!(str_at(meta.get("failure_kind")).as_deref(), Some("needs_interaction"));
    assert_eq!(
        str_at(meta.get("prompt").and_then(|p| p.get("kind"))).as_deref(),
        Some("question")
    );
}

#[test]
fn subagent_pending_payload_is_recognized_as_pending_intent() {
    let (payload, _) = parse(
        r#"{"content": "需要确认：删除文件", "success": false, "failure_kind": "needs_approval",
            "prompt": {"tool_name": "agent_run", "args": {"session_id": "child-1"}}}"#,
    );
    let p = pending_prompt_from(&payload).expect("pending");
    assert_eq!(p.text, "需要确认：删除文件");
    assert_eq!(str_at(p.prompt.get("tool_name")).as_deref(), Some("agent_run"));
    assert_eq!(p.failure_kind, NEEDS_APPROVAL);
}

#[test]
fn only_the_two_pending_kinds_wait() {
    assert!(is_pending("needs_approval"));
    assert!(is_pending("needs_interaction"));
    assert!(!is_pending("error"));
    assert!(!is_pending(""));
}

#[test]
fn failed_tool_message_is_marked_failed() {
    let m = build_tool_message("tc", "Error: x", Some(false), "r1".into());
    assert_eq!(m.id, "r1");
    assert_eq!(m.parent_id.as_deref(), Some("tc"));
    assert_eq!(m.status, Some(MessageStatus::Failed));
    assert_eq!(body(&m), "Error: x");
    let ok = build_tool_message("tc", "fine", Some(true), "r2".into());
    assert_eq!(ok.status, Some(MessageStatus::Completed));
    let plain = build_tool_message("tc", "fine", None, "r3".into());
    assert_eq!(plain.status, Some(MessageStatus::Completed));
}

#[test]
fn parse_error_text_names_the_broken_arguments() {
    let t = parse_error_text(r#"{"command": "cargo test"#);
    assert!(t.contains("参数 JSON 解析失败"), "{t}");
}

#[test]
fn post_hook_output_carries_content_or_error() {
    assert_eq!(str_at(post_hook_output(true, "ok").get("content")).as_deref(), Some("ok"));
    assert_eq!(str_at(post_hook_output(false, "bad").get("error")).as_deref(), Some("bad"));
    assert!(post_hook_output(false, "bad").get("content").is_none());
}

#[test]
fn run_outcomes_other_than_data_are_errors() {
    let r = tool_run_result("t", ToolRunOutcome::NoParent);
    assert!(!r.success);
    assert_eq!(r.text, "Error: No parent plugin");
    let r = tool_run_result("t", ToolRunOutcome::RouteError("down".into()));
    assert_eq!(r.text, "Error: down");
    let r = tool_run_result("shell", ToolRunOutcome::Aborted);
    assert_eq!(r.text, "Error: 工具 shell 被用户中止，未返回结果");
    let r = tool_run_result("shell", ToolRunOutcome::IdleTimeout);
    assert_eq!(r.text, "Error: 工具 shell 已 600 秒无任何进展，已强制中断（疑似挂死）");
    let (data, _) = parse(r#"{"content": "c", "failure_kind": "needs_approval"}"#);
    let r = tool_run_result("t", ToolRunOutcome::Data { data });
    assert!(r.success);
    assert_eq!(r.text, "c");
    assert!(r.pending.is_some());
}

#[test]
fn idle_watch_sees_progress_only_when_the_count_moves() {
    let mut w = IdleWatch::new(3);
    assert!(!w.progressed(3));
    assert!(w.progressed(5));
    assert!(!w.progressed(5));
}

#[test]
fn calls_without_id_or_name_are_refused_with_a_result() {
    let ctx = vec![tool_call_node("tc-known")];
    let mut b = ToolBatch::new(vec![call(None, Some("vdfs_list")), call(Some("tc-known"), Some(""))], false);
    match b.next_step(false) {
        BatchStep::Refuse { tool_call_id, error_text } => {
            assert!(tool_call_id.is_none());
            assert_eq!(error_text, MISSING_ID_TEXT);
            let (t, p) = b.record_refusal(tool_call_id, &error_text, &ctx);
            assert_eq!(t.role, Some(MessageRole::Tool));
            assert_eq!(t.status, Some(MessageStatus::Completed));
            assert!(body(&t).contains("Error:"));
            assert!(!t.parent_id.as_deref().unwrap_or("").is_empty());
            assert_eq!(p.status, Some(MessageStatus::Completed));
            assert_eq!(meta_str(&p, "failure_kind").as_deref(), Some("error"));
        }
        _ => panic!("expected a refusal"),
    }
    match b.next_step(false) {
        BatchStep::Refuse { tool_call_id, error_text } => {
            assert_eq!(tool_call_id.as_deref(), Some("tc-known"));
            assert_eq!(error_text, MISSING_NAME_TEXT);
            let (t, p) = b.record_refusal(tool_call_id, &error_text, &ctx);
            assert_eq!(t.parent_id.as_deref(), Some("tc-known"));
            assert_eq!(p.id, "tc-known");
            assert_eq!(p.role, Some(MessageRole::Assistant));
        }
        _ => panic!("expected a refusal"),
    }
    assert!(matches!(b.next_step(false), BatchStep::Done));
    assert!(b.finish(&ctx).is_empty());
    let (msgs, updates) = b.into_results();
    assert_eq!(msgs.len(), 2);
    assert_eq!(updates.len(), 2);
}

#[test]
fn unparseable_arguments_are_refused_before_running() {
    let mut c = call(Some("tc-broken"), Some("cmd"));
    c.parse_error = Some(r#"{"command": "cargo test"#.into());
    let ctx = vec![tool_call_node("tc-broken")];
    let mut b = ToolBatch::new(vec![c], false);
    match b.next_step(false) {
        BatchStep::Refuse { tool_call_id, error_text } => {
            let (t, p) = b.record_refusal(tool_call_id, &error_text, &ctx);
            assert_eq!(t.parent_id.as_deref(), Some("tc-broken"));
            let text = body(&t);
            assert!(text.contains("Error:") && text.contains("参数 JSON 解析失败"), "{text}");
            assert_eq!(p.id, "tc-broken");
            assert_eq!(p.status, Some(MessageStatus::Completed));
        }
        _ => panic!("expected a refusal"),
    }
}

#[test]
fn an_aborted_batch_gives_every_call_a_not_executed_result() {
    let ctx = vec![tool_call_node("tc1"), tool_call_node("tc2")];
    let mut b = ToolBatch::new(
        vec![call(Some("tc1"), Some("vdfs_list")), call(Some("tc2"), Some("vdfs_list"))],
        false,
    );
    assert!(matches!(b.next_step(true), BatchStep::Done));
    let closed = b.finish(&ctx);
    assert_eq!(closed.len(), 2);
    let (msgs, updates) = b.into_results();
    assert_eq!(msgs.len(), 2);
    for m in &msgs {
        assert_eq!(m.role, Some(MessageRole::Tool));
        assert_eq!(m.status, Some(MessageStatus::Completed));
        assert!(body(m).contains("未执行"));
    }
    assert_eq!(updates.len(), 2);
    for (u, id) in updates.iter().zip(["tc1", "tc2"]) {
        assert_eq!(u.id, id);
        assert_eq!(u.role, Some(MessageRole::Assistant));
        assert_eq!(u.msg_type, Some(MessageType::ToolCall));
        assert_eq!(u.status, Some(MessageStatus::Completed));
        assert_eq!(meta_str(u, "failure_kind").as_deref(), Some("not_executed"));
        assert!(u.error.is_none());
    }
    let parents: Vec<&str> = msgs.iter().filter_map(|m| m.parent_id.as_deref()).collect();
    assert_eq!(parents, vec!["tc1", "tc2"]);
}

#[test]
fn an_interactive_batch_stops_after_a_failure_and_closes_the_rest() {
    let ctx = vec![tool_call_node("tc1"), tool_call_node("tc2")];
    let mut b = ToolBatch::new(
        vec![call(Some("tc1"), Some("vdfs_read")), call(Some("tc2"), Some("vdfs_read"))],
        true,
    );
    match b.next_step(false) {
        BatchStep::Run { call_id, name, arguments } => {
            assert_eq!(call_id, "tc1");
            let run = tool_run_result(&name, ToolRunOutcome::NoParent);
            let g = guard_tool_result(&run.text, 8192, None);
            let (t, p) = b.record_finished(
                &call_id, &name, &arguments, run.success, &run.text, &g, "r1".into(), &ctx,
            );
            assert_eq!(t.parent_id.as_deref(), Some("tc1"));
            assert_eq!(body(&t), "Error: No parent plugin");
            assert_eq!(meta_str(p.as_ref().unwrap(), "failure_kind").as_deref(), Some("error"));
        }
        _ => panic!("expected a run"),
    }
    assert!(matches!(b.next_step(false), BatchStep::Done));
    b.finish(&ctx);
    let (msgs, updates) = b.into_results();
    assert_eq!(msgs.len(), 2);
    let skipped = msgs.iter().find(|m| m.parent_id.as_deref() == Some("tc2")).expect("tc2");
    assert_eq!(skipped.status, Some(MessageStatus::Completed));
    assert_eq!(meta_str(skipped, "failure_kind").as_deref(), Some("not_executed"));
    assert_eq!(updates.len(), 2);
}

#[test]
fn a_running_call_is_streaming_with_its_start_time() {
    let ctx = vec![tool_call_node("tc1")];
    let p = running_parent(&ctx, "tc1", 1_700_000_000_000).expect("known call");
    assert_eq!(p.id, "tc1");
    assert_eq!(p.status, Some(MessageStatus::Streaming));
    assert!(matches!(
        p.meta.as_ref().and_then(|m| m.get("started_at")),
        Some(Json::Num(JsonNumber::PosInt(1_700_000_000_000)))
    ));
    assert!(running_parent(&ctx, "nope", 1).is_none());
}

#[test]
fn finishing_leaves_a_waiting_call_waiting() {
    let ctx = vec![tool_call_node("tc1"), tool_call_node("tc2")];
    let mut b = ToolBatch::new(
        vec![call(Some("tc1"), Some("ask")), call(Some("tc2"), Some("vdfs_read"))],
        true,
    );
    match b.next_step(false) {
        BatchStep::Run { call_id, .. } => {
            let (prompt, _) = parse(r#"{"kind": "question"}"#);
            let pending = PendingPrompt {
                text: "请回答".into(),
                prompt,
                failure_kind: NEEDS_INTERACTION.into(),
            };
            let (card, snap) = b.record_waiting(&call_id, &pending, "card-1", &ctx);
            assert!(matches!(&card.content, Some(MessageContent::Text(t)) if t == "请回答"));
            assert_eq!(snap.unwrap().status, Some(MessageStatus::WaitingUserAction));
        }
        _ => panic!("expected a run"),
    }
    assert!(matches!(b.next_step(false), BatchStep::Done));
    let closed = b.finish(&ctx);
    assert_eq!(closed.len(), 1);
    assert_eq!(closed[0].0.parent_id.as_deref(), Some("tc2"));
    let (msgs, ups) = b.into_results();
    assert_eq!(msgs.len(), 2);
    let ids: Vec<&str> = ups.iter().map(|u| u.id.as_str()).collect();
    assert_eq!(ids, vec!["tc1", "tc2"]);
    assert_eq!(ups[0].status, Some(MessageStatus::WaitingUserAction));
    assert_eq!(ups[1].status, Some(MessageStatus::Completed));
}

#[test]
fn a_whole_payload_is_rendered_as_compact_json() {
    for text in [
        r#"{"success": true, "n": -3, "list": [1, 2.5, "x"], "nested": {"a": null}}"#,
        r#"[1, {"b": false}]"#,
        r#"42"#,
    ] {
        let (data, compact) = parse(text);
        assert_eq!(extract_result(&data), compact, "{text}");
    }
    let (data, _) = parse(r#"{"success": true, "n": 1}"#);
    let r = tool_run_result("t", ToolRunOutcome::Data { data });
    assert_eq!(r.text, r#"{"n":1,"success":true}"#);
}

#[test]
fn every_call_ends_with_one_result_and_one_settled_snapshot() {
    let ctx = vec![tool_call_node("tc1"), tool_call_node("tc2"), tool_call_node("tc3")];
    let mut b = ToolBatch::new(
        vec![
            call(Some("tc1"), Some("vdfs_read")),
            call(Some("tc2"), Some("vdfs_write")),
            call(Some("tc3"), Some("vdfs_read")),
        ],
        false,
    );
    match b.next_step(false) {
        BatchStep::Run { call_id, name, arguments } => {
            let run = tool_run_result(&name, ToolRunOutcome::NoParent);
            let g = guard_tool_result(&run.text, 8192, None);
            b.record_finished(&call_id, &name, &arguments, run.success, &run.text, &g, "r1".into(), &ctx);
        }
        _ => panic!("expected a run"),
    }
    match b.next_step(false) {
        BatchStep::Run { call_id, .. } => {
            b.record_blocked(&call_id, Some("no".into()), &ctx);
        }
        _ => panic!("expected a run"),
    }
    assert!(matches!(b.next_step(true), BatchStep::Done));
    b.finish(&ctx);
    let (msgs, ups) = b.into_results();
    for id in ["tc1", "tc2", "tc3"] {
        let results = msgs
            .iter()
            .filter(|m| m.parent_id.as_deref() == Some(id) && m.role == Some(MessageRole::Tool))
            .count();
        assert_eq!(results, 1, "{id}");
        let finals: Vec<&ChatMessage> = ups.iter().filter(|u| u.id == id).collect();
        assert_eq!(finals.len(), 1, "{id}");
        assert!(matches!(
            finals[0].status,
            Some(MessageStatus::Completed) | Some(MessageStatus::WaitingUserAction)
        ));
    }
}
