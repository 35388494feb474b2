use symbio_session::json::Json;
use symbio_session::message::{ChatMessage, MessageContent, MessageRole, MessageStatus, MessageType};
use symbio_session::nodes::{message_path, NodeView};
use symbio_session::transcript::{
    frame_log_of, is_inflight_seq, render_frame_line, DeltaLogCoalescer, Delivery, FrameLogLevel,
    LogLevel, Payload, Transcript, INFLIGHT_SEQ_BASE,
};

fn text_msg(id: &str, status: MessageStatus, text: &str) -> ChatMessage {
    ChatMessage {
        id: id.to_string(),
        role: Some(MessageRole::Assistant),
        msg_type: Some(MessageType::Text),
        status: Some(status),
        content: Some(MessageContent::Text(text.to_string())),
        ..Default::default()
    }
}

fn delta_msg(id: &str, delta: &str) -> ChatMessage {
    ChatMessage { id: id.to_string(), delta: Some(delta.to_string()), ..Default::default() }
}

fn removed_msg(id: &str) -> ChatMessage {
    ChatMessage { id: id.to_string(), status: Some(MessageStatus::Removed), ..Default::default() }
}

fn transcript() -> Transcript {
    Transcript::new("s1".into())
}

/// Everything delivered so far (an open delivery window stays open).
fn seen(tr: &mut Transcript) -> Vec<Delivery> {
    tr.take_deliveries()
}

fn message_of(d: &Delivery) -> &ChatMessage {
    match &d.payload {
        Payload::Message(m) => m,
        Payload::Session(_) => panic!("expected a message payload"),
    }
}

fn text_of(m: &ChatMessage) -> Option<String> {
    match &m.content {
        Some(MessageContent::Text(t)) => Some(t.clone()),
        _ => None,
    }
}

fn view(status: &str) -> NodeView {
    NodeView {
        name: "s1".into(),
        title: "会话".into(),
        kind: "session".into(),
        ext: Some("session".into()),
        status: status.into(),
        updated_at: None,
        description: None,
        attributes: Json::Null,
    }
}

#[test]
fn frame_counter_is_monotonic_and_violations_consume_no_frame() {
    let mut tr = transcript();
    tr.apply(text_msg("a", MessageStatus::Streaming, "你"));
    tr.apply(delta_msg("a", "好"));
    tr.apply(ChatMessage {
        id: "a".into(),
        delta: Some("!".into()),
        content: Some(MessageContent::Text("你好!".into())),
        ..Default::default()
    });
    tr.apply(text_msg("a", MessageStatus::Completed, "你好"));
    assert_eq!(tr.frame_count(), 3);
    assert_eq!(seen(&mut tr).len(), 3);
    assert_eq!(text_of(&tr.get("a").unwrap()).as_deref(), Some("你好"));
}

#[test]
fn delta_appends_and_content_replaces() {
    let mut tr = transcript();
    tr.apply(text_msg("a", MessageStatus::Streaming, ""));
    tr.apply(delta_msg("a", "ab"));
    tr.apply(delta_msg("a", "cd"));
    assert_eq!(text_of(&tr.get("a").unwrap()).as_deref(), Some("abcd"));
    tr.apply(text_msg("a", MessageStatus::Completed, "XYZ"));
    assert_eq!(text_of(&tr.get("a").unwrap()).as_deref(), Some("XYZ"));
}

#[test]
fn delta_for_unknown_id_creates_placeholder() {
    let mut tr = transcript();
    tr.apply(delta_msg("ghost", "片段"));
    let n = tr.get("ghost").expect("placeholder");
    assert_eq!(n.id, "ghost");
    assert_eq!(text_of(&n).as_deref(), Some("片段"));
    let delivered = seen(&mut tr);
    assert_eq!(delivered.len(), 1);
    assert_eq!(delivered[0].path, message_path("s1", "ghost"));
    let v = message_of(&delivered[0]);
    assert!(v.delta.is_none());
    assert_eq!(text_of(v).as_deref(), Some("片段"));
    assert_eq!(n.seq, Some(INFLIGHT_SEQ_BASE));
}

#[test]
fn removed_and_persisted_evict() {
    let mut tr = transcript();
    tr.apply(text_msg("a", MessageStatus::Streaming, "1"));
    tr.apply(text_msg("b", MessageStatus::Streaming, "2"));
    tr.persisted(&vec!["a".to_string()]);
    assert!(tr.get("a").is_none());
    tr.apply(removed_msg("b"));
    assert!(tr.snapshot().is_empty());
    assert_eq!(tr.frame_count(), 3);
    let delivered = seen(&mut tr);
    let last = delivered.last().unwrap();
    assert_eq!(last.path, message_path("s1", "b"));
    let v = message_of(last);
    assert_eq!(v.status, Some(MessageStatus::Removed));
    assert!(v.delta.is_none());
}

#[test]
fn delta_is_never_retained_on_graph_nodes() {
    let mut tr = transcript();
    tr.apply(text_msg("a", MessageStatus::Streaming, ""));
    tr.apply(delta_msg("a", "abc"));
    assert!(tr.get("a").unwrap().delta.is_none());
}

#[test]
fn inflight_messages_get_their_position_seq_at_creation() {
    let mut tr = transcript();
    tr.apply(text_msg("t1", MessageStatus::Streaming, ""));
    tr.apply(text_msg("t2", MessageStatus::Streaming, ""));
    assert_eq!(tr.get("t1").unwrap().seq, Some(INFLIGHT_SEQ_BASE));
    assert_eq!(tr.get("t2").unwrap().seq, Some(INFLIGHT_SEQ_BASE + 1));
    tr.apply(delta_msg("t1", "x"));
    assert_eq!(tr.get("t1").unwrap().seq, Some(INFLIGHT_SEQ_BASE));
    tr.apply(ChatMessage { id: "t1".into(), seq: Some(7), ..Default::default() });
    assert_eq!(tr.get("t1").unwrap().seq, Some(7));
}

#[test]
fn inflight_seq_sorts_after_all_stored_messages() {
    let mut tr = transcript();
    tr.apply(text_msg("old", MessageStatus::Completed, "历史"));
    tr.apply(text_msg("new", MessageStatus::Streaming, "在途"));
    let mut msgs = tr.snapshot();
    msgs.sort_by_key(|m| m.seq.unwrap_or(i64::MAX));
    let ids: Vec<&str> = msgs.iter().map(|m| m.id.as_str()).collect();
    assert_eq!(ids, vec!["old", "new"]);
}

#[test]
fn deliveries_sit_at_the_message_address_and_carry_the_frame() {
    let mut tr = transcript();
    tr.apply(text_msg("a", MessageStatus::Streaming, ""));
    tr.apply(delta_msg("a", "你"));
    tr.apply(text_msg("a", MessageStatus::Completed, "你好"));
    tr.apply(removed_msg("a"));

    let d = seen(&mut tr);
    assert_eq!(d.len(), 4);
    let addr = message_path("s1", "a");
    assert!(d.iter().all(|c| c.path == addr));
    let v0 = message_of(&d[0]);
    assert_eq!(v0.id, "a");
    assert!(v0.delta.is_none());
    assert_eq!(message_of(&d[1]).delta.as_deref(), Some("你"));
    let v2 = message_of(&d[2]);
    assert!(v2.delta.is_none());
    assert_eq!(text_of(v2).as_deref(), Some("你好"));
    assert_eq!(message_of(&d[3]).status, Some(MessageStatus::Removed));
}

#[test]
fn a_first_frame_carrying_delta_is_delivered_as_full_copy() {
    let mut tr = transcript();
    tr.apply(delta_msg("a", "片段"));
    let d = seen(&mut tr);
    assert_eq!(d.len(), 1);
    let v = message_of(&d[0]);
    assert!(v.delta.is_none());
    assert_eq!(text_of(v).as_deref(), Some("片段"));
    assert_eq!(text_of(&tr.get("a").unwrap()).as_deref(), Some("片段"));
}

#[test]
fn adjacent_deltas_of_one_node_are_delivered_as_their_concatenation() {
    let mut tr = transcript();
    tr.apply(text_msg("a", MessageStatus::Streaming, ""));
    tr.apply(delta_msg("a", "x"));
    tr.apply(delta_msg("a", "y"));
    tr.apply(delta_msg("a", "z"));
    assert!(tr.has_pending_delivery());
    tr.clear();
    assert!(!tr.has_pending_delivery());
    let d = seen(&mut tr);
    assert!(d.len() >= 2 && d.len() <= 4);
    let joined: String = d[1..].iter().map(|c| message_of(c).delta.clone().unwrap()).collect();
    assert_eq!(joined, "xyz");
    assert_eq!(tr.frame_count(), 4);
}

#[test]
fn consecutive_deltas_on_one_node_collapse_into_a_single_line() {
    let mut c = DeltaLogCoalescer::default();
    assert_eq!(c.feed(&delta_msg("a", "12345678"), 4, true), (None, true));
    assert_eq!(c.feed(&delta_msg("a", "x"), 5, true), (None, true));
    assert_eq!(c.feed(&delta_msg("a", "yz"), 6, true), (None, true));
    let line = c.flush().expect("run");
    assert_eq!(line, "[T#4..6] a - Update 3 帧 / +11c");
    assert_eq!(c.flush(), None);
}

#[test]
fn switching_node_flushes_the_previous_run() {
    let mut c = DeltaLogCoalescer::default();
    assert_eq!(c.feed(&delta_msg("a", "123"), 1, true), (None, true));
    assert_eq!(c.feed(&delta_msg("a", "45"), 2, true), (None, true));
    let (flushed, absorbed) = c.feed(&delta_msg("b", "6"), 3, true);
    assert_eq!(flushed.as_deref(), Some("[T#1..2] a - Update 2 帧 / +5c"));
    assert!(absorbed);
    assert_eq!(c.flush().as_deref(), Some("[T#3] b - Update +1c"));
}

#[test]
fn a_non_delta_frame_flushes_the_run() {
    let mut c = DeltaLogCoalescer::default();
    assert_eq!(c.feed(&delta_msg("a", "12"), 1, true), (None, true));
    assert_eq!(c.feed(&delta_msg("a", "34"), 2, true), (None, true));
    let (flushed, absorbed) = c.feed(&text_msg("a", MessageStatus::Completed, "1234"), 3, true);
    assert_eq!(flushed.as_deref(), Some("[T#1..2] a - Update 2 帧 / +4c"));
    assert!(!absorbed);
    assert_eq!(c.flush(), None);
}

#[test]
fn a_skeleton_frame_is_never_folded() {
    let mut c = DeltaLogCoalescer::default();
    let (flushed, absorbed) = c.feed(&delta_msg("a", "abc"), 1, false);
    assert_eq!(flushed, None);
    assert!(!absorbed);
    assert_eq!(c.flush(), None);

    assert_eq!(c.feed(&delta_msg("a", "de"), 2, true), (None, true));
    let (flushed, absorbed) = c.feed(&text_msg("a", MessageStatus::Completed, "abcde"), 3, false);
    assert_eq!(flushed.as_deref(), Some("[T#2] a - Update +2c"));
    assert!(!absorbed);
}

#[test]
fn a_single_frame_run_renders_exactly_like_before() {
    let mut c = DeltaLogCoalescer::default();
    assert_eq!(c.feed(&delta_msg("a", "abc"), 7, true), (None, true));
    assert_eq!(c.flush().as_deref(), Some("[T#7] a - Update +3c"));
}

#[test]
fn frame_log_splits_skeleton_from_detail() {
    let (skeleton, detail) = (FrameLogLevel::Skeleton, FrameLogLevel::Detail);
    assert_eq!(frame_log_of(false, None), ("Start", skeleton));
    assert_eq!(frame_log_of(false, Some(&MessageStatus::Streaming)), ("Start", skeleton));
    assert_eq!(frame_log_of(true, Some(&MessageStatus::WaitingUserAction)), ("Wait", skeleton));
    for st in [MessageStatus::Completed, MessageStatus::Failed, MessageStatus::Aborted] {
        assert_eq!(frame_log_of(true, Some(&st)), ("End", skeleton), "{st:?}");
    }
    assert_eq!(frame_log_of(true, Some(&MessageStatus::Pending)), ("Update", detail));
    assert_eq!(frame_log_of(true, Some(&MessageStatus::Streaming)), ("Update", detail));
    assert_eq!(frame_log_of(true, None), ("Update", detail));
}

#[test]
fn render_frame_line_is_trimmed() {
    assert_eq!(render_frame_line(7, "abc", "completed", ""), "[T#7] abc completed");
    assert_eq!(
        render_frame_line(7, "abc", "completed", "Start =12c"),
        "[T#7] abc completed Start =12c"
    );
}

#[test]
fn clear_and_persisted_flush_the_trailing_run() {
    let mut tr = transcript();
    tr.apply(text_msg("a", MessageStatus::Streaming, ""));
    tr.apply(delta_msg("a", "abc"));
    tr.apply(delta_msg("a", "de"));
    assert!(tr.has_open_log_run());
    tr.clear();
    assert!(!tr.has_open_log_run());

    tr.apply(text_msg("a", MessageStatus::Streaming, ""));
    tr.apply(delta_msg("a", "xy"));
    assert!(tr.has_open_log_run());
    tr.persisted(&vec!["a".to_string()]);
    assert!(!tr.has_open_log_run());
}

#[test]
fn session_state_change_lands_on_the_session_leaf() {
    let mut tr = transcript();
    tr.apply(text_msg("a", MessageStatus::Completed, "你好"));
    tr.emit_session_state(Some(view("active")));

    let d = seen(&mut tr);
    assert_eq!(d.len(), 2);
    assert_eq!(d[1].path, "s1");
    match &d[1].payload {
        Payload::Session(Some(v)) => assert_eq!(v.status, "active"),
        _ => panic!("expected the session view"),
    }
    assert_eq!(tr.frame_count(), 2);
}

#[test]
fn session_state_without_view_is_a_bare_change() {
    let mut tr = transcript();
    tr.emit_session_state(None);
    let d = seen(&mut tr);
    assert_eq!(d.len(), 1);
    assert_eq!(d[0].path, "s1");
    assert!(matches!(d[0].payload, Payload::Session(None)));
}

#[test]
fn session_state_frame_does_not_touch_the_message_graph() {
    let mut tr = transcript();
    tr.apply(text_msg("a", MessageStatus::Completed, "你好"));
    let before = tr.snapshot().len();
    tr.emit_session_state(None);
    assert_eq!(tr.snapshot().len(), before);
    assert_eq!(tr.get("a").and_then(|m| m.status), Some(MessageStatus::Completed));
}

#[test]
fn is_inflight_seq_splits_authoritative_and_inflight_ranges() {
    assert!(!is_inflight_seq(0));
    assert!(!is_inflight_seq(INFLIGHT_SEQ_BASE - 1));
    assert!(is_inflight_seq(INFLIGHT_SEQ_BASE));
    assert!(is_inflight_seq(INFLIGHT_SEQ_BASE + 1));
    assert!(!is_inflight_seq(1 << 40));
}

#[test]
fn a_frame_with_both_delta_and_content_is_logged_as_an_error() {
    let mut tr = transcript();
    tr.apply(ChatMessage {
        id: "a".into(),
        delta: Some("!".into()),
        content: Some(MessageContent::Text("x".into())),
        ..Default::default()
    });
    assert!(tr.get("a").is_none());
    assert_eq!(tr.frame_count(), 0);
    let log = tr.take_log();
    assert_eq!(log.len(), 1);
    assert!(log[0].text.contains("protocol violation"));
}

fn graph_view(tr: &Transcript) -> Vec<(String, Option<String>, Option<i64>, Option<MessageStatus>)> {
    tr.snapshot()
        .iter()
        .map(|m| (m.id.clone(), text_of(m), m.seq, m.status))
        .collect()
}

#[test]
fn repeating_a_whole_body_frame_changes_nothing() {
    let mut tr = transcript();
    tr.apply(text_msg("a", MessageStatus::Streaming, "第一版"));
    tr.apply(text_msg("b", MessageStatus::Completed, "旁边"));
    let frame = text_msg("a", MessageStatus::Completed, "定稿");
    tr.apply(frame.copy());
    let once = graph_view(&tr);
    tr.apply(frame);
    assert_eq!(graph_view(&tr), once);
    assert_eq!(once[0].1.as_deref(), Some("定稿"));
    tr.apply(removed_msg("b"));
    let once = graph_view(&tr);
    tr.apply(removed_msg("b"));
    assert_eq!(graph_view(&tr), once);
    assert_eq!(once.len(), 1);
}

#[test]
fn persisted_keeps_the_other_nodes_in_order() {
    let mut tr = transcript();
    for id in ["a", "b", "c", "d"] {
        tr.apply(text_msg(id, MessageStatus::Streaming, id));
    }
    let before = graph_view(&tr);
    tr.persisted(&vec!["b".to_string(), "x".to_string()]);
    let after = graph_view(&tr);
    let expected: Vec<_> = before.into_iter().filter(|e| e.0 != "b").collect();
    assert_eq!(after, expected);
    assert!(tr.get("b").is_none());
}

#[test]
fn apply_writes_one_line_per_frame_and_folds_delta_runs() {
    let mut tr = transcript();
    tr.apply(text_msg("m1", MessageStatus::Streaming, ""));
    tr.apply(delta_msg("m1", "ab"));
    tr.apply(delta_msg("m1", "cde"));
    tr.apply(removed_msg("m1"));
    tr.apply(removed_msg("ghost"));
    let log: Vec<(LogLevel, String)> = tr.take_log().into_iter().map(|l| (l.level, l.text)).collect();
    assert_eq!(log.len(), 4, "{log:?}");
    assert_eq!(log[0].0, LogLevel::Info);
    assert!(log[0].1.starts_with("[T#1] m1 streaming Start"), "{}", log[0].1);
    assert_eq!(log[1], (LogLevel::Debug, "[T#2..3] m1 - Update 2 帧 / +5c".to_string()));
    assert_eq!(log[2], (LogLevel::Info, "[T#4] m1 removed m1".to_string()));
    assert_eq!(log[3], (LogLevel::Info, "[T#5] ghost removed (not in flight)".to_string()));
}

#[test]
fn a_conflicting_frame_logs_its_node_id() {
    let mut tr = transcript();
    tr.apply(ChatMessage {
        id: "n7".into(),
        delta: Some("!".into()),
        content: Some(MessageContent::Text("x".into())),
        ..Default::default()
    });
    let log = tr.take_log();
    assert_eq!(log[0].level, LogLevel::Error);
    assert_eq!(
        log[0].text,
        "[Transcript] protocol violation: node n7 carries both delta and content in one frame; frame dropped"
    );
}
