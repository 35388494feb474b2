use symbio_session::entry::PluginError;
use symbio_session::failure::{plan_converge_inflight, plan_persist_failure, subtree_of};
use symbio_session::json::{Json, JsonMap, JsonNumber};
use symbio_session::message::{ChatMessage, MessageContent, MessageRole, MessageStatus, MessageType};
use symbio_session::rate_limit::{throttle, Throttle};
use symbio_session::store::{
    list_sessions_window, migration_step, sort_summaries_desc, stored_messages, FileSessionStore,
    InMemorySessionStore, is_ephemeral_id,
    MigrationStep, SessionMetaFile,
};
use symbio_session::tool_exec::finalize_aborted_parent;
use symbio_session::transcript_ops::{
    messages_route, patch_messages, removed_frame, truncate_from, truncate_message, NodeRequest,
    MessagesRoute,
};
use symbio_session::types::{Session, SessionSummary};

fn summary(id: &str, updated_at: i64) -> SessionSummary {
    SessionSummary {
        id: id.into(),
        title: id.into(),
        created_at: 0,
        updated_at,
        metadata: Json::Obj(JsonMap::Nil),
        message_count: 0,
        summary: None,
        meta_tags: Vec::new(),
    }
}

fn ids(v: &[SessionSummary]) -> Vec<String> {
    v.iter().map(|s| s.id.clone()).collect()
}

fn msg(id: &str) -> ChatMessage {
    ChatMessage { id: id.into(), ..Default::default() }
}

fn text_msg(id: &str, text: &str) -> ChatMessage {
    ChatMessage {
        id: id.into(),
        content: Some(MessageContent::Text(text.into())),
        ..Default::default()
    }
}

#[test]
fn session_list_pages_newest_first_before_cursor() {
    let all = || vec![summary("c", 1000), summary("a", 3000), summary("b", 2000)];
    assert_eq!(ids(&list_sessions_window(all(), Some(2), None)), vec!["a", "b"]);
    assert_eq!(ids(&list_sessions_window(all(), Some(2), Some("b"))), vec!["c"]);
    assert_eq!(ids(&list_sessions_window(all(), None, None)), vec!["a", "b", "c"]);
    assert!(list_sessions_window(all(), Some(2), Some("c")).is_empty());
    assert!(list_sessions_window(all(), Some(2), Some("nope")).is_empty());
}

#[test]
fn sorting_keeps_equal_times_in_listing_order() {
    let v = vec![summary("x", 5), summary("y", 9), summary("z", 5)];
    assert_eq!(ids(&sort_summaries_desc(v)), vec!["y", "x", "z"]);
}

#[test]
fn sessions_live_in_flat_dirs_and_sub_sessions_under_their_parent() {
    assert_eq!(FileSessionStore::dir_for("/root", "v2_sess_aaa"), "/root/v2_sess_aaa");
    assert_eq!(
        FileSessionStore::file_for("/root", "v2_sess_aaa"),
        "/root/v2_sess_aaa/session.json"
    );
    assert_eq!(
        FileSessionStore::sub_dir_for("/root", "v2_sess_parent", "v2_sess_child"),
        "/root/v2_sess_parent/sessions/v2_sess_child"
    );
    let mut child = Session::new("v2_sess_child".into());
    let mut m = JsonMap::Nil;
    m.insert("parent_session_id".into(), Json::Str("v2_sess_parent".into()));
    child.metadata = Json::Obj(m);
    assert_eq!(
        FileSessionStore::save_dir_for("/root", &child),
        "/root/v2_sess_parent/sessions/v2_sess_child"
    );
    let top = Session::new("v2_sess_aaa".into());
    assert_eq!(FileSessionStore::save_dir_for("/root", &top), "/root/v2_sess_aaa");
    let store = FileSessionStore::new("/root".into());
    assert_eq!(store.base_dir, "/root");
}

#[test]
fn hostile_ids_stay_inside_the_storage_root() {
    assert_eq!(FileSessionStore::dir_for("/root", "../x"), "/root/.._x");
    assert_eq!(FileSessionStore::dir_for("/root", ".."), "/root/__");
    assert_eq!(FileSessionStore::dir_for("/root", "a/b"), "/root/a_b");
}

#[test]
fn a_legacy_file_is_projected_from_its_messages() {
    let legacy = SessionMetaFile {
        id: "old".into(),
        title: String::new(),
        created_at: 1,
        updated_at: 2,
        metadata: Json::Obj(JsonMap::Nil),
        message_count: 0,
        summary: None,
        meta_tags: Vec::new(),
        messages: Some(vec![ChatMessage {
            id: "u".into(),
            role: Some(MessageRole::User),
            content: Some(MessageContent::Text("你好世界".into())),
            ..Default::default()
        }]),
    };
    let s = legacy.into_summary();
    assert_eq!(s.title, "你好世界");
    assert_eq!(s.message_count, 1);

    let round = SessionMetaFile::of(&summary("n", 7)).into_summary();
    assert_eq!(round.id, "n");
    assert_eq!(round.updated_at, 7);
}

#[test]
fn zero_interval_is_not_paced() {
    assert_eq!(throttle(None, 0), Throttle::Skip);
    assert_eq!(throttle(Some(0), 0), Throttle::Skip);
}

#[test]
fn first_request_passes_then_the_next_waits_the_rest() {
    assert_eq!(throttle(None, 50), Throttle::Pass);
    assert_eq!(throttle(Some(10_000_000), 50), Throttle::Sleep(35_000_000));
    assert_eq!(throttle(Some(46_000_000), 50), Throttle::Retry);
    assert_eq!(throttle(Some(50_000_000), 50), Throttle::Pass);
}

#[test]
fn truncate_removes_the_target_and_everything_after() {
    let ms = vec![msg("m1"), msg("m2"), msg("m3")];
    let (kept, deleted) = truncate_from(ms, "m2");
    assert_eq!(kept.iter().map(|m| m.id.as_str()).collect::<Vec<_>>(), vec!["m1"]);
    assert_eq!(deleted, vec!["m2".to_string(), "m3".to_string()]);
    assert_eq!(truncate_message("m2", 2), "已从 m2 起截断 2 条消息");
}

#[test]
fn truncate_of_a_missing_target_changes_nothing() {
    let ms = vec![msg("m1"), msg("m2")];
    let (kept, deleted) = truncate_from(ms, "zz");
    assert_eq!(kept.len(), 2);
    assert!(deleted.is_empty());
    assert_eq!(truncate_message("zz", 0), "目标消息不存在，未做任何修改：zz");
    let r = removed_frame("m9");
    assert_eq!(r.id, "m9");
    assert_eq!(r.status, Some(MessageStatus::Removed));
}

#[test]
fn a_patch_must_name_the_message_it_lands_on() {
    let ms = vec![text_msg("m1", "a"), text_msg("m2", "b")];
    let patch = text_msg("m2", "B");
    match patch_messages(ms, "m2", &patch) {
        Ok((all, updated)) => {
            assert_eq!(updated.id, "m2");
            assert_eq!(updated.content.as_ref().unwrap().to_text(), "B");
            assert_eq!(all[1].content.as_ref().unwrap().to_text(), "B");
            assert_eq!(all[0].content.as_ref().unwrap().to_text(), "a");
        }
        Err(e) => panic!("{e:?}"),
    }
    let ms = vec![text_msg("m1", "a")];
    assert!(matches!(patch_messages(ms, "m1", &text_msg("m2", "x")), Err(PluginError::ValidationError(_))));
    let ms = vec![text_msg("m1", "a")];
    match patch_messages(ms, "m7", &text_msg("m7", "x")) {
        Err(PluginError::NotFound(t)) => assert_eq!(t, "消息不存在: m7"),
        other => panic!("{other:?}"),
    }
}

#[test]
fn the_transcript_collection_refuses_deletes_and_creates() {
    assert!(matches!(messages_route(&NodeRequest::List, false, "s/message"), MessagesRoute::ListPage));
    assert!(matches!(
        messages_route(&NodeRequest::List, true, "s/message/m1"),
        MessagesRoute::NotFound(_)
    ));
    assert!(matches!(
        messages_route(&NodeRequest::Action("truncate".into()), true, "s/message/m1"),
        MessagesRoute::Truncate
    ));
    assert!(matches!(
        messages_route(&NodeRequest::Action("clear".into()), false, "s/message"),
        MessagesRoute::Clear
    ));
    assert!(matches!(
        messages_route(&NodeRequest::Write { create: false, binary: false }, true, "s/message/m1"),
        MessagesRoute::PatchMessage
    ));
    assert!(!matches!(
        messages_route(&NodeRequest::Write { create: true, binary: false }, true, "s/message/m1"),
        MessagesRoute::PatchMessage
    ));
    assert!(!matches!(
        messages_route(&NodeRequest::Delete, true, "s/message/m1"),
        MessagesRoute::PatchMessage | MessagesRoute::Truncate | MessagesRoute::Clear
    ));
}

fn turn(id: &str, status: Option<MessageStatus>) -> ChatMessage {
    ChatMessage {
        id: id.into(),
        msg_type: Some(MessageType::Turn),
        status,
        ..Default::default()
    }
}

fn under(id: &str, parent: &str, status: Option<MessageStatus>) -> ChatMessage {
    ChatMessage { id: id.into(), parent_id: Some(parent.into()), status, ..Default::default() }
}

#[test]
fn subtree_collects_a_node_and_its_descendants() {
    let ms = vec![turn("t1", None), under("a", "t1", None), under("b", "a", None), turn("t2", None)];
    let mut s = subtree_of(&ms, "t1");
    s.sort();
    s.dedup();
    assert_eq!(s, vec!["a".to_string(), "b".to_string(), "t1".to_string()]);
}

#[test]
fn a_failed_turn_settles_its_inflight_nodes() {
    let live = vec![
        turn("t1", Some(MessageStatus::Streaming)),
        under("r1", "t1", Some(MessageStatus::Streaming)),
        under("r2", "t1", Some(MessageStatus::Completed)),
    ];
    let stored = vec![turn("t1", Some(MessageStatus::Streaming))];
    let plan = plan_persist_failure(&live, stored, "boom", MessageStatus::Failed).expect("a turn");
    let t1 = plan.all.iter().find(|m| m.id == "t1").unwrap();
    assert_eq!(t1.status, Some(MessageStatus::Failed));
    assert_eq!(t1.error.as_deref(), Some("boom"));
    let r1 = plan.all.iter().find(|m| m.id == "r1").unwrap();
    assert_eq!(r1.status, Some(MessageStatus::Completed));
    let r2 = plan.all.iter().find(|m| m.id == "r2").unwrap();
    assert_eq!(r2.status, Some(MessageStatus::Completed));
    assert!(plan.changed.iter().all(|m| m.status.is_some()));

    let none = plan_persist_failure(&vec![msg("x")], Vec::new(), "e", MessageStatus::Failed);
    assert!(none.is_none());
}

#[test]
fn an_aborted_turn_ends_aborted_and_its_nodes_completed() {
    let live = vec![turn("t1", Some(MessageStatus::Streaming)), under("r1", "t1", None)];
    let plan = plan_converge_inflight(&live, Vec::new());
    let t1 = plan.all.iter().find(|m| m.id == "t1").unwrap();
    assert_eq!(t1.status, Some(MessageStatus::Aborted));
    let r1 = plan.all.iter().find(|m| m.id == "r1").unwrap();
    assert_eq!(r1.status, Some(MessageStatus::Completed));
    assert_eq!(plan.changed.len(), 2);
}

#[test]
fn aborted_resume_finalizes_parent_tool_call() {
    let mut meta = JsonMap::Nil;
    meta.insert("started_at".into(), Json::Num(JsonNumber::PosInt(1_700_000_000_000)));
    let mut messages = vec![
        ChatMessage {
            id: "tc1".into(),
            role: Some(MessageRole::Assistant),
            msg_type: Some(MessageType::ToolCall),
            status: Some(MessageStatus::Streaming),
            meta: Some(Json::Obj(meta)),
            ..Default::default()
        },
        ChatMessage { id: "child".into(), parent_id: Some("tc1".into()), ..Default::default() },
    ];
    let snapshot = finalize_aborted_parent(&mut messages, 0, "tc1");
    assert_eq!(messages[0].status, Some(MessageStatus::Completed));
    assert_eq!(snapshot.id, "tc1");
    assert_eq!(snapshot.status, Some(MessageStatus::Completed));
    let meta = snapshot.meta.as_ref().unwrap();
    assert!(matches!(meta.get("failure_kind"), Some(Json::Str(s)) if s == "aborted"));
    assert!(snapshot.error.is_none());
    assert!(matches!(meta.get("success"), Some(Json::Bool(false))));
    assert!(matches!(
        meta.get("started_at"),
        Some(Json::Num(JsonNumber::PosInt(1_700_000_000_000)))
    ));
    assert_eq!(messages[1].status, None);
}

#[test]
fn stored_transcript_prefers_the_transcript_file() {
    let file = vec![msg("f1"), msg("f2")];
    let r = stored_messages(Some(file), Some(vec![msg("i1")]));
    assert_eq!(r.iter().map(|m| m.id.clone()).collect::<Vec<_>>(), vec!["f1", "f2"]);
    let r = stored_messages(None, Some(vec![msg("i1")]));
    assert_eq!(r.iter().map(|m| m.id.clone()).collect::<Vec<_>>(), vec!["i1"]);
    assert!(stored_messages(None, None).is_empty());
}

#[test]
fn migration_leaves_current_layout_alone() {
    assert_eq!(migration_step(true, false, false), MigrationStep::Keep);
    assert_eq!(migration_step(true, true, false), MigrationStep::Reproject);
    assert_eq!(migration_step(true, false, true), MigrationStep::Reproject);
    assert_eq!(migration_step(false, true, false), MigrationStep::Split);
    assert_eq!(migration_step(false, false, true), MigrationStep::Split);
}

#[test]
fn migrated_directory_is_left_alone_next_time() {
    let s = Session::new("s1".to_string());
    let projected = SessionMetaFile::of(&SessionSummary::of(&s));
    assert!(!projected.title.is_empty());
    assert!(projected.messages.is_none());
    assert_eq!(
        migration_step(true, projected.messages.is_some(), projected.title.is_empty()),
        MigrationStep::Keep
    );
}

#[test]
fn the_last_id_of_a_page_opens_the_next_one() {
    let all = || vec![summary("a", 1), summary("b", 5), summary("c", 3), summary("d", 4), summary("e", 2)];
    let first = list_sessions_window(all(), Some(2), None);
    assert_eq!(ids(&first), vec!["b", "d"]);
    let second = list_sessions_window(all(), Some(2), Some(first.last().unwrap().id.as_str()));
    assert_eq!(ids(&second), vec!["c", "e"]);
    let third = list_sessions_window(all(), Some(2), Some(second.last().unwrap().id.as_str()));
    assert_eq!(ids(&third), vec!["a"]);
}

#[test]
fn only_resume_words_resume_a_turn() {
    for w in ["retry_turn", "retry", "approve", "reject", "supply", "answer", "retry_compaction"] {
        match messages_route(&NodeRequest::Action(w.to_string()), true, "s/message/m") {
            MessagesRoute::Resume(x) => assert_eq!(x, w),
            other => panic!("{w}: {other:?}"),
        }
    }
    assert!(matches!(
        messages_route(&NodeRequest::Action("explode".to_string()), true, "s/message/m"),
        MessagesRoute::NotImplemented
    ));
    assert!(matches!(
        messages_route(&NodeRequest::Action("truncate".to_string()), true, "s/message/m"),
        MessagesRoute::Truncate
    ));
}

fn session_with(id: &str) -> Session {
    let mut s = Session::new(id.to_string());
    s.updated_at = 1000;
    s
}

#[test]
fn memory_store_roundtrip_contract() {
    let mut store = InMemorySessionStore::new();
    let fresh = store.load_session("mem_missing");
    assert_eq!(fresh.id, "mem_missing");
    assert!(store.list_sessions().is_empty());
    assert!(store.load_session_checked("mem_missing").is_none());

    let mut s = session_with("mem_a");
    s.metadata = Json::Obj(JsonMap::Entry("k".into(), Box::new(Json::Str("v".into())), Box::new(JsonMap::Nil)));
    store.save_session(&s);
    let loaded = store.load_session("mem_a");
    assert!(matches!(&loaded.metadata, Json::Obj(JsonMap::Entry(k, v, _)) if k == "k" && matches!(&**v, Json::Str(x) if x == "v")));

    s.updated_at = 2000;
    store.save_session(&s);
    assert_eq!(store.list_sessions().len(), 1);

    store.save_session(&session_with("mem_b"));
    let listed = store.list_sessions();
    assert_eq!(listed[0].id, "mem_a");
    assert_eq!(listed[1].id, "mem_b");

    store.delete_session("mem_a");
    assert!(store.load_session("mem_a").messages.is_empty());
    assert!(store.load_session_checked("mem_a").is_none());
    assert_eq!(store.list_sessions().len(), 1);
}

#[test]
fn memory_store_has_no_session_dir() {
    let mut store = InMemorySessionStore::new();
    store.save_session(&session_with("mem_dir"));
    assert!(store.session_dir("mem_dir").is_none());
}

#[test]
fn empty_and_prefixed_ids_are_temporary() {
    assert!(is_ephemeral_id(""));
    assert!(is_ephemeral_id("_t_abc"));
    assert!(is_ephemeral_id("_t_"));
    assert!(!is_ephemeral_id("_t"));
    assert!(!is_ephemeral_id("abc_t_"));
    assert!(!is_ephemeral_id("s1"));
}

#[test]
fn a_failed_turn_leaves_nodes_outside_its_subtree_alone() {
    let live = vec![
        turn("t1", Some(MessageStatus::Streaming)),
        under("r1", "t1", Some(MessageStatus::Streaming)),
        under("n1", "r1", Some(MessageStatus::Pending)),
    ];
    let stored = vec![
        turn("t0", Some(MessageStatus::Streaming)),
        turn("t1", Some(MessageStatus::Streaming)),
        under("r1", "t1", Some(MessageStatus::Streaming)),
    ];
    let plan = plan_persist_failure(&live, stored, "boom", MessageStatus::Failed).expect("a turn");
    let ids: Vec<&str> = plan.all.iter().map(|m| m.id.as_str()).collect();
    assert_eq!(ids, vec!["t0", "t1", "r1", "n1"]);
    assert_eq!(plan.all[0].status, Some(MessageStatus::Streaming));
    assert_eq!(plan.all[1].status, Some(MessageStatus::Failed));
    assert_eq!(plan.all[2].status, Some(MessageStatus::Completed));
    assert_eq!(plan.all[3].status, Some(MessageStatus::Completed));
}

#[test]
fn an_aborted_turn_keeps_the_stored_nodes_and_appends_the_missing_ones() {
    let live = vec![
        turn("t1", Some(MessageStatus::Streaming)),
        under("r1", "t1", Some(MessageStatus::Streaming)),
        under("x1", "gone", Some(MessageStatus::Streaming)),
    ];
    let stored = vec![turn("t1", Some(MessageStatus::Streaming))];
    let plan = plan_converge_inflight(&live, stored);
    let ids: Vec<&str> = plan.all.iter().map(|m| m.id.as_str()).collect();
    assert_eq!(ids, vec!["t1", "r1"]);
    assert_eq!(plan.all[0].status, Some(MessageStatus::Streaming));
    assert_eq!(plan.all[1].status, Some(MessageStatus::Completed));
    assert_eq!(plan.changed.len(), 1);
}
