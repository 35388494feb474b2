use symbio_session::entry::{
    is_ping, resolve_agent_id, resolve_session_params, resolve_workdir, send_gate,
    title_from_new_path, validate_send, PluginError, RunState, SendGate, SessionConfig,
    SessionSnapshot, SessionStateChange, MESSAGE_XOR_RESUME, NEED_MESSAGE_OR_RESUME, NO_WORKDIR,
};
use symbio_session::entry::{auto_title, turn_ending, TurnOutcome, ABORTED_TURN_TEXT, PANIC_TEXT};
use symbio_session::message::MessageStatus;
use symbio_session::json::{Json, JsonMap, JsonNumber};
use symbio_session::message::{ChatMessage, MessageContent, MessageRole};
use symbio_session::nodes::{OUTCOME_ABORTED, OUTCOME_COMPLETED, OUTCOME_FAILED};
use symbio_session::types::Session;

fn obj(entries: Vec<(&str, Json)>) -> Json {
    let mut m = JsonMap::Nil;
    for (k, v) in entries {
        m.insert(k.to_string(), v);
    }
    Json::Obj(m)
}

fn s(text: &str) -> Json {
    Json::Str(text.to_string())
}

fn snapshot_with(meta: Json) -> SessionSnapshot {
    let mut sess = Session::new("s1".to_string());
    sess.metadata = meta;
    SessionSnapshot { provider_id: None, session: Ok(sess) }
}

fn snapshot_failed() -> SessionSnapshot {
    SessionSnapshot {
        provider_id: None,
        session: Err(PluginError::NotFound("存储不可读".into())),
    }
}

fn session_with(meta: Json) -> Session {
    let mut sess = Session::new("s1".to_string());
    sess.metadata = meta;
    sess
}

#[test]
fn meta_str_reads_a_present_field() {
    let snap = snapshot_with(obj(vec![("workdir", s("D:/ws")), ("agent_id", s("a1"))]));
    assert_eq!(snap.meta_str("workdir").as_deref(), Some("D:/ws"));
    assert_eq!(snap.meta_str("agent_id").as_deref(), Some("a1"));
}

#[test]
fn meta_str_gives_none_for_missing_and_non_string() {
    let snap = snapshot_with(obj(vec![
        ("workdir", Json::Num(JsonNumber::PosInt(42))),
        ("mode", Json::Null),
    ]));
    assert_eq!(snap.meta_str("workdir"), None);
    assert_eq!(snap.meta_str("mode"), None);
    assert_eq!(snap.meta_str("never_set"), None);
}

#[test]
fn a_failed_read_makes_every_fallback_unavailable() {
    let snap = snapshot_failed();
    assert_eq!(snap.meta_str("workdir"), None);
    assert_eq!(snap.meta_str("agent_id"), None);
    assert!(!snap.has_title());
}

#[test]
fn has_title_matches_the_ensure_auto_title_criterion() {
    assert!(snapshot_with(obj(vec![("title", s("我的会话"))])).has_title());
    assert!(!snapshot_with(obj(vec![("title", s(""))])).has_title());
    assert!(!snapshot_with(obj(vec![("title", s("   "))])).has_title());
    assert!(!snapshot_with(obj(vec![])).has_title());
    assert!(!snapshot_with(obj(vec![("title", Json::Num(JsonNumber::PosInt(42)))])).has_title());
}

fn check_zero_maps_to_unlimited() {
    let cfg = SessionConfig { max_tool_rounds: 15 };
    assert_eq!(cfg.model_chat_max_tool_rounds(), Some(15));
    let cfg = SessionConfig { max_tool_rounds: 0 };
    assert_eq!(cfg.model_chat_max_tool_rounds(), None);
}

fn check_default_is_unlimited() {
    let cfg = SessionConfig::default();
    assert_eq!(cfg.max_tool_rounds, 0);
    assert_eq!(cfg.model_chat_max_tool_rounds(), None);
}

#[test]
fn plugin_test_max_tool_rounds_zero_maps_to_unlimited() {
    check_zero_maps_to_unlimited();
}

#[test]
fn tests_max_tool_rounds_zero_maps_to_unlimited() {
    check_zero_maps_to_unlimited();
}

#[test]
fn plugin_test_default_max_tool_rounds_is_effectively_unlimited() {
    check_default_is_unlimited();
}

#[test]
fn tests_default_max_tool_rounds_is_effectively_unlimited() {
    check_default_is_unlimited();
}

#[test]
fn title_from_new_path_strips_session_ext() {
    assert_eq!(title_from_new_path("我的会话.session"), "我的会话");
    assert_eq!(title_from_new_path("dir/我的会话.session"), "我的会话");
    assert_eq!(title_from_new_path("未命名"), "未命名");
    assert_eq!(title_from_new_path(".session"), "新对话");
    assert_eq!(title_from_new_path(""), "新对话");
}

#[test]
fn send_needs_exactly_one_of_message_and_resume() {
    assert!(validate_send(true, false).is_ok());
    assert!(validate_send(false, true).is_ok());
    match validate_send(false, false) {
        Err(PluginError::ValidationError(m)) => assert_eq!(m, NEED_MESSAGE_OR_RESUME),
        other => panic!("unexpected {:?}", other),
    }
    match validate_send(true, true) {
        Err(PluginError::ValidationError(m)) => assert_eq!(m, MESSAGE_XOR_RESUME),
        other => panic!("unexpected {:?}", other),
    }
}

#[test]
fn resume_while_working_is_busy() {
    assert!(matches!(send_gate(true, true), SendGate::Busy));
    assert!(matches!(send_gate(true, false), SendGate::Accept));
    assert!(matches!(send_gate(false, true), SendGate::Accept));
    assert!(matches!(send_gate(false, false), SendGate::Accept));
}

#[test]
fn session_params_fall_back_from_request_to_metadata_to_default() {
    let sess = Some(session_with(obj(vec![
        ("mode", s("plan")),
        ("provider_id", s("")),
    ])));
    let (mode, risk, provider) =
        resolve_session_params(&Some("".to_string()), &None, &Some("".to_string()), &sess);
    assert_eq!(mode, "plan");
    assert_eq!(risk, "medium");
    assert_eq!(provider, None);

    let (mode, risk, provider) = resolve_session_params(
        &Some("manual".to_string()),
        &Some("high".to_string()),
        &Some("p1".to_string()),
        &sess,
    );
    assert_eq!(mode, "manual");
    assert_eq!(risk, "high");
    assert_eq!(provider.as_deref(), Some("p1"));

    let (mode, risk, provider) = resolve_session_params(&None, &None, &None, &None);
    assert_eq!(mode, "auto");
    assert_eq!(risk, "medium");
    assert_eq!(provider, None);
}

#[test]
fn workdir_comes_from_context_then_session() {
    let sess: Result<Session, PluginError> = Ok(session_with(obj(vec![("workdir", s("/ws"))])));
    assert_eq!(resolve_workdir(&Some("/ctx".to_string()), &sess), Ok("/ctx".to_string()));
    assert_eq!(resolve_workdir(&Some("".to_string()), &sess), Ok("/ws".to_string()));
    assert_eq!(resolve_workdir(&None, &sess), Ok("/ws".to_string()));

    let bare: Result<Session, PluginError> = Ok(session_with(obj(vec![("workdir", s(""))])));
    assert_eq!(resolve_workdir(&None, &bare), Err(NO_WORKDIR.to_string()));

    let failed: Result<Session, PluginError> = Err(PluginError::NotFound("gone".into()));
    assert_eq!(resolve_workdir(&None, &failed), Err("读取会话元数据失败: gone".to_string()));
    assert_eq!(resolve_workdir(&Some("/ctx".to_string()), &failed), Ok("/ctx".to_string()));
}

#[test]
fn agent_comes_from_request_then_trimmed_metadata() {
    let sess = Some(session_with(obj(vec![("agent_id", s("  a9  "))])));
    assert_eq!(resolve_agent_id(&Some("a1".to_string()), &sess).as_deref(), Some("a1"));
    assert_eq!(resolve_agent_id(&Some("   ".to_string()), &sess).as_deref(), Some("a9"));
    assert_eq!(resolve_agent_id(&None, &sess).as_deref(), Some("a9"));
    let blank = Some(session_with(obj(vec![("agent_id", s("  "))])));
    assert_eq!(resolve_agent_id(&None, &blank), None);
    assert_eq!(resolve_agent_id(&None, &None), None);
}

#[test]
fn ping_is_exactly_the_text_ping() {
    let ping = ChatMessage {
        id: "p".into(),
        role: Some(MessageRole::User),
        content: Some(MessageContent::Text("ping".into())),
        ..Default::default()
    };
    let pong = ChatMessage {
        id: "p".into(),
        role: Some(MessageRole::User),
        content: Some(MessageContent::Text("ping ".into())),
        ..Default::default()
    };
    assert!(is_ping(&Some(ping)));
    assert!(!is_ping(&Some(pong)));
    assert!(!is_ping(&None));
    assert!(!is_ping(&Some(ChatMessage::with_id("x".into()))));
}

#[test]
fn run_state_start_voids_outcome_and_end_records_it() {
    let mut st = RunState::new();
    st.apply(SessionStateChange::Warning(Some("slow".into())));
    assert_eq!(st.last_warning.as_deref(), Some("slow"));
    assert!(!st.is_working);

    st.apply(SessionStateChange::Working);
    assert!(st.is_working);
    assert_eq!(st.last_warning, None);
    let rt = st.runtime();
    assert!(rt.working);

    st.apply(SessionStateChange::failed("boom".into()));
    assert!(!st.is_working);
    assert_eq!(st.last_outcome.as_deref(), Some(OUTCOME_FAILED));
    assert_eq!(st.last_error.as_deref(), Some("boom"));
    let rt = st.runtime();
    assert!(!rt.working);
    assert_eq!(rt.outcome.as_deref(), Some(OUTCOME_FAILED));
    assert_eq!(rt.error.as_deref(), Some("boom"));

    st.apply(SessionStateChange::Working);
    st.apply(SessionStateChange::completed());
    assert_eq!(st.last_outcome.as_deref(), Some(OUTCOME_COMPLETED));
    st.apply(SessionStateChange::Working);
    st.apply(SessionStateChange::aborted());
    assert_eq!(st.last_outcome.as_deref(), Some(OUTCOME_ABORTED));
    let rt = st.runtime();
    assert_eq!(rt.error, None);
}

fn exit_word(c: &Option<SessionStateChange>) -> Option<&'static str> {
    match c {
        Some(SessionStateChange::Finished { outcome, error: None }) => Some(*outcome),
        _ => None,
    }
}

#[test]
fn a_normal_or_superseded_turn_closes_as_completed() {
    for o in [TurnOutcome::Finished, TurnOutcome::Superseded] {
        let e = turn_ending(o);
        assert!(e.settle.is_none() && e.error.is_none());
        assert_eq!(exit_word(&e.exit), Some(OUTCOME_COMPLETED));
    }
}

#[test]
fn an_aborted_turn_is_not_a_failure() {
    let e = turn_ending(TurnOutcome::Aborted);
    let (t, s) = e.settle.clone().unwrap();
    assert_eq!(t, ABORTED_TURN_TEXT);
    assert_eq!(s, MessageStatus::Aborted);
    assert!(e.error.is_none());
    assert_eq!(exit_word(&e.exit), Some(OUTCOME_ABORTED));
}

#[test]
fn failures_settle_as_failed_and_reach_the_user() {
    let cases = [
        (TurnOutcome::Failed("上游 502".into()), "上游 502".to_string()),
        (TurnOutcome::Panicked("boom at x.rs:1".into()), PANIC_TEXT.to_string()),
        (TurnOutcome::Cancelled("task 7".into()), "Chat loop task failed: task 7".to_string()),
        (
            TurnOutcome::Watchdog,
            "消费循环超时：1800 秒内 Turn 任务未结束，疑似 LLM/工具链路挂死，已强制收尾（在途 Turn 标记为失败）"
                .to_string(),
        ),
    ];
    for (o, text) in cases {
        let e = turn_ending(o);
        match &e.exit {
            Some(SessionStateChange::Finished { outcome, error }) => {
                assert_eq!(*outcome, OUTCOME_FAILED);
                assert_eq!(error.as_deref(), Some(text.as_str()));
            }
            _ => panic!("a failed turn ends idle with outcome failed"),
        }
        assert_eq!(e.settle, Some((text.clone(), MessageStatus::Failed)));
        assert_eq!(e.error, Some(text));
    }
}

#[test]
fn the_first_message_names_an_untitled_session_only() {
    let mut s = session_with(obj(vec![]));
    s.messages.push(ChatMessage {
        id: "u".into(),
        role: Some(MessageRole::User),
        content: Some(MessageContent::Text("帮我看看\n细节".into())),
        ..Default::default()
    });
    assert_eq!(auto_title(&s).as_deref(), Some("帮我看看"));
    s.metadata = obj(vec![("title", Json::Str("已有".into()))]);
    assert_eq!(auto_title(&s), None);
    s.metadata = obj(vec![("title", Json::Str("  ".into()))]);
    assert_eq!(auto_title(&s).as_deref(), Some("帮我看看"));
}

#[test]
fn max_tool_rounds_zero_maps_to_unlimited() {
    check_zero_maps_to_unlimited();
}

#[test]
fn default_max_tool_rounds_is_effectively_unlimited() {
    check_default_is_unlimited();
}
