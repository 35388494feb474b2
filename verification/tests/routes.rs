use symbio_session::routes::{
    abort_answer, config_route, memory_route, root_route, session_route, sub_session_route,
    sub_sessions_route, workdir_route, Route,
};
use symbio_session::transcript_ops::NodeRequest;

fn write(create: bool, binary: bool) -> NodeRequest {
    NodeRequest::Write { create, binary }
}

#[test]
fn the_mount_root_creates_only_with_the_create_intent() {
    assert!(matches!(root_route(&NodeRequest::List, ""), Route::Serve));
    assert!(matches!(root_route(&write(true, false), ""), Route::Serve));
    match root_route(&write(false, false), "") {
        Route::Invalid(t) => assert_eq!(t, "写会话挂载根需要 create 意图：目录自身没有可覆盖的目标"),
        other => panic!("{other:?}"),
    }
    assert!(matches!(root_route(&NodeRequest::Delete, ""), Route::Forbidden(_)));
    assert!(matches!(root_route(&NodeRequest::Watch, ""), Route::Watch));
}

#[test]
fn a_session_aborts_on_its_abort_action_only() {
    assert!(matches!(session_route(&NodeRequest::Action("abort".into())), Route::Abort));
    assert!(matches!(session_route(&NodeRequest::Action("clear".into())), Route::NotImplemented));
    assert!(matches!(session_route(&NodeRequest::Delete), Route::Serve));
    assert_eq!(abort_answer(true, "s1"), (true, "已中止当前轮次".to_string()));
    assert_eq!(
        abort_answer(false, "s1"),
        (false, "该会话没有正在进行的轮次，无需中止：s1".to_string())
    );
}

#[test]
fn memory_is_a_text_file_that_is_never_deleted() {
    assert!(matches!(memory_route(&write(false, false), "s/MEMORY.md"), Route::Serve));
    assert!(matches!(memory_route(&write(false, true), "s/MEMORY.md"), Route::Invalid(_)));
    match memory_route(&NodeRequest::Delete, "s/MEMORY.md") {
        Route::Forbidden(t) => assert!(t.contains("`MEMORY.md` 写入空内容"), "{t}"),
        other => panic!("{other:?}"),
    }
    match memory_route(&NodeRequest::List, "s/MEMORY.md") {
        Route::NotFound(t) => assert_eq!(t, "记忆是文件，没有子项：s/MEMORY.md"),
        other => panic!("{other:?}"),
    }
}

#[test]
fn sub_sessions_are_read_only_and_a_sub_session_is_a_leaf() {
    match sub_sessions_route(&write(true, false), "s/subsession") {
        Route::Invalid(t) => assert_eq!(t, "该路径不可写入：s/subsession"),
        other => panic!("{other:?}"),
    }
    assert!(matches!(sub_session_route(&NodeRequest::Delete, "s/subsession/c"), Route::Serve));
    assert!(matches!(sub_session_route(&NodeRequest::List, "s/subsession/c"), Route::NotFound(_)));
}

#[test]
fn the_workdir_root_is_not_a_file() {
    assert!(matches!(workdir_route(&NodeRequest::Read, "s/workdir", true), Route::Invalid(_)));
    assert!(matches!(workdir_route(&NodeRequest::Read, "s/workdir/a.rs", false), Route::Serve));
    match workdir_route(&NodeRequest::Delete, "s/workdir", true) {
        Route::Forbidden(t) => assert_eq!(t, "该路径不可删除：s/workdir"),
        other => panic!("{other:?}"),
    }
}

#[test]
fn the_configuration_is_a_document() {
    assert!(matches!(config_route(&NodeRequest::Read, "PLUGIN.yml"), Route::Serve));
    assert!(matches!(config_route(&NodeRequest::Delete, "PLUGIN.yml"), Route::Forbidden(_)));
    match config_route(&NodeRequest::Watch, "PLUGIN.yml") {
        Route::Invalid(t) => assert_eq!(t, "该路径不可操作：PLUGIN.yml"),
        other => panic!("{other:?}"),
    }
}
