//! How the nodes of the session tree answer each kind of request: which
//! requests are carried out and which are refused, with what. The mount
//! root lists and creates sessions; a session is read, written, deleted
//! and aborted; its memory is a text file that is never deleted; the
//! sub-session list is read-only; a sub-session is a leaf; the working
//! directory serves files below its root; the configuration file is a
//! document.
use vstd::prelude::*;
use crate::nodes::MEMORY_FILE;
use crate::text::{chars_of, push_str_chars, string_of};
use crate::transcript_ops::{NodeRequest, unreadable_text};
use crate::upsert::ROOT_NEEDS_CREATE_TEXT;

verus! {

/// What a node does with a request.
#[derive(Debug)]
pub enum Route {
    /// Carry out the operation the request names (after checking that
    /// what the path names exists).
    Serve,
    /// Abort the session's running turn.
    Abort,
    Watch,
    Unwatch,
    /// Refused as invalid, with the reason.
    Invalid(String),
    /// Refused as forbidden, with the reason.
    Forbidden(String),
    /// Refused as not found, with the reason.
    NotFound(String),
    /// Not supported.
    NotImplemented,
}

/// The action word that aborts a running turn.
pub const ACTION_ABORT: &'static str = "abort";

/// The configuration document at the mount root.
pub const PLUGIN_FILE: &'static str = "PLUGIN.yml";

pub const ROOT_NO_DELETE_TEXT: &'static str = "会话挂载根不可删除";
pub const MEMORY_NO_BINARY_TEXT: &'static str = "会话记忆是文本文件，不接受二进制内容";
pub const CONFIG_NO_DELETE_TEXT: &'static str = "配置文件不可删除";
pub const ABORTED_TEXT: &'static str = "已中止当前轮次";

/// `<prefix><path>`.
fn text_with(prefix: &str, path: &str) -> (r: String)
    ensures
        r@ == prefix@ + path@,
{
    let mut v = chars_of(prefix);
    push_str_chars(&mut v, path);
    string_of(v.as_slice())
}

fn text_of(s: &str) -> (r: String)
    ensures
        r@ == s@,
{
    string_of(chars_of(s).as_slice())
}

/// `该路径不可写入：<path>`.
pub open spec fn unwritable_text(path: Seq<char>) -> Seq<char> {
    "该路径不可写入："@ + path
}

/// `该路径不可删除：<path>`.
pub open spec fn undeletable_text(path: Seq<char>) -> Seq<char> {
    "该路径不可删除："@ + path
}

/// The refusal of deleting the memory file.
pub open spec fn memory_no_delete_text() -> Seq<char> {
    "会话记忆不可删除（删除即丢失本会话的长期约定）。如需清空，请向 `"@ + MEMORY_FILE@ + "` 写入空内容。"@
}

/// Watching and unwatching are accepted everywhere in the tree.
pub open spec fn watch_route(req: NodeRequest, r: Route) -> bool {
    &&& req is Watch ==> r is Watch
    &&& req is Unwatch ==> r is Unwatch
}

/// The mount root: lists sessions, describes itself, creates a session on
/// a write with the `create` intent; it has no content and cannot be
/// deleted.
pub fn root_route(req: &NodeRequest, path: &str) -> (r: Route)
    ensures
        watch_route(*req, r),
        match *req {
            NodeRequest::List | NodeRequest::Stat => r is Serve,
            NodeRequest::Read => r matches Route::Invalid(t) && t@ == unreadable_text(path@),
            NodeRequest::Write { create, binary: _ } => if create {
                r is Serve
            } else {
                r matches Route::Invalid(t) && t@ == ROOT_NEEDS_CREATE_TEXT@
            },
            NodeRequest::Delete => r matches Route::Forbidden(t) && t@ == ROOT_NO_DELETE_TEXT@,
            NodeRequest::Action(_) | NodeRequest::Other => r is NotImplemented,
            _ => true,
        },
{
    match req {
        NodeRequest::List | NodeRequest::Stat => Route::Serve,
        NodeRequest::Read => Route::Invalid(text_with("该路径不可读取内容：", path)),
        NodeRequest::Write { create, binary: _ } => if *create {
            Route::Serve
        } else {
            Route::Invalid(text_of(ROOT_NEEDS_CREATE_TEXT))
        },
        NodeRequest::Delete => Route::Forbidden(text_of(ROOT_NO_DELETE_TEXT)),
        NodeRequest::Watch => Route::Watch,
        NodeRequest::Unwatch => Route::Unwatch,
        NodeRequest::Action(_) | NodeRequest::Other => Route::NotImplemented,
    }
}

/// A session: listed as its inner view, described, read, written (the
/// upsert), deleted; its one action is `abort`.
pub fn session_route(req: &NodeRequest) -> (r: Route)
    ensures
        watch_route(*req, r),
        match *req {
            NodeRequest::List | NodeRequest::Stat | NodeRequest::Read | NodeRequest::Write { .. }
            | NodeRequest::Delete => r is Serve,
            NodeRequest::Action(a) => if a@ == ACTION_ABORT@ {
                r is Abort
            } else {
                r is NotImplemented
            },
            NodeRequest::Other => r is NotImplemented,
            _ => true,
        },
{
    match req {
        NodeRequest::List | NodeRequest::Stat | NodeRequest::Read | NodeRequest::Write { .. }
        | NodeRequest::Delete => Route::Serve,
        NodeRequest::Action(a) => if crate::json::str_eq(a.as_str(), ACTION_ABORT) {
            Route::Abort
        } else {
            Route::NotImplemented
        },
        NodeRequest::Watch => Route::Watch,
        NodeRequest::Unwatch => Route::Unwatch,
        NodeRequest::Other => Route::NotImplemented,
    }
}

/// The answer of an `abort`: whether a turn was stopped, and its message
/// (not running is not an error, but it is no success either).
pub fn abort_answer(stopped: bool, path: &str) -> (r: (bool, String))
    ensures
        r.0 == stopped,
        stopped ==> r.1@ == ABORTED_TEXT@,
        !stopped ==> r.1@ == "该会话没有正在进行的轮次，无需中止："@ + path@,
{
    if stopped {
        (true, text_of(ABORTED_TEXT))
    } else {
        (false, text_with("该会话没有正在进行的轮次，无需中止：", path))
    }
}

/// The memory file: no children; described, read and written as text;
/// never deleted (write it empty to clear it).
pub fn memory_route(req: &NodeRequest, path: &str) -> (r: Route)
    ensures
        watch_route(*req, r),
        match *req {
            NodeRequest::List => r matches Route::NotFound(t) && t@ == "记忆是文件，没有子项："@ + path@,
            NodeRequest::Stat | NodeRequest::Read => r is Serve,
            NodeRequest::Write { create: _, binary } => if binary {
                r matches Route::Invalid(t) && t@ == MEMORY_NO_BINARY_TEXT@
            } else {
                r is Serve
            },
            NodeRequest::Delete => r matches Route::Forbidden(t) && t@ == memory_no_delete_text(),
            NodeRequest::Action(_) | NodeRequest::Other => r is NotImplemented,
            _ => true,
        },
{
    match req {
        NodeRequest::List => Route::NotFound(text_with("记忆是文件，没有子项：", path)),
        NodeRequest::Stat | NodeRequest::Read => Route::Serve,
        NodeRequest::Write { create: _, binary } => if *binary {
            Route::Invalid(text_of(MEMORY_NO_BINARY_TEXT))
        } else {
            Route::Serve
        },
        NodeRequest::Delete => {
            let mut v = chars_of("会话记忆不可删除（删除即丢失本会话的长期约定）。如需清空，请向 `");
            push_str_chars(&mut v, MEMORY_FILE);
            push_str_chars(&mut v, "` 写入空内容。");
            assert(v@ =~= memory_no_delete_text());
            Route::Forbidden(string_of(v.as_slice()))
        },
        NodeRequest::Watch => Route::Watch,
        NodeRequest::Unwatch => Route::Unwatch,
        NodeRequest::Action(_) | NodeRequest::Other => Route::NotImplemented,
    }
}

/// The sub-session list: listed and described; nothing else.
pub fn sub_sessions_route(req: &NodeRequest, path: &str) -> (r: Route)
    ensures
        watch_route(*req, r),
        match *req {
            NodeRequest::List | NodeRequest::Stat => r is Serve,
            NodeRequest::Read => r matches Route::Invalid(t) && t@ == unreadable_text(path@),
            NodeRequest::Write { .. } => r matches Route::Invalid(t) && t@ == unwritable_text(path@),
            NodeRequest::Delete => r matches Route::Forbidden(t) && t@ == undeletable_text(path@),
            NodeRequest::Action(_) | NodeRequest::Other => r is NotImplemented,
            _ => true,
        },
{
    match req {
        NodeRequest::List | NodeRequest::Stat => Route::Serve,
        NodeRequest::Read => Route::Invalid(text_with("该路径不可读取内容：", path)),
        NodeRequest::Write { .. } => Route::Invalid(text_with("该路径不可写入：", path)),
        NodeRequest::Delete => Route::Forbidden(text_with("该路径不可删除：", path)),
        NodeRequest::Watch => Route::Watch,
        NodeRequest::Unwatch => Route::Unwatch,
        NodeRequest::Action(_) | NodeRequest::Other => Route::NotImplemented,
    }
}

/// A sub-session: a leaf that is described, read and deleted; not written
/// here.
pub fn sub_session_route(req: &NodeRequest, path: &str) -> (r: Route)
    ensures
        watch_route(*req, r),
        match *req {
            NodeRequest::List => r matches Route::NotFound(t) && t@ == "子会话是叶子节点，没有子项："@
                + path@,
            NodeRequest::Stat | NodeRequest::Read | NodeRequest::Delete => r is Serve,
            NodeRequest::Write { .. } => r matches Route::Invalid(t) && t@ == unwritable_text(path@),
            NodeRequest::Action(_) | NodeRequest::Other => r is NotImplemented,
            _ => true,
        },
{
    match req {
        NodeRequest::List => Route::NotFound(text_with("子会话是叶子节点，没有子项：", path)),
        NodeRequest::Stat | NodeRequest::Read | NodeRequest::Delete => Route::Serve,
        NodeRequest::Write { .. } => Route::Invalid(text_with("该路径不可写入：", path)),
        NodeRequest::Watch => Route::Watch,
        NodeRequest::Unwatch => Route::Unwatch,
        NodeRequest::Action(_) | NodeRequest::Other => Route::NotImplemented,
    }
}

/// The working directory: its root is listed and described only; a path
/// below it is also read, written and deleted.
pub fn workdir_route(req: &NodeRequest, path: &str, at_root: bool) -> (r: Route)
    ensures
        watch_route(*req, r),
        match *req {
            NodeRequest::List | NodeRequest::Stat => r is Serve,
            NodeRequest::Read => if at_root {
                r matches Route::Invalid(t) && t@ == unreadable_text(path@)
            } else {
                r is Serve
            },
            NodeRequest::Write { .. } => if at_root {
                r matches Route::Invalid(t) && t@ == unwritable_text(path@)
            } else {
                r is Serve
            },
            NodeRequest::Delete => if at_root {
                r matches Route::Forbidden(t) && t@ == undeletable_text(path@)
            } else {
                r is Serve
            },
            NodeRequest::Action(_) | NodeRequest::Other => r is NotImplemented,
            _ => true,
        },
{
    match req {
        NodeRequest::List | NodeRequest::Stat => Route::Serve,
        NodeRequest::Read => if at_root {
            Route::Invalid(text_with("该路径不可读取内容：", path))
        } else {
            Route::Serve
        },
        NodeRequest::Write { .. } => if at_root {
            Route::Invalid(text_with("该路径不可写入：", path))
        } else {
            Route::Serve
        },
        NodeRequest::Delete => if at_root {
            Route::Forbidden(text_with("该路径不可删除：", path))
        } else {
            Route::Serve
        },
        NodeRequest::Watch => Route::Watch,
        NodeRequest::Unwatch => Route::Unwatch,
        NodeRequest::Action(_) | NodeRequest::Other => Route::NotImplemented,
    }
}

/// The configuration document: described, read and written; no children,
/// never deleted, and no other operation.
pub fn config_route(req: &NodeRequest, path: &str) -> (r: Route)
    ensures
        match *req {
            NodeRequest::Stat | NodeRequest::Read | NodeRequest::Write { .. } => r is Serve,
            NodeRequest::List => r matches Route::NotFound(t) && t@ == "配置文件是文档，没有子项："@
                + path@,
            NodeRequest::Delete => r matches Route::Forbidden(t) && t@ == CONFIG_NO_DELETE_TEXT@,
            _ => r matches Route::Invalid(t) && t@ == "该路径不可操作："@ + path@,
        },
{
    match req {
        NodeRequest::Stat | NodeRequest::Read | NodeRequest::Write { .. } => Route::Serve,
        NodeRequest::List => Route::NotFound(text_with("配置文件是文档，没有子项：", path)),
        NodeRequest::Delete => Route::Forbidden(text_of(CONFIG_NO_DELETE_TEXT)),
        _ => Route::Invalid(text_with("该路径不可操作：", path)),
    }
}

} // verus!
