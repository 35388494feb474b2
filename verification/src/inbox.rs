//! The inbox of a session: messages written to `<id>/inbox` wait there
//! until the session consumes them. A write body is either plain text or,
//! when it starts with `{`, a JSON object of message fields; this module
//! holds the shape decision, the defaults a queued message gets, and how
//! the inbox collection answers each kind of request.
use vstd::prelude::*;
use crate::message::{ChatMessage, MessageContent, MessageRole, MessageStatus, MessageType};
use crate::text::{chars_of, push_decimal, push_str_chars, string_of, trim, trim_indices, dec};
use crate::routes::ACTION_ABORT;
use crate::transcript_ops::{NodeRequest, ACTION_CLEAR, unreadable_text};

verus! {

/// A body that declares itself a JSON object: its trimmed text starts
/// with `{` (whether it parses is a separate question, answered with an
/// error rather than by sending the text as it is).
pub open spec fn structured_inbox(raw: Seq<char>) -> bool {
    trim(raw).len() > 0 && trim(raw)[0] == '{'
}

/// Whether an inbox body is a JSON object of message fields (see
/// [`structured_inbox`]).
pub fn is_structured_inbox(raw: &str) -> (b: bool)
    ensures
        b == structured_inbox(raw@),
{
    let v = chars_of(raw);
    let (b, e) = trim_indices(&v, 0, v.len());
    assert(v@.subrange(0, v@.len() as int) =~= v@);
    b < e && v[b] == '{'
}

/// A plain-text inbox body as a queued message: the whole body (untrimmed)
/// is the text of a completed user text message stamped `now_ms`; its id is
/// left empty for the queue to fill in.
pub fn inbox_text_message(raw: &str, now_ms: i64) -> (m: ChatMessage)
    ensures
        m.id@ == Seq::<char>::empty(),
        m.role == Some(MessageRole::User),
        m.msg_type == Some(MessageType::Text),
        m.content matches Some(MessageContent::Text(t)) && t@ == raw@,
        m.status == Some(MessageStatus::Completed),
        m.timestamp == Some(now_ms),
        m.parent_id is None && m.name is None && m.tool_call_id is None && m.meta is None,
        m.seq is None && m.error is None && m.delta is None && m.prompt is None,
{
    let mut m = ChatMessage::with_id(String::new());
    m.role = Some(MessageRole::User);
    m.msg_type = Some(MessageType::Text);
    m.content = Some(MessageContent::Text(string_of(chars_of(raw).as_slice())));
    m.status = Some(MessageStatus::Completed);
    m.timestamp = Some(now_ms);
    m
}

/// A structured inbox message with its defaults: a user text message when
/// it does not say otherwise, and always completed (it is waiting to be
/// sent, not streaming). Every other field is kept.
pub fn complete_inbox_message(m: ChatMessage) -> (r: ChatMessage)
    ensures
        r.role == (if m.role is Some {
            m.role
        } else {
            Some(MessageRole::User)
        }),
        r.msg_type == (if m.msg_type is Some {
            m.msg_type
        } else {
            Some(MessageType::Text)
        }),
        r.status == Some(MessageStatus::Completed),
        r == (ChatMessage { role: r.role, msg_type: r.msg_type, status: r.status, ..m }),
{
    let mut m = m;
    if m.role.is_none() {
        m.role = Some(MessageRole::User);
    }
    if m.msg_type.is_none() {
        m.msg_type = Some(MessageType::Text);
    }
    m.status = Some(MessageStatus::Completed);
    m
}

/// What the inbox collection does with a request.
#[derive(Debug)]
pub enum InboxRoute {
    /// List the waiting items (after checking the session exists).
    ListItems,
    /// Describe the inbox itself.
    StatInbox,
    /// Describe the waiting item the path names.
    StatItem,
    /// Read the message of the waiting item the path names.
    ReadItem,
    /// Parse the body and queue it (a write is always a new item).
    Enqueue,
    /// Cancel the waiting item the path names.
    Cancel,
    /// Cancel every waiting item.
    Clear,
    Watch,
    Unwatch,
    /// Refused as invalid, with the reason.
    Invalid(String),
    /// Refused as forbidden, with the reason.
    Forbidden(String),
    /// Refused as not found, with the reason.
    NotFound(String),
    /// Not supported.
    NotImplemented,
}

/// The refusal of a binary inbox write.
pub const INBOX_NO_BINARY_TEXT: &'static str = "收件箱条目是文本（ChatMessage 字段子集或纯文本），不接受二进制内容";

/// `收件箱条目是列表项，没有子项：<path>`.
pub open spec fn inbox_no_children_text(path: Seq<char>) -> Seq<char> {
    "收件箱条目是列表项，没有子项："@ + path
}

/// The refusal of deleting the inbox as a whole.
pub open spec fn inbox_no_delete_text(path: Seq<char>) -> Seq<char> {
    "收件箱不可整体删除：清空待消费队列请用 action(\""@ + ACTION_CLEAR@ + "\")："@ + path
}

fn text_with(prefix: &str, path: &str) -> (r: String)
    ensures
        r@ == prefix@ + path@,
{
    let mut v = chars_of(prefix);
    push_str_chars(&mut v, path);
    string_of(v.as_slice())
}

/// How the inbox routes a request; `has_iid`: the path names an item. An
/// item lists nothing; only an item is readable; a write queues a text
/// body (binary is refused); delete cancels an item and is forbidden on the
/// inbox itself; `clear` on the inbox cancels everything waiting.
pub fn inbox_route(req: &NodeRequest, has_iid: bool, path: &str) -> (r: InboxRoute)
    ensures
        match *req {
            NodeRequest::List => if has_iid {
                r matches InboxRoute::NotFound(t) && t@ == inbox_no_children_text(path@)
            } else {
                r is ListItems
            },
            NodeRequest::Stat => if has_iid {
                r is StatItem
            } else {
                r is StatInbox
            },
            NodeRequest::Read => if has_iid {
                r is ReadItem
            } else {
                r matches InboxRoute::Invalid(t) && t@ == unreadable_text(path@)
            },
            NodeRequest::Write { create: _, binary } => if binary {
                r matches InboxRoute::Invalid(t) && t@ == INBOX_NO_BINARY_TEXT@
            } else {
                r is Enqueue
            },
            NodeRequest::Delete => if has_iid {
                r is Cancel
            } else {
                r matches InboxRoute::Forbidden(t) && t@ == inbox_no_delete_text(path@)
            },
            NodeRequest::Action(a) => if !has_iid && a@ == ACTION_CLEAR@ {
                r is Clear
            } else {
                r is NotImplemented
            },
            NodeRequest::Watch => r is Watch,
            NodeRequest::Unwatch => r is Unwatch,
            NodeRequest::Other => r is NotImplemented,
        },
{
    match req {
        NodeRequest::List => if has_iid {
            InboxRoute::NotFound(text_with("收件箱条目是列表项，没有子项：", path))
        } else {
            InboxRoute::ListItems
        },
        NodeRequest::Stat => if has_iid {
            InboxRoute::StatItem
        } else {
            InboxRoute::StatInbox
        },
        NodeRequest::Read => if has_iid {
            InboxRoute::ReadItem
        } else {
            InboxRoute::Invalid(text_with("该路径不可读取内容：", path))
        },
        NodeRequest::Write { create: _, binary } => if *binary {
            InboxRoute::Invalid(string_of(chars_of(INBOX_NO_BINARY_TEXT).as_slice()))
        } else {
            InboxRoute::Enqueue
        },
        NodeRequest::Delete => if has_iid {
            InboxRoute::Cancel
        } else {
            let mut v = chars_of("收件箱不可整体删除：清空待消费队列请用 action(\"");
            push_str_chars(&mut v, ACTION_CLEAR);
            push_str_chars(&mut v, "\")：");
            push_str_chars(&mut v, path);
            assert(v@ =~= inbox_no_delete_text(path@));
            InboxRoute::Forbidden(string_of(v.as_slice()))
        },
        NodeRequest::Action(a) => {
            if !has_iid && crate::json::str_eq(a.as_str(), ACTION_CLEAR) {
                InboxRoute::Clear
            } else {
                InboxRoute::NotImplemented
            }
        },
        NodeRequest::Watch => InboxRoute::Watch,
        NodeRequest::Unwatch => InboxRoute::Unwatch,
        NodeRequest::Other => InboxRoute::NotImplemented,
    }
}

/// `收件箱里没有待消费条目：<iid>（已出队的那条在转写里）`: a stat of an
/// item that is not waiting.
pub open spec fn missing_item_stat_spec(iid: Seq<char>) -> Seq<char> {
    "收件箱里没有待消费条目："@ + iid + "（已出队的那条在转写里）"@
}

/// The answer to a stat of an item that is not waiting.
pub fn missing_item_stat_text(iid: &str) -> (r: String)
    ensures
        r@ == missing_item_stat_spec(iid@),
{
    let mut v = chars_of("收件箱里没有待消费条目：");
    push_str_chars(&mut v, iid);
    push_str_chars(&mut v, "（已出队的那条在转写里）");
    string_of(v.as_slice())
}

/// The answer to a cancel of an item that is not waiting: it was already
/// taken (and is a message of the session now, aborted through the
/// session's `abort` action) or never existed.
pub open spec fn missing_item_cancel_spec(iid: Seq<char>, path: Seq<char>) -> Seq<char> {
    "收件箱里没有待消费条目 "@ + iid + "（已出队的那条已是会话里的消息，中止请走 action(会话地址, \""@
        + ACTION_ABORT@ + "\")）："@ + path
}

/// See [`missing_item_cancel_spec`].
pub fn missing_item_cancel_text(iid: &str, path: &str) -> (r: String)
    ensures
        r@ == missing_item_cancel_spec(iid@, path@),
{
    let mut v = chars_of("收件箱里没有待消费条目 ");
    push_str_chars(&mut v, iid);
    push_str_chars(&mut v, "（已出队的那条已是会话里的消息，中止请走 action(会话地址, \"");
    push_str_chars(&mut v, ACTION_ABORT);
    push_str_chars(&mut v, "\")）：");
    push_str_chars(&mut v, path);
    assert(v@ =~= missing_item_cancel_spec(iid@, path@));
    string_of(v.as_slice())
}

/// `已取消 <n> 条待消费消息`: the answer of a `clear`.
pub fn cleared_text(n: usize) -> (r: String)
    ensures
        r@ == "已取消 "@ + dec(n as nat) + " 条待消费消息"@,
{
    let mut v = chars_of("已取消 ");
    push_decimal(&mut v, n as u64);
    push_str_chars(&mut v, " 条待消费消息");
    string_of(v.as_slice())
}

} // verus!
