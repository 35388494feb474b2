//! Edits of a stored transcript through its message addresses: a field
//! patch of one message, truncation from a message on, and the answers of
//! the transcript collection to each kind of request.
use vstd::prelude::*;
use crate::entry::PluginError;
use crate::json::{Json, JsonMap};
use crate::message::{ChatMessage, MessageStatus, copy_opt_string, copy_opt_json};
use crate::nodes::{first_with_id, first_with_id_exec, lemma_first_with_id};
use crate::text::{chars_of, push_decimal, push_str_chars, string_of, dec};
use crate::json::merge_into;

verus! {

/// The ids of the messages, in order.
pub open spec fn ids_of(ms: Seq<ChatMessage>) -> Seq<Seq<char>> {
    ms.map_values(|m: ChatMessage| m.id@)
}

/// Truncation from message `mid`: the messages before its first
/// occurrence are kept, it and everything after are removed; nothing
/// changes when no message has that id.
pub fn truncate_from(messages: Vec<ChatMessage>, mid: &str) -> (r: (Vec<ChatMessage>, Vec<String>))
    ensures
        ({
            let i = first_with_id(messages@, mid@);
            if i < 0 {
                r.0@ == messages@ && r.1@.len() == 0
            } else {
                r.0@ == messages@.take(i) && r.1@.map_values(|s: String| s@) == ids_of(
                    messages@.skip(i),
                )
            }
        }),
{
    let i = first_with_id_exec(&messages, mid);
    proof {
        lemma_first_with_id(messages@, mid@);
    }
    let mut kept = messages;
    let mut deleted: Vec<String> = Vec::new();
    if i == kept.len() {
        return (kept, deleted);
    }
    let ghost all = kept@;
    let mut k = i;
    while k < kept.len()
        invariant
            i <= k <= kept@.len(),
            kept@ == all,
            deleted@.map_values(|s: String| s@) == ids_of(all.subrange(i as int, k as int)),
        decreases kept@.len() - k,
    {
        let ghost d0 = deleted@;
        deleted.push(kept[k].id.clone());
        assert(deleted@.map_values(|s: String| s@) =~= d0.map_values(|s: String| s@).push(
            all[k as int].id@,
        ));
        assert(ids_of(all.subrange(i as int, k + 1 as int)) =~= ids_of(all.subrange(i as int, k as int)).push(
            all[k as int].id@,
        ));
        k = k + 1;
    }
    assert(all.subrange(i as int, all.len() as int) =~= all.skip(i as int));
    kept.truncate(i);
    assert(kept@ =~= all.take(i as int));
    (kept, deleted)
}

/// The removal frame of a message: its id with status `removed`.
pub fn removed_frame(id: &str) -> (m: ChatMessage)
    ensures
        m.id@ == id@,
        m.status == Some(MessageStatus::Removed),
        m.content is None && m.delta is None,
{
    let mut m = ChatMessage::with_id(string_of(chars_of(id).as_slice()));
    m.status = Some(MessageStatus::Removed);
    m
}

/// The answer text of a truncation.
pub open spec fn truncate_message_spec(mid: Seq<char>, n: nat) -> Seq<char> {
    if n == 0 {
        "目标消息不存在，未做任何修改："@ + mid
    } else {
        "已从 "@ + mid + " 起截断 "@ + dec(n) + " 条消息"@
    }
}

/// The answer text of a truncation that removed `n` messages.
pub fn truncate_message(mid: &str, n: usize) -> (r: String)
    ensures
        r@ == truncate_message_spec(mid@, n as nat),
{
    let mut v: Vec<char> = Vec::new();
    if n == 0 {
        push_str_chars(&mut v, "目标消息不存在，未做任何修改：");
        push_str_chars(&mut v, mid);
    } else {
        push_str_chars(&mut v, "已从 ");
        push_str_chars(&mut v, mid);
        push_str_chars(&mut v, " 起截断 ");
        push_decimal(&mut v, n as u64);
        push_str_chars(&mut v, " 条消息");
    }
    assert(v@ =~= truncate_message_spec(mid@, n as nat));
    string_of(v.as_slice())
}

/// The meta after a patch's meta: both objects merge (the patch's fields
/// win); otherwise the patch's meta replaces it.
pub open spec fn patched_meta(old: Option<Json>, new: Json) -> Json {
    match old {
        Some(Json::Obj(a)) => match new {
            Json::Obj(b) => Json::Obj(merge_into(a, b)),
            _ => new,
        },
        _ => new,
    }
}

/// `e` with the present fields of `patch` written over it. A present error
/// overwrites; without one, a new status other than `failed` clears the
/// old error.
pub open spec fn patched(e: ChatMessage, p: ChatMessage) -> ChatMessage {
    ChatMessage {
        role: if p.role is Some { p.role } else { e.role },
        msg_type: if p.msg_type is Some { p.msg_type } else { e.msg_type },
        name: if p.name is Some { p.name } else { e.name },
        parent_id: if p.parent_id is Some { p.parent_id } else { e.parent_id },
        content: if p.content is Some { p.content } else { e.content },
        status: if p.status is Some { p.status } else { e.status },
        error: if p.error is Some {
            p.error
        } else if p.status is Some && p.status != Some(MessageStatus::Failed) {
            None
        } else {
            e.error
        },
        timestamp: if p.timestamp is Some { p.timestamp } else { e.timestamp },
        meta: match p.meta {
            Some(nm) => Some(patched_meta(e.meta, nm)),
            None => e.meta,
        },
        ..e
    }
}

/// A patch writes exactly the fields it carries: each field present in the
/// patch is present in the result with the patch's value, each absent one
/// keeps the stored value; the identity fields are never touched; a
/// present error is written, and without one a new status other than
/// `failed` clears the old error; a patch object's keys win over the stored
/// meta object's, whose other keys stay.
pub proof fn lemma_patch_writes_present_fields(e: ChatMessage, p: ChatMessage)
    ensures
        ({
            let u = patched(e, p);
            &&& u.id == e.id && u.tool_call_id == e.tool_call_id && u.seq == e.seq && u.delta == e.delta
                && u.prompt == e.prompt
            &&& (p.role is Some ==> u.role == p.role) && (p.role is None ==> u.role == e.role)
            &&& (p.msg_type is Some ==> u.msg_type == p.msg_type) && (p.msg_type is None ==> u.msg_type
                == e.msg_type)
            &&& (p.name is Some ==> u.name == p.name) && (p.name is None ==> u.name == e.name)
            &&& (p.parent_id is Some ==> u.parent_id == p.parent_id) && (p.parent_id is None
                ==> u.parent_id == e.parent_id)
            &&& (p.content is Some ==> u.content == p.content) && (p.content is None ==> u.content
                == e.content)
            &&& (p.status is Some ==> u.status == p.status) && (p.status is None ==> u.status
                == e.status)
            &&& (p.timestamp is Some ==> u.timestamp == p.timestamp) && (p.timestamp is None
                ==> u.timestamp == e.timestamp)
            &&& p.error is Some ==> u.error == p.error
            &&& p.error is None && p.status is Some && p.status != Some(MessageStatus::Failed)
                ==> u.error is None
            &&& p.error is None && (p.status is None || p.status == Some(MessageStatus::Failed))
                ==> u.error == e.error
            &&& p.meta is None ==> u.meta == e.meta
            &&& p.meta is Some && p.meta->0 is Obj && e.meta is Some && e.meta->0 is Obj ==> (
            u.meta is Some && u.meta->0 is Obj && forall|q: Seq<char>|
                #[trigger] u.meta->0->Obj_0.lookup(q) == (match crate::json::last_lookup(
                    p.meta->0->Obj_0,
                    q,
                ) {
                    Some(v) => Some(v),
                    None => e.meta->0->Obj_0.lookup(q),
                }))
            &&& p.meta is Some && !(p.meta->0 is Obj && e.meta is Some && e.meta->0 is Obj) ==> u.meta
                == p.meta
        }),
{
    if let Some(Json::Obj(b)) = p.meta {
        if let Some(Json::Obj(a)) = e.meta {
            assert forall|q: Seq<char>| #[trigger] merge_into(a, b).lookup(q) == (match crate::json::last_lookup(b, q) {
                Some(v) => Some(v),
                None => a.lookup(q),
            }) by {
                crate::json::lemma_merge_lookup(a, b, q);
            }
        }
    }
}

/// The error of a patch whose id differs from its address.
pub open spec fn id_mismatch_text(pid: Seq<char>, mid: Seq<char>) -> Seq<char> {
    "消息补丁的 id（"@ + pid + "）与地址不符（"@ + mid + "）：地址是消息身份的唯一权威"@
}

/// Patches message `mid` of a stored transcript with the present fields of
/// `patch`: refused when the patch's id differs from the address or no
/// message has that id; otherwise the first message with the id is patched
/// (see [`patched`]).
pub fn patch_messages(messages: Vec<ChatMessage>, mid: &str, patch: &ChatMessage) -> (r: Result<
    (Vec<ChatMessage>, ChatMessage),
    PluginError,
>)
    ensures
        patch.id@ != mid@ ==> (r matches Err(PluginError::ValidationError(t)) && t@
            == id_mismatch_text(patch.id@, mid@)),
        patch.id@ == mid@ && first_with_id(messages@, mid@) < 0 ==> (r matches Err(
            PluginError::NotFound(t),
        ) && t@ == "消息不存在: "@ + mid@),
        patch.id@ == mid@ && first_with_id(messages@, mid@) >= 0 ==> ({
            let i = first_with_id(messages@, mid@);
            r matches Ok((ms, u)) && u == patched(messages@[i], *patch) && ms@ == messages@.update(
                i,
                u,
            )
        }),
        r is Ok ==> ({
            let u = r->Ok_0.1;
            let e = messages@[first_with_id(messages@, mid@)];
            let p = *patch;
            &&& u.id == e.id && u.tool_call_id == e.tool_call_id && u.seq == e.seq && u.delta == e.delta
                && u.prompt == e.prompt
            &&& (p.role is Some ==> u.role == p.role) && (p.role is None ==> u.role == e.role)
            &&& (p.msg_type is Some ==> u.msg_type == p.msg_type) && (p.msg_type is None ==> u.msg_type
                == e.msg_type)
            &&& (p.name is Some ==> u.name == p.name) && (p.name is None ==> u.name == e.name)
            &&& (p.parent_id is Some ==> u.parent_id == p.parent_id) && (p.parent_id is None
                ==> u.parent_id == e.parent_id)
            &&& (p.content is Some ==> u.content == p.content) && (p.content is None ==> u.content
                == e.content)
            &&& (p.status is Some ==> u.status == p.status) && (p.status is None ==> u.status
                == e.status)
            &&& (p.timestamp is Some ==> u.timestamp == p.timestamp) && (p.timestamp is None
                ==> u.timestamp == e.timestamp)
            &&& p.error is Some ==> u.error == p.error
            &&& p.error is None && p.status is Some && p.status != Some(MessageStatus::Failed)
                ==> u.error is None
            &&& p.error is None && (p.status is None || p.status == Some(MessageStatus::Failed))
                ==> u.error == e.error
            &&& p.meta is None ==> u.meta == e.meta
            &&& p.meta is Some && p.meta->0 is Obj && e.meta is Some && e.meta->0 is Obj ==> (
            u.meta is Some && u.meta->0 is Obj && forall|q: Seq<char>|
                #[trigger] u.meta->0->Obj_0.lookup(q) == (match crate::json::last_lookup(
                    p.meta->0->Obj_0,
                    q,
                ) {
                    Some(v) => Some(v),
                    None => e.meta->0->Obj_0.lookup(q),
                }))
            &&& p.meta is Some && !(p.meta->0 is Obj && e.meta is Some && e.meta->0 is Obj) ==> u.meta
                == p.meta
        }),
{
    if !crate::json::str_eq(patch.id.as_str(), mid) {
        let mut v: Vec<char> = Vec::new();
        push_str_chars(&mut v, "消息补丁的 id（");
        push_str_chars(&mut v, patch.id.as_str());
        push_str_chars(&mut v, "）与地址不符（");
        push_str_chars(&mut v, mid);
        push_str_chars(&mut v, "）：地址是消息身份的唯一权威");
        assert(v@ =~= id_mismatch_text(patch.id@, mid@));
        return Err(PluginError::ValidationError(string_of(v.as_slice())));
    }
    let i = first_with_id_exec(&messages, mid);
    if i == messages.len() {
        let mut v = chars_of("消息不存在: ");
        push_str_chars(&mut v, mid);
        return Err(PluginError::NotFound(string_of(v.as_slice())));
    }
    let mut e = messages[i].copy();
    if patch.role.is_some() {
        e.role = patch.role;
    }
    if patch.msg_type.is_some() {
        e.msg_type = patch.msg_type;
    }
    if patch.name.is_some() {
        e.name = copy_opt_string(&patch.name);
    }
    if patch.parent_id.is_some() {
        e.parent_id = copy_opt_string(&patch.parent_id);
    }
    if patch.content.is_some() {
        e.content = crate::message::copy_opt_content(&patch.content);
    }
    if patch.status.is_some() {
        e.status = patch.status;
    }
    if patch.error.is_some() {
        e.error = copy_opt_string(&patch.error);
    } else if patch.status.is_some() && !matches!(patch.status, Some(MessageStatus::Failed)) {
        e.error = None;
    }
    if patch.timestamp.is_some() {
        e.timestamp = patch.timestamp;
    }
    match &patch.meta {
        Some(nm) => {
            let old = copy_opt_json(&e.meta);
            e.meta = Some(
                match old {
                    Some(Json::Obj(a)) => match nm {
                        Json::Obj(b) => Json::Obj(crate::json::merge_maps(a, b)),
                        _ => nm.copy(),
                    },
                    _ => nm.copy(),
                },
            );
        },
        None => {},
    }
    proof {
        lemma_patch_writes_present_fields(messages@[i as int], *patch);
    }
    let mut ms = messages;
    ms.set(i, e.copy());
    Ok((ms, e))
}

/// A request on a node of the session tree, as plain parts.
#[derive(Debug)]
pub enum NodeRequest {
    List,
    Stat,
    Read,
    /// A write with its intent flags.
    Write { create: bool, binary: bool },
    Delete,
    /// An action word.
    Action(String),
    Watch,
    Unwatch,
    /// Anything else.
    Other,
}

/// What the transcript collection does with a request.
#[derive(Debug)]
pub enum MessagesRoute {
    /// List a page of the transcript.
    ListPage,
    /// Describe the collection (after checking the session exists).
    StatCollection,
    /// Describe message `mid`.
    StatMessage,
    /// Read the body of message `mid`.
    ReadMessage,
    /// Parse the body as a field patch of message `mid`.
    PatchMessage,
    /// Truncate from message `mid`.
    Truncate,
    /// Clear the transcript.
    Clear,
    /// Resume the turn at message `mid` with this action word.
    Resume(String),
    Watch,
    Unwatch,
    /// Refused as invalid, with the reason.
    Invalid(String),
    /// Refused as forbidden, with the reason.
    Forbidden(String),
    /// Refused as not found, with the reason.
    NotFound(String),
    /// Not supported.
    NotImplemented,
}

/// The action word that truncates.
pub const ACTION_TRUNCATE: &'static str = "truncate";

/// The action words that resume a turn at a message.
pub open spec fn is_resume_word(a: Seq<char>) -> bool {
    ||| a == "retry_turn"@
    ||| a == "retry"@
    ||| a == "approve"@
    ||| a == "reject"@
    ||| a == "supply"@
    ||| a == "answer"@
    ||| a == "retry_compaction"@
}

/// Whether `a` is a resume action word (see [`is_resume_word`]).
pub fn is_resume_action(a: &str) -> (r: bool)
    ensures
        r == is_resume_word(a@),
{
    crate::json::str_eq(a, "retry_turn") || crate::json::str_eq(a, "retry")
        || crate::json::str_eq(a, "approve") || crate::json::str_eq(a, "reject")
        || crate::json::str_eq(a, "supply") || crate::json::str_eq(a, "answer")
        || crate::json::str_eq(a, "retry_compaction")
}

/// The action word that clears.
pub const ACTION_CLEAR: &'static str = "clear";

pub const NO_CREATE_TEXT: &'static str = "消息不支持 create 意图：新增消息即发言，请走聊天协议（一次发言触发一整轮编排）";
pub const NO_BINARY_TEXT: &'static str = "消息是文本（JSON 字段补丁），不接受二进制内容";
pub const READ_ONLY_LIST_TEXT: &'static str = "转写列表只读：发言请走聊天协议（一次发言触发一整轮编排）";

/// `消息是列表项，没有子项：<path>`.
pub open spec fn no_children_text(path: Seq<char>) -> Seq<char> {
    "消息是列表项，没有子项："@ + path
}

/// `该路径不可读取内容：<path>`.
pub open spec fn unreadable_text(path: Seq<char>) -> Seq<char> {
    "该路径不可读取内容："@ + path
}

/// The refusal of a delete on the transcript.
pub open spec fn no_delete_text(path: Seq<char>) -> Seq<char> {
    "转写区段不可 delete：清空列表请用 action(\""@ + ACTION_CLEAR@
        + "\")，删除某条及其之后请用 action(\""@ + ACTION_TRUNCATE@ + "\")："@ + path
}

fn text_with(prefix: &str, path: &str) -> (r: String)
    ensures
        r@ == prefix@ + path@,
{
    let mut v = chars_of(prefix);
    push_str_chars(&mut v, path);
    string_of(v.as_slice())
}

/// How the transcript collection routes a request; `mid` is the message the
/// path names, if any. A message lists nothing and only its body is
/// readable; a write patches a message (never creates, never binary) and
/// the list itself is read-only; delete is refused in favour of the clear
/// and truncate actions; truncate acts on a message, clear on the list, a
/// resume action word on a message resumes the turn there, and any other
/// action is not supported.
pub fn messages_route(req: &NodeRequest, has_mid: bool, path: &str) -> (r: MessagesRoute)
    ensures
        match *req {
            NodeRequest::List => if has_mid {
                r matches MessagesRoute::NotFound(t) && t@ == no_children_text(path@)
            } else {
                r is ListPage
            },
            NodeRequest::Stat => if has_mid {
                r is StatMessage
            } else {
                r is StatCollection
            },
            NodeRequest::Read => if has_mid {
                r is ReadMessage
            } else {
                r matches MessagesRoute::Invalid(t) && t@ == unreadable_text(path@)
            },
            NodeRequest::Write { create, binary } => if !has_mid {
                r matches MessagesRoute::Forbidden(t) && t@ == READ_ONLY_LIST_TEXT@
            } else if create {
                r matches MessagesRoute::Invalid(t) && t@ == NO_CREATE_TEXT@
            } else if binary {
                r matches MessagesRoute::Invalid(t) && t@ == NO_BINARY_TEXT@
            } else {
                r is PatchMessage
            },
            NodeRequest::Delete => r matches MessagesRoute::Forbidden(t) && t@ == no_delete_text(
                path@,
            ),
            NodeRequest::Action(a) => if has_mid && a@ == ACTION_TRUNCATE@ {
                r is Truncate
            } else if !has_mid && a@ == ACTION_CLEAR@ {
                r is Clear
            } else if has_mid && is_resume_word(a@) {
                r matches MessagesRoute::Resume(w) && w@ == a@
            } else {
                r is NotImplemented
            },
            NodeRequest::Watch => r is Watch,
            NodeRequest::Unwatch => r is Unwatch,
            NodeRequest::Other => r is NotImplemented,
        },
{
    match req {
        NodeRequest::List => if has_mid {
            MessagesRoute::NotFound(text_with("消息是列表项，没有子项：", path))
        } else {
            MessagesRoute::ListPage
        },
        NodeRequest::Stat => if has_mid {
            MessagesRoute::StatMessage
        } else {
            MessagesRoute::StatCollection
        },
        NodeRequest::Read => if has_mid {
            MessagesRoute::ReadMessage
        } else {
            MessagesRoute::Invalid(text_with("该路径不可读取内容：", path))
        },
        NodeRequest::Write { create, binary } => if !has_mid {
            MessagesRoute::Forbidden(string_of(chars_of(READ_ONLY_LIST_TEXT).as_slice()))
        } else if *create {
            MessagesRoute::Invalid(string_of(chars_of(NO_CREATE_TEXT).as_slice()))
        } else if *binary {
            MessagesRoute::Invalid(string_of(chars_of(NO_BINARY_TEXT).as_slice()))
        } else {
            MessagesRoute::PatchMessage
        },
        NodeRequest::Delete => {
            let mut v = chars_of("转写区段不可 delete：清空列表请用 action(\"");
            push_str_chars(&mut v, ACTION_CLEAR);
            push_str_chars(&mut v, "\")，删除某条及其之后请用 action(\"");
            push_str_chars(&mut v, ACTION_TRUNCATE);
            push_str_chars(&mut v, "\")：");
            push_str_chars(&mut v, path);
            assert(v@ =~= no_delete_text(path@));
            MessagesRoute::Forbidden(string_of(v.as_slice()))
        },
        NodeRequest::Action(a) => {
            if has_mid && crate::json::str_eq(a.as_str(), ACTION_TRUNCATE) {
                MessagesRoute::Truncate
            } else if !has_mid && crate::json::str_eq(a.as_str(), ACTION_CLEAR) {
                MessagesRoute::Clear
            } else if has_mid && is_resume_action(a.as_str()) {
                MessagesRoute::Resume(a.clone())
            } else {
                MessagesRoute::NotImplemented
            }
        },
        NodeRequest::Watch => MessagesRoute::Watch,
        NodeRequest::Unwatch => MessagesRoute::Unwatch,
        NodeRequest::Other => MessagesRoute::NotImplemented,
    }
}

} // verus!
