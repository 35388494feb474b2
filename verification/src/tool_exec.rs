//! Tool execution: reading a tool's result, the result nodes and the final
//! states of tool calls, and the decisions of a batch of tool calls.
//!
//! Every tool call of a batch ends in a final state (`completed` or
//! `waiting_user_action`) and has a result child node: calls that fail,
//! are refused, blocked, skipped or aborted get one too. A tool failure is
//! informative: its result stays a completed node the model can read.
use vstd::prelude::*;
use crate::json::{Json, JsonMap, lemma_lookup_inserted, merge_into, merge_maps, last_lookup, lemma_merge_lookup};
use crate::message::{
    ChatMessage, MessageContent, MessageRole, MessageStatus, MessageType, copy_opt_string,
    copy_opt_json,
};
use crate::text::{chars_of, push_decimal, push_str_chars, string_of};
use crate::json_text::{compact_json, compact_json_text};
use crate::tool_result_guard::GuardedResult;
use vstd::string::StrSliceExecFns;

verus! {

/// The field read first from a tool result: the text meant for the model.
pub const RESULT_CONTENT: &'static str = "content";

/// The field read second: the output of command-like tools.
pub const RESULT_OUTPUT: &'static str = "output";

/// `failure_kind` of a call waiting for the user's approval.
pub const NEEDS_APPROVAL: &'static str = "needs_approval";

/// `failure_kind` of a call waiting for the user's answer.
pub const NEEDS_INTERACTION: &'static str = "needs_interaction";

/// `failure_kind` of a call that ended in an error.
pub const FAILURE_ERROR: &'static str = "error";

/// `failure_kind` of a call a hook blocked.
pub const FAILURE_BLOCKED: &'static str = "blocked";

/// `failure_kind` of a call the batch did not reach.
pub const FAILURE_NOT_EXECUTED: &'static str = "not_executed";

/// The reason of a call dropped because the user aborted.
pub const REASON_ABORTED: &'static str = "aborted";

/// A `failure_kind` that means the turn waits for the user.
pub open spec fn is_pending_kind(k: Seq<char>) -> bool {
    k == NEEDS_APPROVAL@ || k == NEEDS_INTERACTION@
}

/// Whether `kind` means the turn waits for the user.
pub fn is_pending(kind: &str) -> (b: bool)
    ensures
        b == is_pending_kind(kind@),
{
    crate::json::str_eq(kind, NEEDS_APPROVAL) || crate::json::str_eq(kind, NEEDS_INTERACTION)
}

/// The readable text of a tool result, first match wins:
/// a string `content`; a string `output`; a boolean `success` (`true`: the
/// whole payload; `false`: `Error: <error>`, `unknown error` without one);
/// a bare string; otherwise the whole payload. `data_text` is the payload
/// rendered as compact JSON.
pub open spec fn extract_spec(data: Json, data_text: Seq<char>) -> Seq<char> {
    match Json::str_of(data.field(RESULT_CONTENT@)) {
        Some(c) => c,
        None => match Json::str_of(data.field(RESULT_OUTPUT@)) {
            Some(o) => o,
            None => match Json::bool_of(data.field("success"@)) {
                Some(true) => data_text,
                Some(false) => "Error: "@ + (match Json::str_of(data.field("error"@)) {
                    Some(e) => e,
                    None => "unknown error"@,
                }),
                None => match data {
                    Json::Str(s) => s@,
                    _ => data_text,
                },
            },
        },
    }
}

/// The readable text of a tool result (see [`extract_spec`]), the payload
/// rendered as compact JSON where the whole payload is the text.
pub fn extract_result(data: &Json) -> (r: String)
    ensures
        r@ == extract_spec(*data, compact_json(*data)),
{
    let text = compact_json_text(data);
    extract_result_from(data, text.as_str())
}

/// The readable text of a tool result, given its payload already rendered
/// as `data_text` (see [`extract_spec`]).
pub fn extract_result_from(data: &Json, data_text: &str) -> (r: String)
    ensures
        r@ == extract_spec(*data, data_text@),
{
    match data.get_str(RESULT_CONTENT) {
        Some(c) => {
            return c.clone();
        },
        None => {},
    }
    match data.get_str(RESULT_OUTPUT) {
        Some(o) => {
            return o.clone();
        },
        None => {},
    }
    match data.get_bool("success") {
        Some(true) => string_of(chars_of(data_text).as_slice()),
        Some(false) => {
            let mut v: Vec<char> = Vec::new();
            push_str_chars(&mut v, "Error: ");
            match data.get_str("error") {
                Some(e) => push_str_chars(&mut v, e.as_str()),
                None => push_str_chars(&mut v, "unknown error"),
            }
            string_of(v.as_slice())
        },
        None => match data {
            Json::Str(s) => s.clone(),
            _ => string_of(chars_of(data_text).as_slice()),
        },
    }
}

/// What a tool declares when its call must wait for the user: the card's
/// text, the card's payload, and the pending `failure_kind`.
#[derive(Debug)]
pub struct PendingPrompt {
    pub text: String,
    pub prompt: Json,
    pub failure_kind: String,
}

/// The text of a card without one.
pub const DEFAULT_PROMPT_TEXT: &'static str = "需要用户操作";

/// `r` is the waiting intent that tool result `data` declares (see
/// [`pending_prompt_from`]).
pub open spec fn pending_of(data: Json, r: Option<PendingPrompt>) -> bool {
    match Json::str_of(data.field("failure_kind"@)) {
        Some(k) => if is_pending_kind(k) {
            r matches Some(p) && p.failure_kind@ == k && p.text@ == (match Json::str_of(
                data.field("content"@),
            ) {
                Some(t) => t,
                None => DEFAULT_PROMPT_TEXT@,
            }) && p.prompt == (match data.field("prompt"@) {
                Some(x) => x,
                None => Json::Null,
            })
        } else {
            r is None
        },
        None => r is None,
    }
}

/// Reads the waiting intent of a tool result: only a pending
/// `failure_kind` makes one; its text is the string `content` (a default
/// otherwise) and its payload the `prompt` field (`null` otherwise).
pub fn pending_prompt_from(data: &Json) -> (r: Option<PendingPrompt>)
    ensures
        pending_of(*data, r),
{
    let kind = match data.get_str("failure_kind") {
        Some(k) => k,
        None => {
            return None;
        },
    };
    if !is_pending(kind.as_str()) {
        return None;
    }
    let text = match data.get_str("content") {
        Some(t) => t.clone(),
        None => string_of(chars_of(DEFAULT_PROMPT_TEXT).as_slice()),
    };
    let prompt = match data.get("prompt") {
        Some(p) => p.copy(),
        None => Json::Null,
    };
    Some(PendingPrompt { text, prompt, failure_kind: kind.clone() })
}

/// A string as a key.
fn key(s: &str) -> (k: String)
    ensures
        k@ == s@,
{
    string_of(chars_of(s).as_slice())
}

/// The user-prompt node of a waiting call: its id is the result node's id,
/// it hangs under the tool call, and its meta carries the card payload and
/// the pending kind.
pub fn build_user_prompt_message(result_msg_id: &str, tool_call_id: &str, pending: &PendingPrompt) -> (m:
    ChatMessage)
    ensures
        m.id@ == result_msg_id@,
        m.parent_id matches Some(p) && p@ == tool_call_id@,
        m.role == Some(MessageRole::Tool),
        m.msg_type == Some(MessageType::UserPrompt),
        m.content matches Some(MessageContent::Text(t)) && t@ == pending.text@,
        m.status == Some(MessageStatus::WaitingUserAction),
        m.meta matches Some(Json::Obj(mm)) && mm.lookup("prompt"@) == Some(pending.prompt)
            && Json::str_of(mm.lookup("failure_kind"@)) == Some(pending.failure_kind@),
        m.seq is None && m.delta is None && m.error is None,
{
    let mut meta = JsonMap::Nil;
    let k1 = key("prompt");
    let ghost m0 = meta;
    meta.insert(k1, pending.prompt.copy());
    let ghost m1 = meta;
    let k2 = key("failure_kind");
    let v2 = Json::Str(pending.failure_kind.clone());
    meta.insert(k2, v2);
    proof {
        reveal_strlit("prompt");
        reveal_strlit("failure_kind");
        assert("prompt"@.len() == 6);
        assert("failure_kind"@.len() == 12);
        lemma_lookup_inserted(m1, k2, v2, "prompt"@);
        lemma_lookup_inserted(m0, k1, pending.prompt, "prompt"@);
        lemma_lookup_inserted(m1, k2, v2, "failure_kind"@);
    }
    let mut m = ChatMessage::with_id(key(result_msg_id));
    m.parent_id = Some(key(tool_call_id));
    m.role = Some(MessageRole::Tool);
    m.msg_type = Some(MessageType::UserPrompt);
    m.content = Some(MessageContent::Text(pending.text.clone()));
    m.status = Some(MessageStatus::WaitingUserAction);
    m.meta = Some(Json::Obj(meta));
    m
}

/// `uuid::Uuid::new_v4`, rendered by `to_string` (`Display`, the lowercase
/// hyphenated form) as its text, whose length is
/// `fmt::Hyphenated::LENGTH`, 36. The value is random: only that length is
/// claimed.
#[verifier::external_body]
fn new_uuid() -> (s: String)
    ensures
        s@.len() == 36,
{
    uuid::Uuid::new_v4().to_string()
}

/// A tool result node: `id`, under the tool call, role `tool`, a text
/// body; a failed result is marked `failed` and an explicit outcome goes to
/// `meta.success`.
pub fn build_tool_message(tool_call_id: &str, text: &str, success: Option<bool>, id: String) -> (m:
    ChatMessage)
    ensures
        m.id == id,
        m.parent_id matches Some(p) && p@ == tool_call_id@,
        m.role == Some(MessageRole::Tool),
        m.msg_type == Some(MessageType::Text),
        m.content matches Some(MessageContent::Text(t)) && t@ == text@,
        m.status == (if success == Some(false) {
            Some(MessageStatus::Failed)
        } else {
            Some(MessageStatus::Completed)
        }),
        match success {
            Some(b) => m.meta matches Some(Json::Obj(mm)) && mm.lookup("success"@) == Some(
                Json::Bool(b),
            ) && (mm matches JsonMap::Entry(k, v, r) && k@ == "success"@ && *v == Json::Bool(b)
                && *r == JsonMap::Nil),
            None => m.meta is None,
        },
        m.seq is None && m.delta is None && m.error is None,
{
    let mut m = ChatMessage::with_id(id);
    m.parent_id = Some(key(tool_call_id));
    m.role = Some(MessageRole::Tool);
    m.msg_type = Some(MessageType::Text);
    m.content = Some(MessageContent::Text(key(text)));
    m.status = match success {
        Some(false) => Some(MessageStatus::Failed),
        _ => Some(MessageStatus::Completed),
    };
    match success {
        Some(b) => {
            let mut meta = JsonMap::Nil;
            let k = key("success");
            meta.insert(k, Json::Bool(b));
            m.meta = Some(Json::Obj(meta));
        },
        None => {},
    }
    m
}

/// Sets `key` of an object meta (`{}` when absent); any other meta is left
/// as it is.
pub open spec fn meta_set_ok(old_meta: Option<Json>, key: Seq<char>, v: Json, new_meta: Option<Json>) -> bool {
    let base = match old_meta {
        Some(j) => j,
        None => Json::Obj(JsonMap::Nil),
    };
    match base {
        Json::Obj(om) => new_meta matches Some(Json::Obj(nm)) && nm.lookup(key) == Some(v)
            && forall|q: Seq<char>| q != key ==> #[trigger] nm.lookup(q) == om.lookup(q),
        _ => new_meta == Some(base),
    }
}

/// The meta of a message with one more field (see [`meta_set_ok`]).
fn meta_with(meta: &Option<Json>, k: &str, v: Json) -> (r: Option<Json>)
    ensures
        meta_set_ok(*meta, k@, v, r),
{
    let base = match meta {
        Some(j) => j.copy(),
        None => Json::Obj(JsonMap::Nil),
    };
    match base {
        Json::Obj(m) => {
            let mut m = m;
            let ghost m0 = m;
            let kk = key(k);
            m.insert(kk, v);
            proof {
                lemma_lookup_inserted(m0, kk, v, k@);
                assert forall|q: Seq<char>| q != k@ implies #[trigger] m.lookup(q) == m0.lookup(q) by {
                    lemma_lookup_inserted(m0, kk, v, q);
                }
            }
            Some(Json::Obj(m))
        },
        other => Some(other),
    }
}

/// The meta of a tool call after it is marked with `success = false` and
/// `failure_kind = kind`: an object meta (`{}` when absent) gains the two
/// fields, other fields unchanged; any other meta stays as it is.
pub open spec fn marked_meta(old_meta: Option<Json>, kind: Seq<char>, new_meta: Option<Json>) -> bool {
    let base = match old_meta {
        Some(j) => j,
        None => Json::Obj(JsonMap::Nil),
    };
    match base {
        Json::Obj(om) => new_meta matches Some(Json::Obj(nm)) && nm.lookup("success"@) == Some(
            Json::Bool(false),
        ) && Json::str_of(nm.lookup("failure_kind"@)) == Some(kind) && forall|q: Seq<char>|
            q != "success"@ && q != "failure_kind"@ ==> #[trigger] nm.lookup(q) == om.lookup(q),
        _ => new_meta == Some(base),
    }
}

/// Marks a tool call that was not executed: `completed`, with
/// `success = false` and `failure_kind = reason` (see [`marked_meta`]).
pub fn apply_not_executed(parent: &mut ChatMessage, reason: &str)
    ensures
        final(parent).status == Some(MessageStatus::Completed),
        marked_meta(old(parent).meta, reason@, final(parent).meta),
        final(parent).id == old(parent).id,
        final(parent).parent_id == old(parent).parent_id,
        final(parent).role == old(parent).role,
        final(parent).msg_type == old(parent).msg_type,
        final(parent).name == old(parent).name,
        final(parent).content == old(parent).content,
        final(parent).error == old(parent).error,
        final(parent).seq == old(parent).seq,
{
    parent.status = Some(MessageStatus::Completed);
    let m1 = meta_with(&parent.meta, "success", Json::Bool(false));
    let v = Json::Str(key(reason));
    let m2 = meta_with(&m1, "failure_kind", v);
    proof {
        reveal_strlit("success");
        reveal_strlit("failure_kind");
        assert("success"@ != "failure_kind"@) by {
            assert("success"@.len() == 7);
            assert("failure_kind"@.len() == 12);
        }
    }
    parent.meta = m2;
}

/// Settles the tool call at `tc_idx` of a resumed turn the user aborted:
/// in place it becomes `completed` with `success = false` and
/// `failure_kind = aborted` merged into its meta (no error); the settled
/// copy is returned for delivery. `_tc_id` is the call's id as the caller
/// located it.
pub fn finalize_aborted_parent(messages: &mut Vec<ChatMessage>, tc_idx: usize, _tc_id: &str) -> (snapshot:
    ChatMessage)
    requires
        tc_idx < old(messages)@.len(),
    ensures
        final(messages)@ == old(messages)@.update(tc_idx as int, snapshot),
        snapshot.status == Some(MessageStatus::Completed),
        marked_meta(old(messages)@[tc_idx as int].meta, REASON_ABORTED@, snapshot.meta),
        snapshot.id == old(messages)@[tc_idx as int].id,
        snapshot.parent_id == old(messages)@[tc_idx as int].parent_id,
        snapshot.role == old(messages)@[tc_idx as int].role,
        snapshot.msg_type == old(messages)@[tc_idx as int].msg_type,
        snapshot.name == old(messages)@[tc_idx as int].name,
        snapshot.content == old(messages)@[tc_idx as int].content,
        snapshot.error == old(messages)@[tc_idx as int].error,
        snapshot.seq == old(messages)@[tc_idx as int].seq,
{
    let mut p = messages[tc_idx].copy();
    apply_not_executed(&mut p, REASON_ABORTED);
    let snapshot = p.copy();
    messages.set(tc_idx, p);
    snapshot
}

} // verus!

verus! {

/// The text of a result node of a call dropped by the user's abort.
pub const ABORTED_TEXT: &'static str = "本次调用已中止（用户终止），未执行，未产生结果。";

/// The text of a result node of a call the batch skipped.
pub const SKIPPED_TEXT: &'static str = "本次调用未执行：同一批中排在它之前的工具未正常结束（失败或需要用户处理），同批剩余调用被一并跳过。需要时请重新发起这一次调用。";

/// The `{"success": false, "failure_kind": kind}` object.
pub open spec fn failure_meta_ok(meta: Option<Json>, kind: Seq<char>) -> bool {
    meta matches Some(Json::Obj(mm)) && mm.lookup("success"@) == Some(Json::Bool(false))
        && Json::str_of(mm.lookup("failure_kind"@)) == Some(kind)
}

/// `{"success": false, "failure_kind": kind}`, in that order.
pub open spec fn is_failure_object(j: Json, kind: Seq<char>) -> bool {
    j matches Json::Obj(JsonMap::Entry(k1, v1, r1)) && k1@ == "success"@ && *v1 == Json::Bool(false)
        && (*r1 matches JsonMap::Entry(k2, v2, r2) && k2@ == "failure_kind"@ && (*v2 matches Json::Str(
        t,
    ) && t@ == kind) && *r2 == JsonMap::Nil)
}

/// `{"success": false, "failure_kind": kind}`.
fn failure_object(kind: &str) -> (j: Json)
    ensures
        is_failure_object(j, kind@),
        failure_meta_ok(Some(j), kind@),
{
    let k2 = key("failure_kind");
    let v2 = Json::Str(key(kind));
    let r1 = JsonMap::Entry(k2, Box::new(v2), Box::new(JsonMap::Nil));
    let k1 = key("success");
    proof {
        reveal_strlit("success");
        reveal_strlit("failure_kind");
        assert("success"@.len() == 7);
        assert("failure_kind"@.len() == 12);
        assert(r1.lookup("failure_kind"@) == Some(v2));
    }
    let m = JsonMap::Entry(k1, Box::new(Json::Bool(false)), Box::new(r1));
    assert(m.lookup("success"@) == Some(Json::Bool(false)));
    assert(m.lookup("failure_kind"@) == r1.lookup("failure_kind"@));
    Json::Obj(m)
}

/// The result node of a call that was not executed: a completed tool
/// result under the call, saying why, with `success = false` and
/// `failure_kind = reason`.
pub fn not_executed_result(tool_call_id: &str, reason: &str) -> (m: ChatMessage)
    ensures
        m.parent_id matches Some(p) && p@ == tool_call_id@,
        m.role == Some(MessageRole::Tool),
        m.status == Some(MessageStatus::Completed),
        m.content matches Some(MessageContent::Text(t)) && t@ == (if reason@ == REASON_ABORTED@ {
            ABORTED_TEXT@
        } else {
            SKIPPED_TEXT@
        }),
        failure_meta_ok(m.meta, reason@),
{
    let text = if crate::json::str_eq(reason, REASON_ABORTED) {
        ABORTED_TEXT
    } else {
        SKIPPED_TEXT
    };
    let mut msg = build_tool_message(tool_call_id, text, Some(false), new_uuid());
    msg.status = Some(MessageStatus::Completed);
    msg.meta = Some(failure_object(reason));
    msg
}

/// The meta of a finalized tool call: an object meta (`{}` when absent)
/// merged with an object `extra`; otherwise `extra` replaces it.
pub open spec fn finalized_meta(old_meta: Option<Json>, extra: Json) -> Json {
    let base = match old_meta {
        Some(j) => j,
        None => Json::Obj(JsonMap::Nil),
    };
    match (base, extra) {
        (Json::Obj(b), Json::Obj(e)) => Json::Obj(merge_into(b, e)),
        _ => extra,
    }
}

/// The final snapshot of the tool call `tool_call_id` taken from the
/// transcript (its first node with that id): the new status, its meta
/// merged with `meta_extra`, and `error`. `None` when the transcript has no
/// such node.
pub fn finalized_parent(
    context: &Vec<ChatMessage>,
    tool_call_id: &str,
    status: MessageStatus,
    meta_extra: &Json,
    error: Option<String>,
) -> (r: Option<ChatMessage>)
    ensures
        ({
            let i = crate::nodes::first_with_id(context@, tool_call_id@);
            if i < 0 {
                r is None
            } else {
                let p = context@[i];
                r matches Some(f) && f.id == p.id && f.parent_id == p.parent_id && f.role == p.role
                    && f.msg_type == p.msg_type && f.name == p.name && f.tool_call_id
                    == p.tool_call_id && f.seq == p.seq && f.timestamp == p.timestamp && f.content
                    == p.content && f.delta == p.delta && f.prompt == p.prompt && f.status == Some(
                    status,
                ) && f.meta == Some(finalized_meta(p.meta, *meta_extra)) && f.error == error
            }
        }),
{
    let i = crate::nodes::first_with_id_exec(context, tool_call_id);
    if i == context.len() {
        return None;
    }
    let mut full = context[i].copy();
    full.status = Some(status);
    let base = match &full.meta {
        Some(j) => j.copy(),
        None => Json::Obj(JsonMap::Nil),
    };
    let merged = match (base, meta_extra) {
        (Json::Obj(b), Json::Obj(e)) => Json::Obj(merge_maps(b, e)),
        _ => meta_extra.copy(),
    };
    full.meta = Some(merged);
    full.error = error;
    Some(full)
}

/// An integer as a JSON number.
pub open spec fn json_int(n: i64) -> Json {
    if n >= 0 {
        Json::Num(crate::json::JsonNumber::PosInt(n as u64))
    } else {
        Json::Num(crate::json::JsonNumber::NegInt(n))
    }
}

fn json_int_of(n: i64) -> (j: Json)
    ensures
        j == json_int(n),
{
    if n >= 0 {
        Json::Num(crate::json::JsonNumber::PosInt(n as u64))
    } else {
        Json::Num(crate::json::JsonNumber::NegInt(n))
    }
}

/// The running snapshot of a tool call about to execute: `streaming`, with
/// `meta.started_at` set to `now_ms` (see [`meta_set_ok`]); `None` when the
/// transcript has no node with that id.
pub fn running_parent(context: &Vec<ChatMessage>, tool_call_id: &str, now_ms: i64) -> (r: Option<
    ChatMessage,
>)
    ensures
        ({
            let i = crate::nodes::first_with_id(context@, tool_call_id@);
            if i < 0 {
                r is None
            } else {
                let p = context@[i];
                r matches Some(f) && f.id == p.id && f.parent_id == p.parent_id && f.content
                    == p.content && f.error == p.error && f.status == Some(MessageStatus::Streaming)
                    && meta_set_ok(p.meta, "started_at"@, json_int(now_ms), f.meta)
            }
        }),
{
    let i = crate::nodes::first_with_id_exec(context, tool_call_id);
    if i == context.len() {
        return None;
    }
    let mut running = context[i].copy();
    running.status = Some(MessageStatus::Streaming);
    running.meta = meta_with(&running.meta, "started_at", json_int_of(now_ms));
    Some(running)
}

/// Maximum characters of refused arguments quoted back to the model.
pub const ARGS_PREVIEW_CHARS: usize = 400;

/// The error text of a call whose arguments are not parseable JSON: it
/// says the call was not executed, must not be retried as it is, and
/// quotes the count and the first 400 characters of the raw arguments.
pub open spec fn parse_error_spec(raw: Seq<char>) -> Seq<char> {
    "工具参数 JSON 解析失败（可能被长度上限截断），本次调用未执行。只有完整且可解析的 JSON 参数才会被执行，请勿以相同内容重试。\n参数原文（"@
        + crate::text::dec(raw.len()) + " 字符"@ + (if raw.len() > ARGS_PREVIEW_CHARS {
        "，已截断展示"@
    } else {
        Seq::empty()
    }) + "）："@ + (if raw.len() > ARGS_PREVIEW_CHARS {
        raw.take(ARGS_PREVIEW_CHARS as int)
    } else {
        raw
    })
}

/// The error text of unparseable arguments (see [`parse_error_spec`]).
pub fn parse_error_text(raw: &str) -> (r: String)
    ensures
        r@ == parse_error_spec(raw@),
{
    let v = chars_of(raw);
    let mut out: Vec<char> = Vec::new();
    push_str_chars(
        &mut out,
        "工具参数 JSON 解析失败（可能被长度上限截断），本次调用未执行。只有完整且可解析的 JSON 参数才会被执行，请勿以相同内容重试。\n参数原文（",
    );
    push_decimal(&mut out, v.len() as u64);
    push_str_chars(&mut out, " 字符");
    let truncated = v.len() > ARGS_PREVIEW_CHARS;
    if truncated {
        push_str_chars(&mut out, "，已截断展示");
    }
    push_str_chars(&mut out, "）：");
    let end = if truncated {
        ARGS_PREVIEW_CHARS
    } else {
        v.len()
    };
    crate::text::push_range(&mut out, &v, 0, end);
    proof {
        if !truncated {
            assert(v@.subrange(0, end as int) =~= v@);
        } else {
            assert(v@.subrange(0, end as int) =~= v@.take(ARGS_PREVIEW_CHARS as int));
        }
    }
    assert(out@ =~= parse_error_spec(raw@));
    string_of(out.as_slice())
}

/// `{"content": res}` for a success, `{"error": res}` otherwise: the
/// output handed to the post-use hook.
pub fn post_hook_output(success: bool, res: &str) -> (j: Json)
    ensures
        j matches Json::Obj(mm) && Json::str_of(mm.lookup(
            if success {
                "content"@
            } else {
                "error"@
            },
        )) == Some(res@),
{
    let k = if success {
        "content"
    } else {
        "error"
    };
    let m = meta_with(&None, k, Json::Str(key(res)));
    m.unwrap()
}

} // verus!

verus! {

/// One tool call as the model issued it.
pub struct ToolCallInfo {
    /// Node id of the call.
    pub id: Option<String>,
    /// Provider wire id.
    pub wire_id: Option<String>,
    pub name: Option<String>,
    pub arguments: Json,
    /// The raw arguments, when they did not parse as JSON.
    pub parse_error: Option<String>,
}

/// The verdict of the pre-use hook.
pub struct HookVerdict {
    pub should_proceed: bool,
    pub block_reason: Option<String>,
}

/// The default reason of a blocked call.
pub const DEFAULT_BLOCK_REASON: &'static str = "Blocked by pre hook";

/// Whether a string is not blank.
fn non_blank(s: &str) -> (b: bool)
    ensures
        b == (crate::text::trim(s@).len() > 0),
{
    let v = chars_of(s);
    let (b, e) = crate::text::trim_indices(&v, 0, v.len());
    assert(v@.subrange(0, v@.len() as int) =~= v@);
    b < e
}

/// Whether an optional id or name is present and not blank.
pub open spec fn valid_opt(s: Option<String>) -> bool {
    s matches Some(x) && crate::text::trim(x@).len() > 0
}

/// The ids of the calls that have a valid id, in order.
pub open spec fn batch_ids_of(calls: Seq<ToolCallInfo>) -> Seq<Seq<char>>
    decreases calls.len(),
{
    if calls.len() == 0 {
        Seq::empty()
    } else {
        let r = batch_ids_of(calls.drop_last());
        if valid_opt(calls.last().id) {
            r.push(calls.last().id->0@)
        } else {
            r
        }
    }
}

/// A failed-call snapshot built from nothing: the tool call node itself,
/// completed, with the error.
pub open spec fn bare_failed_call_ok(m: ChatMessage, tool_call_id: Seq<char>, error_text: Seq<char>) -> bool {
    &&& m.id@ == tool_call_id
    &&& m.role == Some(MessageRole::Assistant)
    &&& m.msg_type == Some(MessageType::ToolCall)
    &&& m.status == Some(MessageStatus::Completed)
    &&& m.error matches Some(e) && e@ == error_text
    &&& failure_meta_ok(m.meta, FAILURE_ERROR@)
}

/// The two nodes of a call refused for a protocol error: a completed
/// result node `Error: <text>` under the call, and the call's final
/// snapshot (from the transcript when it is there, else built from the
/// id), completed with `failure_kind = error` and the error text.
pub fn protocol_failure(context: &Vec<ChatMessage>, tool_call_id: &str, error_text: &str) -> (r: (
    ChatMessage,
    ChatMessage,
))
    ensures
        r.0.parent_id matches Some(p) && p@ == tool_call_id@,
        r.0.role == Some(MessageRole::Tool),
        r.0.status == Some(MessageStatus::Completed),
        r.0.content matches Some(MessageContent::Text(t)) && t@ == "Error: "@ + error_text@,
        ({
            let i = crate::nodes::first_with_id(context@, tool_call_id@);
            if i < 0 {
                bare_failed_call_ok(r.1, tool_call_id@, error_text@)
            } else {
                let p = context@[i];
                &&& r.1.id == p.id
                &&& r.1.status == Some(MessageStatus::Completed)
                &&& marked_meta(p.meta, FAILURE_ERROR@, r.1.meta)
                &&& r.1.error matches Some(e) && e@ == error_text@
            }
        }),
        r.1.id@ == tool_call_id@,
{
    let mut t: Vec<char> = Vec::new();
    push_str_chars(&mut t, "Error: ");
    push_str_chars(&mut t, error_text);
    let text = string_of(t.as_slice());
    let mut tool_msg = build_tool_message(tool_call_id, text.as_str(), Some(false), new_uuid());
    tool_msg.status = Some(MessageStatus::Completed);
    let i = crate::nodes::first_with_id_exec(context, tool_call_id);
    proof {
        crate::nodes::lemma_first_with_id(context@, tool_call_id@);
    }
    let parent = if i < context.len() {
        let mut full = context[i].copy();
        full.status = Some(MessageStatus::Completed);
        let ghost om = full.meta;
        let m1 = meta_with(&full.meta, "success", Json::Bool(false));
        let m2 = meta_with(&m1, "failure_kind", Json::Str(key(FAILURE_ERROR)));
        proof {
            reveal_strlit("success");
            reveal_strlit("failure_kind");
            assert("success"@.len() == 7);
            assert("failure_kind"@.len() == 12);
        }
        full.meta = m2;
        full.error = Some(key(error_text));
        full
    } else {
        let mut m = ChatMessage::with_id(key(tool_call_id));
        m.role = Some(MessageRole::Assistant);
        m.msg_type = Some(MessageType::ToolCall);
        m.status = Some(MessageStatus::Completed);
        m.error = Some(key(error_text));
        m.meta = Some(failure_object(FAILURE_ERROR));
        m
    };
    (tool_msg, parent)
}

/// What the batch asks for next.
#[derive(Debug)]
pub enum BatchStep {
    /// Nothing more to run: close the batch.
    Done,
    /// Record the call as failed (protocol error); `None`: the call has no
    /// valid id and a fresh one is used.
    Refuse { tool_call_id: Option<String>, error_text: String },
    /// Run the pre-use hook, then the tool.
    Run { call_id: String, name: String, arguments: Json },
}

/// The error text of a call without a valid id.
pub const MISSING_ID_TEXT: &'static str = "模型未返回有效的工具调用 ID（协议错误）";

/// The error text of a call without a valid name.
pub const MISSING_NAME_TEXT: &'static str = "模型未返回有效的工具名称（协议错误）";

/// Whether the last final snapshot stops an interactive batch: it waits
/// for the user, or its `failure_kind` is pending or `error`.
pub open spec fn blocks_batch(p: ChatMessage) -> bool {
    p.status == Some(MessageStatus::WaitingUserAction) || match p.meta {
        Some(m) => match Json::str_of(m.field("failure_kind"@)) {
            Some(k) => is_pending_kind(k) || k == FAILURE_ERROR@,
            None => false,
        },
        None => false,
    }
}

fn blocks_batch_exec(p: &ChatMessage) -> (b: bool)
    ensures
        b == blocks_batch(*p),
{
    if matches!(p.status, Some(MessageStatus::WaitingUserAction)) {
        return true;
    }
    match &p.meta {
        Some(m) => match m.get_str("failure_kind") {
            Some(k) => is_pending(k.as_str()) || crate::json::str_eq(k.as_str(), FAILURE_ERROR),
            None => false,
        },
        None => false,
    }
}

/// Whether some message hangs under `id`.
pub open spec fn has_result_for(ms: Seq<ChatMessage>, id: Seq<char>) -> bool {
    exists|t: int| 0 <= t < ms.len() && is_result_for(#[trigger] ms[t], id)
}

/// Whether `m` is a result node of call `id`: a tool-role node under it.
pub open spec fn is_result_for(m: ChatMessage, id: Seq<char>) -> bool {
    hangs_under(m, id) && m.role == Some(MessageRole::Tool)
}

/// Whether `m` hangs under `id`.
pub open spec fn hangs_under(m: ChatMessage, id: Seq<char>) -> bool {
    m.parent_id matches Some(p) && p@ == id
}

/// Whether some message has id `id`.
pub open spec fn has_node(ms: Seq<ChatMessage>, id: Seq<char>) -> bool {
    exists|t: int| 0 <= t < ms.len() && (#[trigger] ms[t]).id@ == id
}

/// A call that has come to rest: completed, or waiting for the user.
pub open spec fn settled(m: ChatMessage) -> bool {
    m.status == Some(MessageStatus::Completed) || m.status == Some(MessageStatus::WaitingUserAction)
}

/// `m` is the result node of call `id` closed as not executed.
pub open spec fn unexecuted_result_ok(m: ChatMessage, id: Seq<char>) -> bool {
    &&& hangs_under(m, id)
    &&& m.role == Some(MessageRole::Tool)
    &&& m.status == Some(MessageStatus::Completed)
    &&& m.content matches Some(MessageContent::Text(t)) && t@ == SKIPPED_TEXT@
    &&& failure_meta_ok(m.meta, FAILURE_NOT_EXECUTED@)
}

/// `p` is the final snapshot of call `id` closed as not executed: the
/// transcript's node of the call (none when the transcript lacks it),
/// completed, without error, with `{"success": false, "failure_kind":
/// "not_executed"}` merged into its meta.
pub open spec fn unexecuted_snapshot_ok(context: Seq<ChatMessage>, id: Seq<char>, p: Option<ChatMessage>) -> bool {
    let i = crate::nodes::first_with_id(context, id);
    if i < 0 {
        p is None
    } else {
        let c = context[i];
        p matches Some(f) && f.id == c.id && f.parent_id == c.parent_id && f.role == c.role
            && f.msg_type == c.msg_type && f.name == c.name && f.tool_call_id == c.tool_call_id
            && f.seq == c.seq && f.timestamp == c.timestamp && f.content == c.content && f.delta
            == c.delta && f.prompt == c.prompt && f.status == Some(MessageStatus::Completed)
            && f.error is None && exists|x: Json| #[trigger]
            is_failure_object(x, FAILURE_NOT_EXECUTED@) && f.meta == Some(finalized_meta(c.meta, x))
    }
}

/// The calls `finish` closes, in order, among the first `n` ids: a call is
/// closed unless it already has a final snapshot, either from before or
/// from an earlier close of the same id that the transcript holds.
pub open spec fn closing_ids(ids: Seq<Seq<char>>, finals: Seq<ChatMessage>, context: Seq<ChatMessage>, n: int) -> Seq<Seq<char>>
    decreases n,
{
    if n <= 0 {
        Seq::empty()
    } else {
        let c = closing_ids(ids, finals, context, n - 1);
        let id = ids[n - 1];
        if has_node(finals, id) || (c.contains(id) && crate::nodes::first_with_id(context, id) >= 0) {
            c
        } else {
            c.push(id)
        }
    }
}

/// A batch none of whose calls has a final snapshot yet, with distinct call
/// ids, is closed call by call: `finish` closes every call exactly once, in
/// order (so each gets exactly one result node and, when the transcript
/// holds it, exactly one final snapshot).
pub proof fn lemma_unrecorded_calls_close_once(ids: Seq<Seq<char>>, context: Seq<ChatMessage>, n: int)
    requires
        0 <= n <= ids.len(),
        forall|a: int, b: int| 0 <= a < b < ids.len() ==> ids[a] != ids[b],
    ensures
        closing_ids(ids, Seq::empty(), context, n) == ids.take(n),
    decreases n,
{
    if n > 0 {
        lemma_unrecorded_calls_close_once(ids, context, n - 1);
        let c = ids.take(n - 1);
        if c.contains(ids[n - 1]) {
            let t = choose|t: int| 0 <= t < c.len() && c[t] == ids[n - 1];
            assert(ids[t] == ids[n - 1]);
        }
        assert(!has_node(Seq::<ChatMessage>::empty(), ids[n - 1]));
        assert(c.push(ids[n - 1]) =~= ids.take(n));
    }
}

/// The present values, in order.
pub open spec fn somes(s: Seq<Option<ChatMessage>>) -> Seq<ChatMessage>
    decreases s.len(),
{
    if s.len() == 0 {
        Seq::empty()
    } else {
        let r = somes(s.drop_last());
        match s.last() {
            Some(x) => r.push(x),
            None => r,
        }
    }
}

/// How many result nodes of call `id` `ms` holds.
pub open spec fn results_for(ms: Seq<ChatMessage>, id: Seq<char>) -> nat
    decreases ms.len(),
{
    if ms.len() == 0 {
        0
    } else {
        results_for(ms.drop_last(), id) + if is_result_for(ms.last(), id) {
            1nat
        } else {
            0nat
        }
    }
}

/// How many snapshots of call `id` `ms` holds.
pub open spec fn finals_for(ms: Seq<ChatMessage>, id: Seq<char>) -> nat
    decreases ms.len(),
{
    if ms.len() == 0 {
        0
    } else {
        finals_for(ms.drop_last(), id) + if ms.last().id@ == id {
            1nat
        } else {
            0nat
        }
    }
}

/// How many times `x` occurs in `s`.
pub open spec fn occurrences(s: Seq<Seq<char>>, x: Seq<char>) -> nat
    decreases s.len(),
{
    if s.len() == 0 {
        0
    } else {
        occurrences(s.drop_last(), x) + if s.last() == x {
            1nat
        } else {
            0nat
        }
    }
}

proof fn lemma_results_for_add(a: Seq<ChatMessage>, b: Seq<ChatMessage>, id: Seq<char>)
    ensures
        results_for(a + b, id) == results_for(a, id) + results_for(b, id),
    decreases b.len(),
{
    if b.len() == 0 {
        assert(a + b =~= a);
    } else {
        lemma_results_for_add(a, b.drop_last(), id);
        assert((a + b).drop_last() =~= a + b.drop_last());
        assert((a + b).last() == b.last());
    }
}

proof fn lemma_finals_for_add(a: Seq<ChatMessage>, b: Seq<ChatMessage>, id: Seq<char>)
    ensures
        finals_for(a + b, id) == finals_for(a, id) + finals_for(b, id),
    decreases b.len(),
{
    if b.len() == 0 {
        assert(a + b =~= a);
    } else {
        lemma_finals_for_add(a, b.drop_last(), id);
        assert((a + b).drop_last() =~= a + b.drop_last());
        assert((a + b).last() == b.last());
    }
}

proof fn lemma_finals_for_has_node(ms: Seq<ChatMessage>, id: Seq<char>)
    ensures
        has_node(ms, id) <==> finals_for(ms, id) > 0,
    decreases ms.len(),
{
    if ms.len() > 0 {
        let d = ms.drop_last();
        lemma_finals_for_has_node(d, id);
        if has_node(ms, id) && ms.last().id@ != id {
            let t = choose|t: int| 0 <= t < ms.len() && (#[trigger] ms[t]).id@ == id;
            assert(d[t] == ms[t]);
        }
        if has_node(d, id) {
            let t = choose|t: int| 0 <= t < d.len() && (#[trigger] d[t]).id@ == id;
            assert(ms[t] == d[t]);
        }
        if ms.last().id@ == id {
            assert(ms[ms.len() - 1] == ms.last());
        }
    }
}

proof fn lemma_occurrences_contains(s: Seq<Seq<char>>, x: Seq<char>)
    ensures
        s.contains(x) <==> occurrences(s, x) > 0,
    decreases s.len(),
{
    if s.len() > 0 {
        let d = s.drop_last();
        lemma_occurrences_contains(d, x);
        if s.contains(x) && s.last() != x {
            let t = choose|t: int| 0 <= t < s.len() && s[t] == x;
            assert(d[t] == s[t]);
        }
        if d.contains(x) {
            let t = choose|t: int| 0 <= t < d.len() && d[t] == x;
            assert(s[t] == d[t]);
        }
        if s.last() == x {
            assert(s[s.len() - 1] == x);
        }
    }
}

proof fn lemma_closing_count(
    ids: Seq<Seq<char>>,
    finals: Seq<ChatMessage>,
    context: Seq<ChatMessage>,
    n: int,
    x: Seq<char>,
)
    requires
        0 <= n <= ids.len(),
        forall|a: int, b: int| 0 <= a < b < ids.len() ==> ids[a] != ids[b],
    ensures
        occurrences(closing_ids(ids, finals, context, n), x) == (if ids.take(n).contains(x)
            && !has_node(finals, x) {
            1nat
        } else {
            0nat
        }),
    decreases n,
{
    if n > 0 {
        let c = closing_ids(ids, finals, context, n - 1);
        let id = ids[n - 1];
        lemma_closing_count(ids, finals, context, n - 1, x);
        lemma_closing_count(ids, finals, context, n - 1, id);
        lemma_occurrences_contains(c, id);
        assert(ids.take(n).drop_last() =~= ids.take(n - 1));
        assert(ids.take(n)[n - 1] == id);
        if ids.take(n - 1).contains(id) {
            let t = choose|t: int| 0 <= t < n - 1 && #[trigger] ids.take(n - 1)[t] == id;
            assert(ids[t] == ids[n - 1]);
        }
        assert(ids.take(n).contains(x) <==> (ids.take(n - 1).contains(x) || x == id)) by {
            if ids.take(n).contains(x) && x != id {
                let t = choose|t: int| 0 <= t < n && #[trigger] ids.take(n)[t] == x;
                assert(ids.take(n - 1)[t] == x);
            }
            if ids.take(n - 1).contains(x) {
                let t = choose|t: int| 0 <= t < n - 1 && #[trigger] ids.take(n - 1)[t] == x;
                assert(ids.take(n)[t] == x);
            }
            if x == id {
                assert(ids.take(n)[n - 1] == x);
            }
        }
        if !(has_node(finals, id) || (c.contains(id) && crate::nodes::first_with_id(context, id)
            >= 0)) {
            assert(c.push(id).drop_last() =~= c);
        }
    }
}

proof fn lemma_closing_results(out: Seq<(ChatMessage, Option<ChatMessage>)>, cl: Seq<Seq<char>>, x: Seq<char>)
    requires
        out.len() == cl.len(),
        forall|k: int| 0 <= k < out.len() ==> unexecuted_result_ok(#[trigger] out[k].0, cl[k]),
    ensures
        results_for(out.map_values(|e: (ChatMessage, Option<ChatMessage>)| e.0), x) == occurrences(
            cl,
            x,
        ),
    decreases out.len(),
{
    if out.len() > 0 {
        let d = out.drop_last();
        lemma_closing_results(d, cl.drop_last(), x);
        let m = out.map_values(|e: (ChatMessage, Option<ChatMessage>)| e.0);
        assert(m.drop_last() =~= d.map_values(|e: (ChatMessage, Option<ChatMessage>)| e.0));
        assert(m.last() == out[out.len() - 1].0);
        assert(unexecuted_result_ok(out[out.len() - 1].0, cl[cl.len() - 1]));
    }
}

proof fn lemma_closing_finals(
    out: Seq<(ChatMessage, Option<ChatMessage>)>,
    cl: Seq<Seq<char>>,
    context: Seq<ChatMessage>,
    x: Seq<char>,
)
    requires
        out.len() == cl.len(),
        forall|k: int|
            0 <= k < out.len() ==> unexecuted_snapshot_ok(context, cl[k], #[trigger] out[k].1)
                && crate::nodes::first_with_id(context, cl[k]) >= 0,
    ensures
        finals_for(somes(out.map_values(|e: (ChatMessage, Option<ChatMessage>)| e.1)), x)
            == occurrences(cl, x),
    decreases out.len(),
{
    if out.len() > 0 {
        let d = out.drop_last();
        lemma_closing_finals(d, cl.drop_last(), context, x);
        let m = out.map_values(|e: (ChatMessage, Option<ChatMessage>)| e.1);
        assert(m.drop_last() =~= d.map_values(|e: (ChatMessage, Option<ChatMessage>)| e.1));
        let k = out.len() - 1;
        assert(m.last() == out[k].1);
        assert(unexecuted_snapshot_ok(context, cl[k], out[k].1));
        crate::nodes::lemma_first_with_id(context, cl[k]);
        let f = out[k].1->0;
        assert(somes(m) == somes(m.drop_last()).push(f));
        assert(somes(m).drop_last() =~= somes(m.drop_last()));
        assert(somes(m).last() == f);
        assert(f.id@ == cl[k]);
    }
}

/// Recording a call adds one result node of it and, with its final
/// snapshot, one snapshot of it; no other call's counts change.
pub proof fn lemma_recording_counts(
    results: Seq<ChatMessage>,
    finals: Seq<ChatMessage>,
    r: ChatMessage,
    f: Option<ChatMessage>,
    id: Seq<char>,
    x: Seq<char>,
)
    requires
        is_result_for(r, id),
        f matches Some(p) ==> p.id@ == id,
    ensures
        results_for(results.push(r), x) == results_for(results, x) + (if x == id {
            1nat
        } else {
            0nat
        }),
        finals_for(
            match f {
                Some(p) => finals.push(p),
                None => finals,
            },
            x,
        ) == finals_for(finals, x) + (if f is Some && x == id {
            1nat
        } else {
            0nat
        }),
{
    assert(results.push(r).drop_last() =~= results);
    if let Some(p) = f {
        assert(finals.push(p).drop_last() =~= finals);
    }
}

/// A batch whose calls have distinct ids that the transcript holds, each
/// recorded at most once (its result node together with its final
/// snapshot), ends, once `finish` has closed the rest, with exactly one
/// result node and exactly one final snapshot of every call.
pub proof fn lemma_batch_ends_once_per_call(
    ids: Seq<Seq<char>>,
    results: Seq<ChatMessage>,
    finals: Seq<ChatMessage>,
    context: Seq<ChatMessage>,
    out: Seq<(ChatMessage, Option<ChatMessage>)>,
)
    requires
        forall|a: int, b: int| 0 <= a < b < ids.len() ==> ids[a] != ids[b],
        forall|k: int| 0 <= k < ids.len() ==> crate::nodes::first_with_id(context, #[trigger] ids[k]) >= 0,
        forall|k: int|
            0 <= k < ids.len() ==> results_for(results, #[trigger] ids[k]) == finals_for(finals, ids[k])
                && finals_for(finals, ids[k]) <= 1,
        out.len() == closing_ids(ids, finals, context, ids.len() as int).len(),
        forall|k: int|
            0 <= k < out.len() ==> unexecuted_result_ok(
                #[trigger] out[k].0,
                closing_ids(ids, finals, context, ids.len() as int)[k],
            ) && unexecuted_snapshot_ok(
                context,
                closing_ids(ids, finals, context, ids.len() as int)[k],
                out[k].1,
            ),
    ensures
        forall|k: int|
            0 <= k < ids.len() ==> results_for(
                results + out.map_values(|e: (ChatMessage, Option<ChatMessage>)| e.0),
                #[trigger] ids[k],
            ) == 1 && finals_for(
                finals + somes(out.map_values(|e: (ChatMessage, Option<ChatMessage>)| e.1)),
                ids[k],
            ) == 1,
{
    let n = ids.len() as int;
    let cl = closing_ids(ids, finals, context, n);
    assert(ids.take(n) =~= ids);
    assert forall|k: int| 0 <= k < cl.len() implies crate::nodes::first_with_id(context, cl[k]) >= 0 by {
        lemma_closing_count(ids, finals, context, n, cl[k]);
        lemma_occurrences_contains(cl, cl[k]);
        assert(cl.contains(cl[k]));
        let t = choose|t: int| 0 <= t < ids.len() && ids[t] == cl[k];
        assert(crate::nodes::first_with_id(context, ids[t]) >= 0);
    }
    assert forall|k: int| 0 <= k < out.len() implies unexecuted_snapshot_ok(context, cl[k], #[trigger] out[k].1)
        && crate::nodes::first_with_id(context, cl[k]) >= 0 by {
        assert(unexecuted_result_ok(out[k].0, cl[k]));
    }
    assert forall|k: int| 0 <= k < ids.len() implies results_for(
        results + out.map_values(|e: (ChatMessage, Option<ChatMessage>)| e.0),
        #[trigger] ids[k],
    ) == 1 && finals_for(
        finals + somes(out.map_values(|e: (ChatMessage, Option<ChatMessage>)| e.1)),
        ids[k],
    ) == 1 by {
        let x = ids[k];
        assert(ids.contains(x));
        lemma_closing_count(ids, finals, context, n, x);
        lemma_closing_results(out, cl, x);
        lemma_closing_finals(out, cl, context, x);
        lemma_results_for_add(results, out.map_values(|e: (ChatMessage, Option<ChatMessage>)| e.0), x);
        lemma_finals_for_add(finals, somes(out.map_values(|e: (ChatMessage, Option<ChatMessage>)| e.1)), x);
        lemma_finals_for_has_node(finals, x);
    }
}

/// One batch of tool calls, processed in order.
pub struct ToolBatch {
    calls: Vec<ToolCallInfo>,
    next: usize,
    interactive: bool,
    stopped: bool,
    batch_ids: Vec<String>,
    /// Result nodes, in order.
    tool_messages: Vec<ChatMessage>,
    /// Final snapshots of the calls, in order.
    parent_updates: Vec<ChatMessage>,
}

impl ToolBatch {
    /// The ids of the batch's calls with a valid id.
    pub closed spec fn ids(&self) -> Seq<Seq<char>> {
        self.batch_ids@.map_values(|s: String| s@)
    }

    pub closed spec fn results(&self) -> Seq<ChatMessage> {
        self.tool_messages@
    }

    pub closed spec fn finals(&self) -> Seq<ChatMessage> {
        self.parent_updates@
    }

    pub closed spec fn calls(&self) -> Seq<ToolCallInfo> {
        self.calls@
    }

    pub closed spec fn position(&self) -> int {
        self.next as int
    }

    pub closed spec fn is_interactive(&self) -> bool {
        self.interactive
    }

    pub closed spec fn is_stopped(&self) -> bool {
        self.stopped
    }

    /// Every final snapshot has a result node under its id.
    pub closed spec fn wf(&self) -> bool {
        &&& self.next <= self.calls@.len()
        &&& forall|t: int|
            0 <= t < self.parent_updates@.len() ==> has_result_for(
                self.tool_messages@,
                (#[trigger] self.parent_updates@[t]).id@,
            )
        &&& forall|t: int| 0 <= t < self.parent_updates@.len() ==> settled(#[trigger] self.parent_updates@[t])
    }

    /// A batch over `calls`; `interactive`: the user handles each call in
    /// turn, so a call that waits or fails stops the rest.
    pub fn new(calls: Vec<ToolCallInfo>, interactive: bool) -> (b: Self)
        ensures
            b.wf(),
            b.ids() == batch_ids_of(calls@),
            b.calls() == calls@,
            b.position() == 0,
            !b.is_stopped(),
            b.is_interactive() == interactive,
            b.results() == Seq::<ChatMessage>::empty(),
            b.finals() == Seq::<ChatMessage>::empty(),
    {
        let mut ids: Vec<String> = Vec::new();
        let mut i: usize = 0;
        assert(calls@.take(0) =~= Seq::<ToolCallInfo>::empty());
        while i < calls.len()
            invariant
                i <= calls.len(),
                ids@.map_values(|s: String| s@) == batch_ids_of(calls@.take(i as int)),
            decreases calls.len() - i,
        {
            assert(calls@.take(i + 1 as int).drop_last() =~= calls@.take(i as int));
            match &calls[i].id {
                Some(id) => {
                    if non_blank(id.as_str()) {
                        let ghost before = ids@;
                        ids.push(id.clone());
                        assert(ids@.map_values(|s: String| s@) =~= before.map_values(
                            |s: String| s@,
                        ).push(id@));
                    }
                },
                None => {},
            }
            i = i + 1;
        }
        assert(calls@.take(calls@.len() as int) =~= calls@);
        ToolBatch {
            calls,
            next: 0,
            interactive,
            stopped: false,
            batch_ids: ids,
            tool_messages: Vec::new(),
            parent_updates: Vec::new(),
        }
    }

    /// The next step. An abort, or (interactive) a last call that waits or
    /// failed, stops the batch; otherwise the next call is refused when its
    /// id or name is missing or its arguments did not parse, and run
    /// otherwise.
    pub fn next_step(&mut self, aborted: bool) -> (s: BatchStep)
        requires
            old(self).wf(),
        ensures
            final(self).wf(),
            final(self).ids() == old(self).ids(),
            final(self).calls() == old(self).calls(),
            final(self).results() == old(self).results(),
            final(self).finals() == old(self).finals(),
            final(self).is_interactive() == old(self).is_interactive(),
            ({
                let stop = old(self).is_stopped() || old(self).position() >= old(self).calls().len()
                    || aborted || (old(self).is_interactive() && old(self).finals().len() > 0
                    && blocks_batch(old(self).finals().last()));
                if stop {
                    s is Done && final(self).position() == old(self).position()
                } else {
                    let tc = old(self).calls()[old(self).position()];
                    &&& final(self).position() == old(self).position() + 1
                    &&& !final(self).is_stopped()
                    &&& !valid_opt(tc.id) ==> (s matches BatchStep::Refuse { tool_call_id, error_text }
                        && tool_call_id is None && error_text@ == MISSING_ID_TEXT@)
                    &&& valid_opt(tc.id) && !valid_opt(tc.name) ==> (s matches BatchStep::Refuse {
                        tool_call_id,
                        error_text,
                    } && tool_call_id == tc.id && error_text@ == MISSING_NAME_TEXT@)
                    &&& valid_opt(tc.id) && valid_opt(tc.name) && tc.parse_error is Some ==> (s matches BatchStep::Refuse {
                        tool_call_id,
                        error_text,
                    } && tool_call_id == tc.id && error_text@ == parse_error_spec(
                        tc.parse_error->0@,
                    ))
                    &&& valid_opt(tc.id) && valid_opt(tc.name) && tc.parse_error is None ==> (s matches BatchStep::Run {
                        call_id,
                        name,
                        arguments,
                    } && call_id == tc.id->0 && name == tc.name->0 && arguments == tc.arguments)
                }
            }),
    {
        if self.stopped || self.next >= self.calls.len() {
            return BatchStep::Done;
        }
        if aborted {
            self.stopped = true;
            return BatchStep::Done;
        }
        if self.interactive && self.parent_updates.len() > 0 {
            let n = self.parent_updates.len();
            if blocks_batch_exec(&self.parent_updates[n - 1]) {
                self.stopped = true;
                return BatchStep::Done;
            }
        }
        let i = self.next;
        self.next = self.next + 1;
        let tc = &self.calls[i];
        let id = match &tc.id {
            Some(id) => {
                if non_blank(id.as_str()) {
                    id.clone()
                } else {
                    return BatchStep::Refuse {
                        tool_call_id: None,
                        error_text: key(MISSING_ID_TEXT),
                    };
                }
            },
            None => {
                return BatchStep::Refuse { tool_call_id: None, error_text: key(MISSING_ID_TEXT) };
            },
        };
        let name = match &tc.name {
            Some(n) => {
                if non_blank(n.as_str()) {
                    n.clone()
                } else {
                    return BatchStep::Refuse {
                        tool_call_id: Some(id),
                        error_text: key(MISSING_NAME_TEXT),
                    };
                }
            },
            None => {
                return BatchStep::Refuse {
                    tool_call_id: Some(id),
                    error_text: key(MISSING_NAME_TEXT),
                };
            },
        };
        match &tc.parse_error {
            Some(raw) => {
                return BatchStep::Refuse {
                    tool_call_id: Some(id),
                    error_text: parse_error_text(raw.as_str()),
                };
            },
            None => {},
        }
        BatchStep::Run { call_id: id, name, arguments: tc.arguments.copy() }
    }
}

} // verus!

verus! {

/// Whether a node with id `id` is among `ms` (exec).
fn has_node_exec(ms: &Vec<ChatMessage>, id: &str) -> (b: bool)
    ensures
        b == has_node(ms@, id@),
{
    let mut i: usize = 0;
    while i < ms.len()
        invariant
            i <= ms.len(),
            forall|t: int| 0 <= t < i ==> ms@[t].id@ != id@,
        decreases ms.len() - i,
    {
        if crate::json::str_eq(ms[i].id.as_str(), id) {
            return true;
        }
        i = i + 1;
    }
    false
}

proof fn lemma_result_kept(ms: Seq<ChatMessage>, m: ChatMessage, id: Seq<char>)
    requires
        has_result_for(ms, id),
    ensures
        has_result_for(ms.push(m), id),
{
    let t = choose|t: int| 0 <= t < ms.len() && is_result_for(#[trigger] ms[t], id);
    assert(ms.push(m)[t] == ms[t]);
}

proof fn lemma_result_pushed(ms: Seq<ChatMessage>, m: ChatMessage, id: Seq<char>)
    requires
        is_result_for(m, id),
    ensures
        has_result_for(ms.push(m), id),
{
    assert(ms.push(m)[ms.len() as int] == m);
}

impl ToolBatch {
    /// Appends a result node and, when present, a final snapshot of the
    /// same call.
    fn push_pair(&mut self, t: &ChatMessage, p: &Option<ChatMessage>, Ghost(id): Ghost<Seq<char>>)
        requires
            old(self).wf(),
            is_result_for(*t, id),
            p matches Some(x) ==> x.id@ == id && settled(*x),
        ensures
            final(self).wf(),
            final(self).results() == old(self).results().push(*t),
            final(self).finals() == (match *p {
                Some(x) => old(self).finals().push(x),
                None => old(self).finals(),
            }),
            final(self).ids() == old(self).ids(),
            final(self).calls() == old(self).calls(),
            final(self).position() == old(self).position(),
            final(self).is_stopped() == old(self).is_stopped(),
            final(self).is_interactive() == old(self).is_interactive(),
            final(self).batch_ids == old(self).batch_ids,
            final(self).parent_updates@.len() >= old(self).parent_updates@.len(),
    {
        let ghost r0 = self.tool_messages@;
        self.tool_messages.push(t.copy());
        proof {
            lemma_result_pushed(r0, *t, id);
            assert forall|k: int| 0 <= k < self.parent_updates@.len() implies has_result_for(
                self.tool_messages@,
                (#[trigger] self.parent_updates@[k]).id@,
            ) by {
                lemma_result_kept(r0, *t, self.parent_updates@[k].id@);
            }
        }
        match p {
            Some(x) => {
                let ghost f0 = self.parent_updates@;
                self.parent_updates.push(x.copy());
                assert forall|k: int| 0 <= k < self.parent_updates@.len() implies has_result_for(
                    self.tool_messages@,
                    (#[trigger] self.parent_updates@[k]).id@,
                ) by {
                    if k < f0.len() {
                        assert(self.parent_updates@[k] == f0[k]);
                    }
                }
            },
            None => {},
        }
    }

    /// Records a call refused for a protocol error (see
    /// [`protocol_failure`]); a call without an id gets a fresh one. Returns
    /// the result node and the final snapshot to deliver.
    pub fn record_refusal(
        &mut self,
        tool_call_id: Option<String>,
        error_text: &str,
        context: &Vec<ChatMessage>,
    ) -> (r: (ChatMessage, ChatMessage))
        requires
            old(self).wf(),
        ensures
            final(self).wf(),
            final(self).results() == old(self).results().push(r.0),
            final(self).finals() == old(self).finals().push(r.1),
            r.0.status == Some(MessageStatus::Completed),
            r.0.content matches Some(MessageContent::Text(t)) && t@ == "Error: "@ + error_text@,
            r.1.status == Some(MessageStatus::Completed),
            r.1.error matches Some(e) && e@ == error_text@,
            tool_call_id matches Some(id) ==> r.1.id@ == id@ && hangs_under(r.0, id@),
            hangs_under(r.0, r.1.id@),
            r.0.role == Some(MessageRole::Tool),
            tool_call_id is None ==> r.1.id@.len() == 36,
            ({
                let i = crate::nodes::first_with_id(context@, r.1.id@);
                if i < 0 {
                    bare_failed_call_ok(r.1, r.1.id@, error_text@)
                } else {
                    r.1.id == context@[i].id && marked_meta(context@[i].meta, FAILURE_ERROR@, r.1.meta)
                }
            }),
            final(self).ids() == old(self).ids(),
            final(self).calls() == old(self).calls(),
            final(self).position() == old(self).position(),
            final(self).is_stopped() == old(self).is_stopped(),
            final(self).is_interactive() == old(self).is_interactive(),
    {
        let id = match tool_call_id {
            Some(x) => x,
            None => new_uuid(),
        };
        let (t, p) = protocol_failure(context, id.as_str(), error_text);
        proof {
            crate::nodes::lemma_first_with_id(context@, id@);
        }
        self.push_pair(&t, &Some(p.copy()), Ghost(id@));
        (t, p)
    }

    /// Records a call the pre-use hook blocked: a result node
    /// `Blocked: <reason>` (failed) and the call completed with
    /// `failure_kind = blocked`.
    pub fn record_blocked(
        &mut self,
        call_id: &str,
        block_reason: Option<String>,
        context: &Vec<ChatMessage>,
    ) -> (r: (ChatMessage, Option<ChatMessage>))
        requires
            old(self).wf(),
        ensures
            final(self).wf(),
            final(self).results() == old(self).results().push(r.0),
            final(self).finals() == (match r.1 {
                Some(x) => old(self).finals().push(x),
                None => old(self).finals(),
            }),
            is_result_for(r.0, call_id@),
            r.0.content matches Some(MessageContent::Text(t)) && t@ == "Blocked: "@ + (match block_reason {
                Some(b) => b@,
                None => DEFAULT_BLOCK_REASON@,
            }),
            r.0.status == Some(MessageStatus::Failed),
            r.1 matches Some(x) ==> x.id@ == call_id@ && x.status == Some(MessageStatus::Completed)
                && failure_meta_ok(x.meta, FAILURE_BLOCKED@),
            (r.1 is None) == (crate::nodes::first_with_id(context@, call_id@) < 0),
            final(self).ids() == old(self).ids(),
            final(self).calls() == old(self).calls(),
            final(self).position() == old(self).position(),
            final(self).is_stopped() == old(self).is_stopped(),
            final(self).is_interactive() == old(self).is_interactive(),
    {
        let mut v: Vec<char> = Vec::new();
        push_str_chars(&mut v, "Blocked: ");
        match &block_reason {
            Some(b) => push_str_chars(&mut v, b.as_str()),
            None => push_str_chars(&mut v, DEFAULT_BLOCK_REASON),
        }
        let text = string_of(v.as_slice());
        let t = build_tool_message(call_id, text.as_str(), Some(false), new_uuid());
        let extra = failure_object(FAILURE_BLOCKED);
        let p = finalized_parent(context, call_id, MessageStatus::Completed, &extra, None);
        proof {
            crate::nodes::lemma_first_with_id(context@, call_id@);
            if p is Some {
                merge_keeps_failure(extra, context@[crate::nodes::first_with_id(context@, call_id@)].meta, FAILURE_BLOCKED@);
            }
        }
        self.push_pair(&t, &p, Ghost(call_id@));
        (t, p)
    }
}

/// Merging a failure object into a meta keeps its two fields.
proof fn merge_keeps_failure(extra: Json, old_meta: Option<Json>, kind: Seq<char>)
    requires
        is_failure_object(extra, kind),
    ensures
        failure_meta_ok(Some(finalized_meta(old_meta, extra)), kind),
{
    reveal_strlit("success");
    reveal_strlit("failure_kind");
    assert("success"@.len() == 7);
    assert("failure_kind"@.len() == 12);
    let e = extra->Obj_0;
    let r1 = *(e->Entry_2);
    let v1 = *(e->Entry_1);
    let v2 = *(r1->Entry_1);
    let r2 = *(r1->Entry_2);
    assert(last_lookup(r2, "success"@) is None);
    assert(last_lookup(r2, "failure_kind"@) is None);
    assert(last_lookup(r1, "failure_kind"@) == Some(v2));
    assert(last_lookup(r1, "success"@) is None);
    assert(last_lookup(e, "success"@) == Some(v1));
    assert(last_lookup(e, "failure_kind"@) == Some(v2));
    assert(r1.lookup("failure_kind"@) == Some(v2));
    assert(e.lookup("success"@) == Some(v1));
    assert(e.lookup("failure_kind"@) == Some(v2));
    let base = match old_meta {
        Some(j) => j,
        None => Json::Obj(JsonMap::Nil),
    };
    match base {
        Json::Obj(b) => {
            lemma_merge_lookup(b, e, "success"@);
            lemma_merge_lookup(b, e, "failure_kind"@);
        },
        _ => {},
    }
}

} // verus!

verus! {

/// `{"success": true}`.
pub open spec fn is_success_object(j: Json) -> bool {
    j matches Json::Obj(JsonMap::Entry(k1, v1, r1)) && k1@ == "success"@ && *v1 == Json::Bool(true)
        && *r1 == JsonMap::Nil
}

/// `{"success": false, "failure_kind": "error", "tool_name": name, "args": args}`.
pub open spec fn is_error_object(j: Json, name: Seq<char>, args: Json) -> bool {
    j matches Json::Obj(JsonMap::Entry(k1, v1, r1)) && k1@ == "success"@ && *v1 == Json::Bool(false)
        && (*r1 matches JsonMap::Entry(k2, v2, r2) && k2@ == "failure_kind"@ && (*v2 matches Json::Str(
        t,
    ) && t@ == FAILURE_ERROR@) && (*r2 matches JsonMap::Entry(k3, v3, r3) && k3@ == "tool_name"@
        && (*v3 matches Json::Str(n) && n@ == name) && (*r3 matches JsonMap::Entry(k4, v4, r4) && k4@
        == "args"@ && *v4 == args && *r4 == JsonMap::Nil)))
}

fn success_object() -> (j: Json)
    ensures
        is_success_object(j),
{
    Json::Obj(JsonMap::Entry(key("success"), Box::new(Json::Bool(true)), Box::new(JsonMap::Nil)))
}

fn error_object(name: &str, args: &Json) -> (j: Json)
    ensures
        is_error_object(j, name@, *args),
{
    let r4 = JsonMap::Entry(key("args"), Box::new(args.copy()), Box::new(JsonMap::Nil));
    let r3 = JsonMap::Entry(key("tool_name"), Box::new(Json::Str(key(name))), Box::new(r4));
    let r2 = JsonMap::Entry(key("failure_kind"), Box::new(Json::Str(key(FAILURE_ERROR))), Box::new(r3));
    Json::Obj(JsonMap::Entry(key("success"), Box::new(Json::Bool(false)), Box::new(r2)))
}

/// The meta of a tool result cut by the guard: the truncation flag, the
/// archive path when there is one, and the original token count.
pub open spec fn truncation_meta_ok(meta: Option<Json>, g: GuardedResult, success: bool) -> bool {
    meta matches Some(Json::Obj(mm)) && mm.lookup("success"@) == Some(Json::Bool(success))
        && mm.lookup("tool_result_truncated"@) == Some(Json::Bool(true)) && mm.lookup(
        "origin_tokens"@,
    ) == Some(Json::Num(crate::json::JsonNumber::PosInt(g.original_tokens as u64))) && (match g.archive_path {
        Some(p) => Json::str_of(mm.lookup("archive_path"@)) == Some(p@),
        None => mm.lookup("archive_path"@) is None,
    })
}

impl ToolBatch {
    /// Records a call that waits for the user: its user-prompt node, and
    /// the call waiting with `failure_kind` = the pending kind.
    pub fn record_waiting(
        &mut self,
        call_id: &str,
        pending: &PendingPrompt,
        result_msg_id: &str,
        context: &Vec<ChatMessage>,
    ) -> (r: (ChatMessage, Option<ChatMessage>))
        requires
            old(self).wf(),
        ensures
            final(self).wf(),
            final(self).results() == old(self).results().push(r.0),
            final(self).finals() == (match r.1 {
                Some(x) => old(self).finals().push(x),
                None => old(self).finals(),
            }),
            r.0.id@ == result_msg_id@,
            is_result_for(r.0, call_id@),
            r.0.msg_type == Some(MessageType::UserPrompt),
            r.0.content matches Some(MessageContent::Text(t)) && t@ == pending.text@,
            r.0.meta matches Some(Json::Obj(mm)) && mm.lookup("prompt"@) == Some(pending.prompt)
                && Json::str_of(mm.lookup("failure_kind"@)) == Some(pending.failure_kind@),
            r.0.status == Some(MessageStatus::WaitingUserAction),
            r.1 matches Some(x) ==> x.id@ == call_id@ && x.status == Some(
                MessageStatus::WaitingUserAction,
            ) && failure_meta_ok(x.meta, pending.failure_kind@),
            (r.1 is None) == (crate::nodes::first_with_id(context@, call_id@) < 0),
            final(self).ids() == old(self).ids(),
            final(self).calls() == old(self).calls(),
            final(self).position() == old(self).position(),
            final(self).is_stopped() == old(self).is_stopped(),
            final(self).is_interactive() == old(self).is_interactive(),
    {
        let t = build_user_prompt_message(result_msg_id, call_id, pending);
        let extra = failure_object(pending.failure_kind.as_str());
        let p = finalized_parent(context, call_id, MessageStatus::WaitingUserAction, &extra, None);
        proof {
            crate::nodes::lemma_first_with_id(context@, call_id@);
            if p is Some {
                merge_keeps_failure(
                    extra,
                    context@[crate::nodes::first_with_id(context@, call_id@)].meta,
                    pending.failure_kind@,
                );
            }
        }
        self.push_pair(&t, &p, Ghost(call_id@));
        (t, p)
    }

    /// Records a call that ran: its result node (the guarded text; a
    /// failure is still a completed, informative result; a cut text carries
    /// the truncation fields), and the call completed: `{"success": true}`
    /// merged into its meta, or the error object with the error text.
    pub fn record_finished(
        &mut self,
        call_id: &str,
        name: &str,
        arguments: &Json,
        success: bool,
        res: &str,
        guarded: &GuardedResult,
        result_msg_id: String,
        context: &Vec<ChatMessage>,
    ) -> (r: (ChatMessage, Option<ChatMessage>))
        requires
            old(self).wf(),
        ensures
            final(self).wf(),
            final(self).results() == old(self).results().push(r.0),
            final(self).finals() == (match r.1 {
                Some(x) => old(self).finals().push(x),
                None => old(self).finals(),
            }),
            r.0.id == result_msg_id,
            is_result_for(r.0, call_id@),
            r.0.role == Some(MessageRole::Tool),
            r.0.status == Some(MessageStatus::Completed),
            r.0.content matches Some(MessageContent::Text(t)) && t@ == guarded.text@,
            guarded.truncated ==> truncation_meta_ok(r.0.meta, *guarded, success),
            !guarded.truncated ==> (r.0.meta matches Some(Json::Obj(mm)) && mm.lookup("success"@)
                == Some(Json::Bool(success))),
            ({
                let i = crate::nodes::first_with_id(context@, call_id@);
                if i < 0 {
                    r.1 is None
                } else {
                    r.1 matches Some(x) && x.id@ == call_id@ && x.status == Some(
                        MessageStatus::Completed,
                    ) && (if success {
                        exists|e: Json|
                            is_success_object(e) && x.meta == Some(
                                finalized_meta(context@[i].meta, e),
                            ) && x.error is None
                    } else {
                        exists|e: Json|
                            is_error_object(e, name@, *arguments) && x.meta == Some(
                                finalized_meta(context@[i].meta, e),
                            ) && (x.error matches Some(er) && er@ == res@)
                    })
                }
            }),
            final(self).ids() == old(self).ids(),
            final(self).calls() == old(self).calls(),
            final(self).position() == old(self).position(),
            final(self).is_stopped() == old(self).is_stopped(),
            final(self).is_interactive() == old(self).is_interactive(),
    {
        let mut t = build_tool_message(call_id, guarded.text.as_str(), Some(success), result_msg_id);
        if guarded.truncated {
            let m1 = meta_with(&t.meta, "tool_result_truncated", Json::Bool(true));
            let m2 = match &guarded.archive_path {
                Some(p) => meta_with(&m1, "archive_path", Json::Str(p.clone())),
                None => m1,
            };
            let m3 = meta_with(
                &m2,
                "origin_tokens",
                Json::Num(crate::json::JsonNumber::PosInt(guarded.original_tokens as u64)),
            );
            proof {
                reveal_strlit("success");
                reveal_strlit("tool_result_truncated");
                reveal_strlit("archive_path");
                reveal_strlit("origin_tokens");
                assert("success"@.len() == 7);
                assert("tool_result_truncated"@.len() == 21);
                assert("archive_path"@.len() == 12);
                assert("origin_tokens"@.len() == 13);
            }
            proof {
                let o = t.meta->0->Obj_0;
                let a = m1->0->Obj_0;
                let b = m2->0->Obj_0;
                let c = m3->0->Obj_0;
                assert(a.lookup("success"@) == o.lookup("success"@));
                assert(b.lookup("success"@) == a.lookup("success"@));
                assert(c.lookup("success"@) == b.lookup("success"@));
                assert(b.lookup("tool_result_truncated"@) == a.lookup("tool_result_truncated"@));
                assert(c.lookup("tool_result_truncated"@) == b.lookup("tool_result_truncated"@));
                assert(c.lookup("archive_path"@) == b.lookup("archive_path"@));
                assert(a.lookup("archive_path"@) == o.lookup("archive_path"@));
                if guarded.archive_path is None {
                    assert(o.lookup("archive_path"@) is None) by {
                        reveal_strlit("success");
                        reveal_strlit("archive_path");
                        assert("success"@.len() == 7);
                        assert("archive_path"@.len() == 12);
                        let r1 = *(o->Entry_2);
                        assert(r1 == JsonMap::Nil);
                        assert(r1.lookup("archive_path"@) is None);
                    }
                }
            }
            t.meta = m3;
        }
        if !success {
            t.status = Some(MessageStatus::Completed);
        }
        let extra = if success {
            success_object()
        } else {
            error_object(name, arguments)
        };
        let err = if success {
            None
        } else {
            Some(key(res))
        };
        let p = finalized_parent(context, call_id, MessageStatus::Completed, &extra, err);
        proof {
            crate::nodes::lemma_first_with_id(context@, call_id@);
        }
        self.push_pair(&t, &p, Ghost(call_id@));
        (t, p)
    }

    /// Closes the batch: every call with a valid id that has no final
    /// snapshot yet (the batch stopped before it) gets a `not_executed`
    /// result node and a completed snapshot. Returns what to deliver, in
    /// order.
    ///
    /// Afterwards every call of the batch has a result node, every call the
    /// transcript holds has a final snapshot, and every final snapshot is
    /// settled (completed, or waiting for the user).
    #[verifier::spinoff_prover]
    #[verifier::rlimit(40)]
    pub fn finish(&mut self, context: &Vec<ChatMessage>) -> (out: Vec<(ChatMessage, Option<ChatMessage>)>)
        requires
            old(self).wf(),
        ensures
            final(self).wf(),
            forall|k: int|
                0 <= k < final(self).ids().len() ==> has_result_for(
                    final(self).results(),
                    #[trigger] final(self).ids()[k],
                ),
            forall|k: int|
                0 <= k < final(self).ids().len() && crate::nodes::first_with_id(
                    context@,
                    #[trigger] final(self).ids()[k],
                ) >= 0 ==> has_node(final(self).finals(), final(self).ids()[k]),
            forall|t: int|
                0 <= t < final(self).finals().len() ==> settled(#[trigger] final(self).finals()[t]),
            final(self).ids() == old(self).ids(),
            final(self).results().len() >= old(self).results().len(),
            forall|t: int|
                0 <= t < old(self).results().len() ==> final(self).results()[t] == old(
                    self,
                ).results()[t],
            ({
                let cl = closing_ids(old(self).ids(), old(self).finals(), context@, old(self).ids().len() as int);
                &&& out@.len() == cl.len()
                &&& forall|k: int| 0 <= k < cl.len() ==> unexecuted_result_ok(#[trigger] out@[k].0, cl[k])
                    && unexecuted_snapshot_ok(context@, cl[k], out@[k].1)
                &&& final(self).results() == old(self).results() + out@.map_values(
                    |e: (ChatMessage, Option<ChatMessage>)| e.0,
                )
                &&& final(self).finals() == old(self).finals() + somes(
                    out@.map_values(|e: (ChatMessage, Option<ChatMessage>)| e.1),
                )
            }),
            ({
                let ids = old(self).ids();
                (forall|a: int, b: int| 0 <= a < b < ids.len() ==> ids[a] != ids[b]) && (forall|k: int|
                    0 <= k < ids.len() ==> crate::nodes::first_with_id(context@, #[trigger] ids[k]) >= 0)
                    && (forall|k: int|
                    0 <= k < ids.len() ==> results_for(old(self).results(), #[trigger] ids[k])
                        == finals_for(old(self).finals(), ids[k]) && finals_for(old(self).finals(), ids[k])
                        <= 1) ==> forall|k: int|
                    0 <= k < ids.len() ==> results_for(final(self).results(), #[trigger] ids[k]) == 1
                        && finals_for(final(self).finals(), ids[k]) == 1
            }),
    {
        let mut out: Vec<(ChatMessage, Option<ChatMessage>)> = Vec::new();
        let mut j: usize = 0;
        let ghost r0 = self.tool_messages@;
        let ghost f0 = self.parent_updates@;
        let ghost ids0 = self.ids();
        let ghost ctx = context@;
        while j < self.batch_ids.len()
            invariant
                ids0 == old(self).ids(),
                f0 == old(self).finals(),
                ctx == context@,
                out@.len() == closing_ids(ids0, f0, ctx, j as int).len(),
                forall|k: int| 0 <= k < out@.len() ==> unexecuted_result_ok(#[trigger] out@[k].0, closing_ids(ids0, f0, ctx, j as int)[k])
                    && unexecuted_snapshot_ok(ctx, closing_ids(ids0, f0, ctx, j as int)[k], out@[k].1),
                self.tool_messages@ == r0 + out@.map_values(|e: (ChatMessage, Option<ChatMessage>)| e.0),
                self.parent_updates@ == f0 + somes(out@.map_values(|e: (ChatMessage, Option<ChatMessage>)| e.1)),
                forall|x: Seq<char>| #[trigger] has_node(self.parent_updates@, x) <==> (has_node(f0, x) || (closing_ids(ids0, f0, ctx, j as int).contains(x)
                    && crate::nodes::first_with_id(ctx, x) >= 0)),
                self.wf(),
                j <= self.batch_ids@.len(),
                self.ids() == old(self).ids(),
                r0 == old(self).results(),
                self.tool_messages@.len() >= r0.len(),
                forall|t: int| 0 <= t < r0.len() ==> self.tool_messages@[t] == r0[t],
                self.batch_ids@.len() == self.ids().len(),
                forall|k: int|
                    0 <= k < j ==> has_result_for(
                        self.tool_messages@,
                        #[trigger] self.ids()[k],
                    ),
                forall|k: int|
                    0 <= k < j && crate::nodes::first_with_id(context@, #[trigger] self.ids()[k])
                        >= 0 ==> has_node(self.parent_updates@, self.ids()[k]),
            decreases self.batch_ids@.len() - j,
        {
            let id = self.batch_ids[j].clone();
            assert(id@ == self.ids()[j as int]);
            let ghost cl = closing_ids(ids0, f0, ctx, j as int);
            if has_node_exec(&self.parent_updates, id.as_str()) {
                proof {
                    assert(closing_ids(ids0, f0, ctx, j + 1 as int) == cl);
                    assert forall|k: int| 0 <= k < out@.len() implies unexecuted_result_ok(#[trigger] out@[k].0, closing_ids(ids0, f0, ctx, j + 1 as int)[k])
                        && unexecuted_snapshot_ok(ctx, closing_ids(ids0, f0, ctx, j + 1 as int)[k], out@[k].1) by {
                        assert(closing_ids(ids0, f0, ctx, j + 1 as int)[k] == cl[k]);
                    }
                    let t = choose|t: int|
                        0 <= t < self.parent_updates@.len() && (#[trigger] self.parent_updates@[t]).id@
                            == id@;
                    assert(has_result_for(self.tool_messages@, self.parent_updates@[t].id@));
                    assert(has_result_for(self.tool_messages@, self.ids()[j as int]));
                    assert(has_node(self.parent_updates@, self.ids()[j as int]));
                }
            } else {
                let r = not_executed_result(id.as_str(), FAILURE_NOT_EXECUTED);
                let extra = failure_object(FAILURE_NOT_EXECUTED);
                let p = finalized_parent(context, id.as_str(), MessageStatus::Completed, &extra, None);
                proof {
                    crate::nodes::lemma_first_with_id(context@, id@);
                }
                let ghost before = self.tool_messages@;
                let ghost finals_before = self.parent_updates@;
                let ghost out_before = out@;
                proof {
                    assert(is_failure_object(extra, FAILURE_NOT_EXECUTED@));
                    assert(unexecuted_snapshot_ok(ctx, id@, p));
                    reveal_strlit("not_executed");
                    reveal_strlit("aborted");
                    assert(FAILURE_NOT_EXECUTED@ != REASON_ABORTED@) by {
                        assert(FAILURE_NOT_EXECUTED@.len() != REASON_ABORTED@.len());
                    }
                    assert(unexecuted_result_ok(r, id@));
                    assert(closing_ids(ids0, f0, ctx, j + 1 as int) == cl.push(id@));
                }
                self.push_pair(&r, &p, Ghost(id@));
                proof {
                    assert forall|k: int|
                        0 <= k <= j && crate::nodes::first_with_id(context@, #[trigger] self.ids()[k])
                            >= 0 implies has_node(self.parent_updates@, self.ids()[k]) by {
                        if k < j {
                            let t = choose|t: int|
                                0 <= t < finals_before.len() && (#[trigger] finals_before[t]).id@
                                    == self.ids()[k];
                            assert(self.parent_updates@[t] == finals_before[t]);
                        } else {
                            let t = finals_before.len() as int;
                            assert(self.parent_updates@[t].id@ == id@);
                        }
                    }
                    lemma_result_pushed(before, r, id@);
                    assert forall|k: int| 0 <= k < j implies has_result_for(
                        self.tool_messages@,
                        #[trigger] self.ids()[k],
                    ) by {
                        lemma_result_kept(before, r, self.ids()[k]);
                    }
                    assert forall|t: int| 0 <= t < r0.len() implies self.tool_messages@[t] == r0[t] by {
                        assert(self.tool_messages@[t] == before[t]);
                    }
                }
                out.push((r, p));
                proof {
                    let cl2 = cl.push(id@);
                    let m0 = out_before.map_values(|e: (ChatMessage, Option<ChatMessage>)| e.0);
                    let m1 = out_before.map_values(|e: (ChatMessage, Option<ChatMessage>)| e.1);
                    assert(out@.map_values(|e: (ChatMessage, Option<ChatMessage>)| e.0) =~= m0.push(r));
                    assert(out@.map_values(|e: (ChatMessage, Option<ChatMessage>)| e.1) =~= m1.push(p));
                    assert(m1.push(p).drop_last() =~= m1);
                    assert(self.tool_messages@ =~= r0 + m0.push(r));
                    assert(self.parent_updates@ =~= f0 + somes(m1.push(p)));
                    assert forall|k: int| 0 <= k < out@.len() implies unexecuted_result_ok(#[trigger] out@[k].0, cl2[k])
                        && unexecuted_snapshot_ok(ctx, cl2[k], out@[k].1) by {
                        if k < out_before.len() {
                            assert(out@[k] == out_before[k]);
                            assert(cl2[k] == cl[k]);
                        }
                    }
                    assert forall|x: Seq<char>| #[trigger] has_node(self.parent_updates@, x) <==> (has_node(f0, x) || (cl2.contains(x)
                        && crate::nodes::first_with_id(ctx, x) >= 0)) by {
                        if cl2.contains(x) && !cl.contains(x) {
                            assert(x == id@);
                        }
                        if cl.contains(x) {
                            assert(cl2.contains(x)) by {
                                let t = choose|t: int| 0 <= t < cl.len() && cl[t] == x;
                                assert(cl2[t] == x);
                            }
                        }
                        if has_node(self.parent_updates@, x) {
                            let t = choose|t: int| 0 <= t < self.parent_updates@.len() && (#[trigger] self.parent_updates@[t]).id@ == x;
                            if t < finals_before.len() {
                                assert(self.parent_updates@[t] == finals_before[t]);
                                assert(has_node(finals_before, x));
                            } else {
                                assert(x == id@);
                                assert(cl2[cl.len() as int] == id@);
                            }
                        }
                        if has_node(finals_before, x) {
                            let t = choose|t: int| 0 <= t < finals_before.len() && (#[trigger] finals_before[t]).id@ == x;
                            assert(self.parent_updates@[t] == finals_before[t]);
                        }
                        if x == id@ && crate::nodes::first_with_id(ctx, x) >= 0 {
                            let t = finals_before.len() as int;
                            assert(self.parent_updates@[t].id@ == id@);
                        }
                    }
                }
            }
            j = j + 1;
        }
        proof {
            assert(out@.map_values(|e: (ChatMessage, Option<ChatMessage>)| e.0).len() == out@.len());
            if (forall|a: int, b: int| 0 <= a < b < ids0.len() ==> ids0[a] != ids0[b]) && (forall|k: int|
                0 <= k < ids0.len() ==> crate::nodes::first_with_id(ctx, #[trigger] ids0[k]) >= 0)
                && (forall|k: int|
                0 <= k < ids0.len() ==> results_for(r0, #[trigger] ids0[k]) == finals_for(f0, ids0[k])
                    && finals_for(f0, ids0[k]) <= 1) {
                lemma_batch_ends_once_per_call(ids0, r0, f0, ctx, out@);
            }
        }
        out
    }

    /// The result nodes and the final snapshots, in order.
    pub fn into_results(self) -> (r: (Vec<ChatMessage>, Vec<ChatMessage>))
        ensures
            r.0@ == self.results(),
            r.1@ == self.finals(),
    {
        (self.tool_messages, self.parent_updates)
    }
}

} // verus!

verus! {

/// Idle limit of a tool run, in seconds: a tool that emits nothing for
/// this long is taken as hung.
pub const TOOL_EXEC_IDLE_TIMEOUT_SECS: u64 = 600;

/// How one tool run ended.
pub enum ToolRunOutcome {
    /// No plugin to route to.
    NoParent,
    /// The tool answered with data.
    Data { data: Json },
    /// The answer's data could not be read.
    Undecodable,
    /// The answer was not data.
    UnexpectedPayload,
    /// Routing failed with this error.
    RouteError(String),
    /// The user aborted while the tool ran.
    Aborted,
    /// The tool made no progress for the idle limit.
    IdleTimeout,
}

/// The result of one tool run: the text for the model, whether the tool
/// succeeded, and the waiting intent it declared.
#[derive(Debug)]
pub struct ToolRunResult {
    pub text: String,
    pub success: bool,
    pub pending: Option<PendingPrompt>,
}

/// The text of a run aborted by the user.
pub open spec fn aborted_run_text(tool_name: Seq<char>) -> Seq<char> {
    "Error: 工具 "@ + tool_name + " 被用户中止，未返回结果"@
}

/// The text of a run stopped for idleness.
pub open spec fn idle_run_text(tool_name: Seq<char>) -> Seq<char> {
    "Error: 工具 "@ + tool_name + " 已 "@ + crate::text::dec(TOOL_EXEC_IDLE_TIMEOUT_SECS as nat)
        + " 秒无任何进展，已强制中断（疑似挂死）"@
}

/// What a run returns to the model: data is read by [`extract_result`] and
/// may declare a waiting intent; every other ending is a failed run with an
/// `Error:` text.
pub fn tool_run_result(tool_name: &str, outcome: ToolRunOutcome) -> (r: ToolRunResult)
    ensures
        match outcome {
            ToolRunOutcome::Data { data } => r.success && r.text@ == extract_spec(
                data,
                compact_json(data),
            ) && pending_of(data, r.pending),
            ToolRunOutcome::NoParent => !r.success && r.pending is None && r.text@
                == "Error: No parent plugin"@,
            ToolRunOutcome::Undecodable => !r.success && r.pending is None && r.text@
                == "Error: Failed to deserialize payload"@,
            ToolRunOutcome::UnexpectedPayload => !r.success && r.pending is None && r.text@
                == "Error: Unexpected payload type"@,
            ToolRunOutcome::RouteError(e) => !r.success && r.pending is None && r.text@ == "Error: "@
                + e@,
            ToolRunOutcome::Aborted => !r.success && r.pending is None && r.text@ == aborted_run_text(
                tool_name@,
            ),
            ToolRunOutcome::IdleTimeout => !r.success && r.pending is None && r.text@
                == idle_run_text(tool_name@),
        },
{
    match outcome {
        ToolRunOutcome::Data { data } => {
            let pending = pending_prompt_from(&data);
            let res = extract_result(&data);
            ToolRunResult { text: res, success: true, pending }
        },
        ToolRunOutcome::NoParent => ToolRunResult {
            text: key("Error: No parent plugin"),
            success: false,
            pending: None,
        },
        ToolRunOutcome::Undecodable => ToolRunResult {
            text: key("Error: Failed to deserialize payload"),
            success: false,
            pending: None,
        },
        ToolRunOutcome::UnexpectedPayload => ToolRunResult {
            text: key("Error: Unexpected payload type"),
            success: false,
            pending: None,
        },
        ToolRunOutcome::RouteError(e) => {
            let mut v: Vec<char> = Vec::new();
            push_str_chars(&mut v, "Error: ");
            push_str_chars(&mut v, e.as_str());
            ToolRunResult { text: string_of(v.as_slice()), success: false, pending: None }
        },
        ToolRunOutcome::Aborted => {
            let mut v: Vec<char> = Vec::new();
            push_str_chars(&mut v, "Error: 工具 ");
            push_str_chars(&mut v, tool_name);
            push_str_chars(&mut v, " 被用户中止，未返回结果");
            ToolRunResult { text: string_of(v.as_slice()), success: false, pending: None }
        },
        ToolRunOutcome::IdleTimeout => {
            let mut v: Vec<char> = Vec::new();
            push_str_chars(&mut v, "Error: 工具 ");
            push_str_chars(&mut v, tool_name);
            push_str_chars(&mut v, " 已 ");
            push_decimal(&mut v, TOOL_EXEC_IDLE_TIMEOUT_SECS);
            push_str_chars(&mut v, " 秒无任何进展，已强制中断（疑似挂死）");
            ToolRunResult { text: string_of(v.as_slice()), success: false, pending: None }
        },
    }
}

/// The idle watch of a tool run: each time the idle limit elapses, the
/// emission count is read; a changed count is progress (wait again), an
/// unchanged one means the tool hangs.
pub struct IdleWatch {
    pub seen_emits: u64,
}

impl IdleWatch {
    /// Starts watching from the current emission count.
    pub fn new(emitted: u64) -> (w: Self)
        ensures
            w.seen_emits == emitted,
    {
        IdleWatch { seen_emits: emitted }
    }

    /// One elapsed idle period with the emission count `now`: `true` (and
    /// the new count remembered) when it moved, `false` when the tool hangs.
    pub fn progressed(&mut self, now: u64) -> (b: bool)
        ensures
            b == (now != old(self).seen_emits),
            final(self).seen_emits == now,
    {
        let moved = now != self.seen_emits;
        self.seen_emits = now;
        moved
    }
}

} // verus!
