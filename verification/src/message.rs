//! The chat message frame: the single unit every transcript change, stored
//! message and tool result is written in.
//!
//! A frame carries its meaning in its fields, never in an operation tag:
//! `delta` appends to the body, `content` replaces it, `status = removed`
//! deletes the node, and identity fields overwrite when present.
use vstd::prelude::*;
use crate::json::Json;
use crate::text::{chars_of, extend_chars, join_nl, string_of};

verus! {

/// Who speaks.
#[derive(Clone, Copy, PartialEq, Eq, Debug, Structural)]
pub enum MessageRole {
    User,
    Assistant,
    Tool,
    System,
}

/// What kind of node a message is.
#[derive(Clone, Copy, PartialEq, Eq, Debug, Structural)]
pub enum MessageType {
    /// Plain text body.
    Text,
    /// Model reasoning.
    Reasoning,
    /// A tool call (its arguments stream in as body).
    ToolCall,
    /// The group node of one model turn.
    Turn,
    /// A prompt that waits for the user (approval / question card).
    UserPrompt,
}

/// Life-cycle state of a message node.
#[derive(Clone, Copy, PartialEq, Eq, Debug, Structural)]
pub enum MessageStatus {
    Pending,
    Streaming,
    WaitingUserAction,
    Completed,
    Failed,
    Aborted,
    Removed,
}

/// The wire word of a role.
pub open spec fn role_wire_word(r: MessageRole) -> Seq<char> {
    match r {
        MessageRole::User => "user"@,
        MessageRole::Assistant => "assistant"@,
        MessageRole::Tool => "tool"@,
        MessageRole::System => "system"@,
    }
}

impl MessageRole {
    /// The wire word of this role.
    pub fn as_str(&self) -> (r: &'static str)
        ensures
            r@ == role_wire_word(*self),
    {
        match self {
            MessageRole::User => "user",
            MessageRole::Assistant => "assistant",
            MessageRole::Tool => "tool",
            MessageRole::System => "system",
        }
    }
}

/// The wire word of a message type.
pub open spec fn type_wire_word(t: MessageType) -> Seq<char> {
    match t {
        MessageType::Text => "text"@,
        MessageType::Reasoning => "reasoning"@,
        MessageType::ToolCall => "tool_call"@,
        MessageType::Turn => "turn"@,
        MessageType::UserPrompt => "user_prompt"@,
    }
}

impl MessageType {
    /// The wire word of this type.
    pub fn as_str(&self) -> (r: &'static str)
        ensures
            r@ == type_wire_word(*self),
    {
        match self {
            MessageType::Text => "text",
            MessageType::Reasoning => "reasoning",
            MessageType::ToolCall => "tool_call",
            MessageType::Turn => "turn",
            MessageType::UserPrompt => "user_prompt",
        }
    }
}

/// The wire word of a status.
pub open spec fn status_word(s: MessageStatus) -> Seq<char> {
    match s {
        MessageStatus::Pending => "pending"@,
        MessageStatus::Streaming => "streaming"@,
        MessageStatus::WaitingUserAction => "waiting_user_action"@,
        MessageStatus::Completed => "completed"@,
        MessageStatus::Failed => "failed"@,
        MessageStatus::Aborted => "aborted"@,
        MessageStatus::Removed => "removed"@,
    }
}

impl MessageStatus {
    /// The wire word of this status.
    pub fn as_str(&self) -> (r: &'static str)
        ensures
            r@ == status_word(*self),
    {
        match self {
            MessageStatus::Pending => "pending",
            MessageStatus::Streaming => "streaming",
            MessageStatus::WaitingUserAction => "waiting_user_action",
            MessageStatus::Completed => "completed",
            MessageStatus::Failed => "failed",
            MessageStatus::Aborted => "aborted",
            MessageStatus::Removed => "removed",
        }
    }
}

/// One part of a multi-part body.
#[derive(Debug)]
pub enum ContentPart {
    Text(String),
    /// An image, by URL.
    Image(String),
}

/// The parts of a multi-part body, in order.
#[derive(Debug)]
pub enum PartList {
    Nil,
    Cons(ContentPart, Box<PartList>),
}

/// A message body.
#[derive(Debug)]
pub enum MessageContent {
    Text(String),
    Parts(PartList),
}

/// The texts of the text parts, in order.
pub open spec fn part_texts(p: PartList) -> Seq<Seq<char>>
    decreases p,
{
    match p {
        PartList::Nil => Seq::empty(),
        PartList::Cons(ContentPart::Text(t), rest) => seq![t@] + part_texts(*rest),
        PartList::Cons(_, rest) => part_texts(*rest),
    }
}

/// The text of a body: the string itself, or the text parts joined by
/// newlines.
pub open spec fn content_text(c: MessageContent) -> Seq<char> {
    match c {
        MessageContent::Text(s) => s@,
        MessageContent::Parts(p) => join_nl(part_texts(p)),
    }
}

/// The text of an optional body (empty when absent).
pub open spec fn opt_content_text(c: Option<MessageContent>) -> Seq<char> {
    match c {
        Some(c) => content_text(c),
        None => Seq::empty(),
    }
}

impl ContentPart {
    pub fn copy(&self) -> (r: Self)
        ensures
            r == *self,
    {
        match self {
            ContentPart::Text(s) => ContentPart::Text(s.clone()),
            ContentPart::Image(s) => ContentPart::Image(s.clone()),
        }
    }
}

impl PartList {
    pub fn copy(&self) -> (r: Self)
        ensures
            r == *self,
        decreases self,
    {
        match self {
            PartList::Nil => PartList::Nil,
            PartList::Cons(p, rest) => PartList::Cons(p.copy(), Box::new((**rest).copy())),
        }
    }

    /// Collects the text parts (as character vectors) into `out`.
    pub fn collect_texts(&self, out: &mut Vec<Vec<char>>)
        ensures
            final(out).deep_view() == old(out).deep_view() + part_texts(*self),
        decreases self,
    {
        match self {
            PartList::Nil => {
                assert(out.deep_view() =~= old(out).deep_view() + Seq::<Seq<char>>::empty());
            },
            PartList::Cons(p, rest) => {
                match p {
                    ContentPart::Text(t) => {
                        let ghost before = out.deep_view();
                        let c = chars_of(t.as_str());
                        assert(c.deep_view() =~= t@);
                        out.push(c);
                        assert(out.deep_view() =~= before + seq![t@]);
                        rest.collect_texts(out);
                        assert(out.deep_view() =~= before + (seq![t@] + part_texts(**rest)));
                    },
                    ContentPart::Image(_) => {
                        rest.collect_texts(out);
                    },
                }
            },
        }
    }
}

/// The pieces joined by `'\n'`.
pub fn join_lines(pieces: &Vec<Vec<char>>) -> (r: Vec<char>)
    ensures
        r@ == join_nl(pieces.deep_view()),
{
    let mut out: Vec<char> = Vec::new();
    let mut k: usize = 0;
    while k < pieces.len()
        invariant
            k <= pieces.len(),
            out@ == join_nl(pieces.deep_view().take(k as int)),
        decreases pieces.len() - k,
    {
        let ghost s2 = pieces.deep_view().take(k + 1 as int);
        if k > 0 {
            out.push('\n');
        }
        extend_chars(&mut out, &pieces[k]);
        proof {
            assert(s2.drop_last() =~= pieces.deep_view().take(k as int));
            assert(s2.last() == pieces[k as int]@);
            if k == 0 {
                assert(s2.len() == 1);
            }
            assert(out@ =~= join_nl(s2));
        }
        k = k + 1;
    }
    assert(pieces.deep_view().take(pieces.len() as int) =~= pieces.deep_view());
    out
}

impl MessageContent {
    pub fn copy(&self) -> (r: Self)
        ensures
            r == *self,
    {
        match self {
            MessageContent::Text(s) => MessageContent::Text(s.clone()),
            MessageContent::Parts(p) => MessageContent::Parts(p.copy()),
        }
    }

    /// The characters of the body text.
    pub fn text_chars(&self) -> (r: Vec<char>)
        ensures
            r@ == content_text(*self),
    {
        match self {
            MessageContent::Text(s) => chars_of(s.as_str()),
            MessageContent::Parts(p) => {
                let mut pieces: Vec<Vec<char>> = Vec::new();
                p.collect_texts(&mut pieces);
                assert(pieces.deep_view() =~= part_texts(*p));
                join_lines(&pieces)
            },
        }
    }

    /// The body text.
    pub fn to_text(&self) -> (r: String)
        ensures
            r@ == content_text(*self),
    {
        let v = self.text_chars();
        string_of(v.as_slice())
    }
}

/// A message frame.
#[derive(Debug)]
pub struct ChatMessage {
    /// Node identity (also the last segment of its address).
    pub id: String,
    /// The node it hangs under (a turn, or the tool call of a result).
    pub parent_id: Option<String>,
    pub role: Option<MessageRole>,
    pub msg_type: Option<MessageType>,
    /// Tool name of a tool call.
    pub name: Option<String>,
    /// Provider wire id of a tool call.
    pub tool_call_id: Option<String>,
    /// Free-form structured attributes.
    pub meta: Option<Json>,
    /// Position in the session's message folder (storage-assigned, or an
    /// in-flight number).
    pub seq: Option<i64>,
    /// Milliseconds since the epoch.
    pub timestamp: Option<i64>,
    pub status: Option<MessageStatus>,
    /// Error text of a failed node.
    pub error: Option<String>,
    /// Whole body: replaces the node's body.
    pub content: Option<MessageContent>,
    /// Body increment: appended to the node's body (transport form only).
    pub delta: Option<String>,
    /// Per-request context attached for the model (never stored).
    pub prompt: Option<String>,
}

pub fn copy_opt_string(s: &Option<String>) -> (r: Option<String>)
    ensures
        r == *s,
{
    match s {
        Some(x) => Some(x.clone()),
        None => None,
    }
}

pub fn copy_opt_json(j: &Option<Json>) -> (r: Option<Json>)
    ensures
        r == *j,
{
    match j {
        Some(x) => Some(x.copy()),
        None => None,
    }
}

pub fn copy_opt_content(c: &Option<MessageContent>) -> (r: Option<MessageContent>)
    ensures
        r == *c,
{
    match c {
        Some(x) => Some(x.copy()),
        None => None,
    }
}

impl ChatMessage {
    /// A frame with only an identity.
    pub fn with_id(id: String) -> (m: Self)
        ensures
            m.id == id,
            m.parent_id is None,
            m.role is None,
            m.msg_type is None,
            m.name is None,
            m.tool_call_id is None,
            m.meta is None,
            m.seq is None,
            m.timestamp is None,
            m.status is None,
            m.error is None,
            m.content is None,
            m.delta is None,
            m.prompt is None,
    {
        ChatMessage {
            id,
            parent_id: None,
            role: None,
            msg_type: None,
            name: None,
            tool_call_id: None,
            meta: None,
            seq: None,
            timestamp: None,
            status: None,
            error: None,
            content: None,
            delta: None,
            prompt: None,
        }
    }

    /// A frame equal to this one.
    pub fn copy(&self) -> (r: Self)
        ensures
            r == *self,
    {
        ChatMessage {
            id: self.id.clone(),
            parent_id: copy_opt_string(&self.parent_id),
            role: self.role,
            msg_type: self.msg_type,
            name: copy_opt_string(&self.name),
            tool_call_id: copy_opt_string(&self.tool_call_id),
            meta: copy_opt_json(&self.meta),
            seq: self.seq,
            timestamp: self.timestamp,
            status: self.status,
            error: copy_opt_string(&self.error),
            content: copy_opt_content(&self.content),
            delta: copy_opt_string(&self.delta),
            prompt: copy_opt_string(&self.prompt),
        }
    }
}

impl Default for ChatMessage {
    fn default() -> (m: Self)
        ensures
            m.id@ == Seq::<char>::empty(),
            m.parent_id is None,
            m.role is None,
            m.msg_type is None,
            m.name is None,
            m.tool_call_id is None,
            m.meta is None,
            m.seq is None,
            m.timestamp is None,
            m.status is None,
            m.error is None,
            m.content is None,
            m.delta is None,
            m.prompt is None,
    {
        ChatMessage::with_id(String::new())
    }
}

/// Copies of all the frames, in order.
pub fn copy_messages(v: &Vec<ChatMessage>) -> (r: Vec<ChatMessage>)
    ensures
        r@ == v@,
{
    let mut r: Vec<ChatMessage> = Vec::new();
    let mut i: usize = 0;
    while i < v.len()
        invariant
            i <= v.len(),
            r@ == v@.take(i as int),
        decreases v.len() - i,
    {
        r.push(v[i].copy());
        assert(r@ =~= v@.take(i + 1 as int));
        i = i + 1;
    }
    assert(v@.take(v.len() as int) =~= v@);
    r
}

} // verus!
