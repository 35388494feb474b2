//! The session transcript: the single writer and emitter of the live message
//! graph of one session.
//!
//! Every message-level change enters as one frame through
//! [`Transcript::apply`]: the in-flight graph, the in-flight position numbers,
//! the core log and the change delivery are all decided there.
//!
//! - A frame's meaning is in its fields: `delta` appends to the body,
//!   `content` replaces it, `status = removed` deletes the node.
//! - Nodes first seen without a stored `seq` get an in-flight number from
//!   [`INFLIGHT_SEQ_BASE`] upwards, far above every stored number.
//! - Adjacent pure deltas of one node are merged within
//!   [`DELIVER_WINDOW_MS`] before delivery; the merged frame carries exactly
//!   the concatenated text.
//! - The log has two levels (skeleton / detail); runs of pure deltas are
//!   folded into one statistics line by [`DeltaLogCoalescer`].
use vstd::prelude::*;
use vstd::string::StrSliceExecFns;
use indexmap::IndexMap;
use std::time::Instant;
use crate::message::{ChatMessage, MessageContent, MessageStatus, status_word, copy_opt_string, copy_opt_json, content_text};
use crate::nodes::{NodeView, message_path, message_path_spec};
use crate::text::{dec, push_decimal, push_str_chars, string_of, chars_of};
use crate::json::str_eq;

verus! {

/// The merge window of delivery, in milliseconds.
pub const DELIVER_WINDOW_MS: u64 = 50;

/// The first in-flight position number (`1 << 50`). Stored numbers count
/// messages and never reach it.
pub const INFLIGHT_SEQ_BASE: i64 = 1125899906842624i64;

/// Whether `seq` is an in-flight placeholder rather than a stored number.
pub fn is_inflight_seq(seq: i64) -> (r: bool)
    ensures
        r == (seq >= INFLIGHT_SEQ_BASE),
{
    seq >= INFLIGHT_SEQ_BASE
}

/// The two levels of the core log.
#[derive(Clone, Copy, PartialEq, Eq, Debug, Structural)]
pub enum FrameLogLevel {
    /// A node appears, ends, waits for the user, or is removed.
    Skeleton,
    /// Everything else (updates and pure deltas).
    Detail,
}

/// The status behind an optional reference.
pub open spec fn opt_status(s: Option<&MessageStatus>) -> Option<MessageStatus> {
    match s {
        Some(x) => Some(*x),
        None => None,
    }
}

/// The characters of an optional string.
pub open spec fn opt_view(s: Option<String>) -> Option<Seq<char>> {
    match s {
        Some(x) => Some(x@),
        None => None,
    }
}

/// The phase word and level of a frame in the log.
pub open spec fn frame_log_spec(existed: bool, status: Option<MessageStatus>) -> (
    Seq<char>,
    FrameLogLevel,
) {
    if !existed {
        ("Start"@, FrameLogLevel::Skeleton)
    } else {
        match status {
            Some(MessageStatus::WaitingUserAction) => ("Wait"@, FrameLogLevel::Skeleton),
            Some(MessageStatus::Completed) => ("End"@, FrameLogLevel::Skeleton),
            Some(MessageStatus::Failed) => ("End"@, FrameLogLevel::Skeleton),
            Some(MessageStatus::Aborted) => ("End"@, FrameLogLevel::Skeleton),
            Some(MessageStatus::Removed) => ("End"@, FrameLogLevel::Skeleton),
            _ => ("Update"@, FrameLogLevel::Detail),
        }
    }
}

/// The phase word and level of a frame: a node not seen before starts, a
/// wait for the user or a terminal status is skeleton, the rest is detail.
pub fn frame_log_of(existed: bool, status: Option<&MessageStatus>) -> (r: (
    &'static str,
    FrameLogLevel,
))
    ensures
        r.0@ == frame_log_spec(existed, opt_status(status)).0,
        r.1 == frame_log_spec(existed, opt_status(status)).1,
{
    if !existed {
        return ("Start", FrameLogLevel::Skeleton);
    }
    match status {
        Some(MessageStatus::WaitingUserAction) => ("Wait", FrameLogLevel::Skeleton),
        Some(MessageStatus::Completed) => ("End", FrameLogLevel::Skeleton),
        Some(MessageStatus::Failed) => ("End", FrameLogLevel::Skeleton),
        Some(MessageStatus::Aborted) => ("End", FrameLogLevel::Skeleton),
        Some(MessageStatus::Removed) => ("End", FrameLogLevel::Skeleton),
        _ => ("Update", FrameLogLevel::Detail),
    }
}

/// `[T#<frame>] <id> <status>` followed by ` <detail>` when the detail is
/// not empty (no trailing blank).
pub open spec fn frame_line(frame_no: nat, id: Seq<char>, status: Seq<char>, detail: Seq<char>) -> Seq<
    char,
> {
    let head = "[T#"@ + dec(frame_no) + "] "@ + id + " "@ + status;
    if detail.len() == 0 {
        head
    } else {
        head + " "@ + detail
    }
}

/// Renders one core log line.
pub fn render_frame_line(frame_no: u64, id: &str, status: &str, detail: &str) -> (r: String)
    ensures
        r@ == frame_line(frame_no as nat, id@, status@, detail@),
{
    let mut v: Vec<char> = Vec::new();
    push_str_chars(&mut v, "[T#");
    push_decimal(&mut v, frame_no);
    push_str_chars(&mut v, "] ");
    push_str_chars(&mut v, id);
    push_str_chars(&mut v, " ");
    push_str_chars(&mut v, status);
    let ghost head = v@;
    if detail.unicode_len() > 0 {
        push_str_chars(&mut v, " ");
        push_str_chars(&mut v, detail);
    }
    assert(v@ =~= frame_line(frame_no as nat, id@, status@, detail@));
    string_of(v.as_slice())
}

/// A run of consecutive pure deltas of one node, folded into one log line.
pub struct DeltaRun {
    pub message_id: String,
    pub first_frame: u64,
    pub last_frame: u64,
    pub frames: u64,
    pub chars: usize,
}

/// The log line of a run: a single frame renders exactly as an unfolded
/// update line; several frames show the frame range, the count and the total.
pub open spec fn run_line(r: DeltaRun) -> Seq<char> {
    if r.frames == 1 {
        "[T#"@ + dec(r.first_frame as nat) + "] "@ + r.message_id@ + " - Update +"@ + dec(
            r.chars as nat,
        ) + "c"@
    } else {
        "[T#"@ + dec(r.first_frame as nat) + ".."@ + dec(r.last_frame as nat) + "] "@
            + r.message_id@ + " - Update "@ + dec(r.frames as nat) + " 帧 / +"@ + dec(
            r.chars as nat,
        ) + "c"@
    }
}

impl DeltaRun {
    /// Renders the run as one core log line.
    pub fn render(&self) -> (s: String)
        ensures
            s@ == run_line(*self),
    {
        let mut v: Vec<char> = Vec::new();
        push_str_chars(&mut v, "[T#");
        push_decimal(&mut v, self.first_frame);
        if self.frames == 1 {
            push_str_chars(&mut v, "] ");
            push_str_chars(&mut v, self.message_id.as_str());
            push_str_chars(&mut v, " - Update +");
            push_decimal(&mut v, self.chars as u64);
            push_str_chars(&mut v, "c");
        } else {
            push_str_chars(&mut v, "..");
            push_decimal(&mut v, self.last_frame);
            push_str_chars(&mut v, "] ");
            push_str_chars(&mut v, self.message_id.as_str());
            push_str_chars(&mut v, " - Update ");
            push_decimal(&mut v, self.frames);
            push_str_chars(&mut v, " 帧 / +");
            push_decimal(&mut v, self.chars as u64);
            push_str_chars(&mut v, "c");
        }
        assert(v@ =~= run_line(*self));
        string_of(v.as_slice())
    }
}

/// Whether a frame is a pure delta that may be folded into a run.
pub open spec fn foldable_delta(msg: ChatMessage, foldable: bool) -> bool {
    foldable && msg.delta is Some && msg.status is None
}

/// The log line a pending run flushes to, if any.
pub open spec fn run_flush(run: Option<DeltaRun>) -> Option<Seq<char>> {
    match run {
        Some(r) => Some(run_line(r)),
        None => None,
    }
}

/// Folds consecutive pure deltas of one node into one log line.
pub struct DeltaLogCoalescer {
    pub run: Option<DeltaRun>,
}

impl DeltaLogCoalescer {
    /// No run pending.
    pub fn new() -> (c: Self)
        ensures
            c.run is None,
    {
        DeltaLogCoalescer { run: None }
    }

    /// Whether feeding `msg` at `frame_no` keeps the run's counters in range.
    pub open spec fn has_room(self, msg: ChatMessage, foldable: bool) -> bool {
        foldable_delta(msg, foldable) ==> match self.run {
            Some(r) => r.message_id@ == msg.id@ ==> (r.frames < u64::MAX && r.chars
                + msg.delta->0@.len() <= usize::MAX),
            None => true,
        }
    }

    /// Feeds one frame. Returns the line of the run it closes (if any) and
    /// whether the frame was folded into a run.
    ///
    /// A foldable pure delta of the run's node extends the run; one of
    /// another node closes the run and opens a new one; any other frame
    /// closes the run and is not folded.
    pub fn feed(&mut self, msg: &ChatMessage, frame_no: u64, foldable: bool) -> (r: (
        Option<String>,
        bool,
    ))
        requires
            old(self).has_room(*msg, foldable),
        ensures
            !foldable_delta(*msg, foldable) ==> {
                &&& final(self).run is None
                &&& r.1 == false
                &&& opt_view(r.0) == run_flush(old(self).run)
            },
            foldable_delta(*msg, foldable) ==> r.1 == true,
            foldable_delta(*msg, foldable) && old(self).run is Some
                && old(self).run->0.message_id@ == msg.id@ ==> {
                let o = old(self).run->0;
                &&& r.0 is None
                &&& final(self).run matches Some(n) && n.message_id == o.message_id
                    && n.first_frame == o.first_frame && n.last_frame == frame_no && n.frames
                    == o.frames + 1 && n.chars == o.chars + msg.delta->0@.len()
            },
            foldable_delta(*msg, foldable) && !(old(self).run is Some
                && old(self).run->0.message_id@ == msg.id@) ==> {
                &&& opt_view(r.0) == run_flush(old(self).run)
                &&& final(self).run matches Some(n) && n.message_id@ == msg.id@ && n.first_frame
                    == frame_no && n.last_frame == frame_no && n.frames == 1 && n.chars
                    == msg.delta->0@.len()
            },
    {
        let chars: usize = match (&msg.delta, &msg.status) {
            (Some(d), None) => {
                if foldable {
                    d.as_str().unicode_len()
                } else {
                    return (self.flush(), false);
                }
            },
            _ => {
                return (self.flush(), false);
            },
        };
        let same = match &self.run {
            Some(run) => str_eq(run.message_id.as_str(), msg.id.as_str()),
            None => false,
        };
        if same {
            let mut run = self.run.take().unwrap();
            run.last_frame = frame_no;
            run.frames = run.frames + 1;
            run.chars = run.chars + chars;
            self.run = Some(run);
            return (None, true);
        }
        let flushed = self.flush();
        self.run = Some(
            DeltaRun {
                message_id: msg.id.clone(),
                first_frame: frame_no,
                last_frame: frame_no,
                frames: 1,
                chars,
            },
        );
        (flushed, true)
    }

    /// Closes the pending run; its line, or `None` when no run is pending.
    pub fn flush(&mut self) -> (r: Option<String>)
        ensures
            final(self).run is None,
            opt_view(r) == run_flush(old(self).run),
    {
        match self.run.take() {
            Some(run) => Some(run.render()),
            None => None,
        }
    }
}

} // verus!

verus! {

#[verifier::external_type_specification]
#[verifier::external_body]
#[verifier::reject_recursive_types(K)]
#[verifier::reject_recursive_types(V)]
#[verifier::reject_recursive_types(S)]
pub struct ExIndexMap<K, V, S>(IndexMap<K, V, S>);

#[verifier::external_type_specification]
#[verifier::external_body]
pub struct ExInstant(Instant);

/// The entries of the in-flight graph, in insertion order: each key with
/// its node.
pub uninterp spec fn graph_entries(m: IndexMap<String, ChatMessage>) -> Seq<(Seq<char>, ChatMessage)>;

/// Position of the first entry with key `k`, or `-1`.
pub open spec fn find_key(es: Seq<(Seq<char>, ChatMessage)>, k: Seq<char>) -> int
    decreases es.len(),
{
    if es.len() == 0 {
        -1
    } else if es[0].0 == k {
        0
    } else {
        let r = find_key(es.subrange(1, es.len() as int), k);
        if r < 0 {
            -1
        } else {
            r + 1
        }
    }
}

pub proof fn lemma_find_key(es: Seq<(Seq<char>, ChatMessage)>, k: Seq<char>)
    ensures
        -1 <= find_key(es, k) < es.len(),
        find_key(es, k) >= 0 ==> es[find_key(es, k)].0 == k,
        forall|j: int| 0 <= j < es.len() && (find_key(es, k) < 0 || j < find_key(es, k)) ==> es[j].0
            != k,
    decreases es.len(),
{
    if es.len() > 0 && es[0].0 != k {
        let tail = es.subrange(1, es.len() as int);
        lemma_find_key(tail, k);
        assert forall|j: int|
            0 <= j < es.len() && (find_key(es, k) < 0 || j < find_key(es, k)) implies es[j].0
            != k by {
            if j > 0 {
                assert(es[j] == tail[j - 1]);
            }
        }
    }
}

/// `IndexMap::new`: an empty map.
#[verifier::external_body]
fn graph_new() -> (m: IndexMap<String, ChatMessage>)
    ensures
        graph_entries(m) == Seq::<(Seq<char>, ChatMessage)>::empty(),
{
    IndexMap::new()
}

/// `IndexMap::get`: a copy of the value of the entry with the key, if any.
#[verifier::external_body]
fn graph_get(m: &IndexMap<String, ChatMessage>, k: &str) -> (r: Option<ChatMessage>)
    ensures
        r == (if find_key(graph_entries(*m), k@) < 0 {
            None
        } else {
            Some(graph_entries(*m)[find_key(graph_entries(*m), k@)].1)
        }),
{
    m.get(k).map(|v| v.copy())
}

/// `IndexMap::insert`: an existing key keeps its place and takes the new
/// value; a new key is appended last.
#[verifier::external_body]
fn graph_insert(m: &mut IndexMap<String, ChatMessage>, k: String, v: ChatMessage)
    ensures
        ({
            let es = graph_entries(*old(m));
            let i = find_key(es, k@);
            graph_entries(*final(m)) == if i < 0 {
                es.push((k@, v))
            } else {
                es.update(i, (k@, v))
            }
        }),
{
    m.insert(k, v);
}

/// `IndexMap::shift_remove`: removes the entry with the key, keeping the
/// order of the others, and returns its value.
#[verifier::external_body]
fn graph_shift_remove(m: &mut IndexMap<String, ChatMessage>, k: &str) -> (r: Option<ChatMessage>)
    ensures
        ({
            let es = graph_entries(*old(m));
            let i = find_key(es, k@);
            &&& i < 0 ==> r is None && graph_entries(*final(m)) == es
            &&& i >= 0 ==> r == Some(es[i].1) && graph_entries(*final(m)) == es.remove(i)
        }),
{
    m.shift_remove(k)
}

/// `IndexMap::clear`.
#[verifier::external_body]
fn graph_clear(m: &mut IndexMap<String, ChatMessage>)
    ensures
        graph_entries(*final(m)) == Seq::<(Seq<char>, ChatMessage)>::empty(),
{
    m.clear();
}

/// `IndexMap::values`, each value copied, in order.
#[verifier::external_body]
fn graph_values(m: &IndexMap<String, ChatMessage>) -> (r: Vec<ChatMessage>)
    ensures
        r@ == graph_entries(*m).map_values(|e: (Seq<char>, ChatMessage)| e.1),
{
    m.values().map(|v| v.copy()).collect()
}

/// `Instant::now`: a reading of the monotonic clock; nothing is claimed of
/// it.
#[verifier::external_body]
fn instant_now() -> (t: Instant) {
    Instant::now()
}

/// `Instant::elapsed` as whole milliseconds (`Duration::as_millis`); it
/// depends on the clock, so nothing is claimed of it.
#[verifier::external_body]
fn elapsed_ms(t: &Instant) -> (ms: u128) {
    t.elapsed().as_millis()
}

} // verus!

verus! {

/// What a delivered change carries.
#[derive(Debug)]
pub enum Payload {
    /// A message frame, delivered at the message's own address.
    Message(ChatMessage),
    /// The session's state view, delivered at the session's address
    /// (`None`: the session is gone; a reader converges by reading back).
    Session(Option<NodeView>),
}

/// One delivered change.
#[derive(Debug)]
pub struct Delivery {
    pub path: String,
    pub payload: Payload,
}

/// Level of a core log line.
#[derive(Clone, Copy, PartialEq, Eq, Debug, Structural)]
pub enum LogLevel {
    Error,
    Info,
    Debug,
}

/// One core log line.
#[derive(Debug)]
pub struct LogLine {
    pub level: LogLevel,
    pub text: String,
}

/// The level and text of each log line.
pub open spec fn log_view(ls: Seq<LogLine>) -> Seq<(LogLevel, Seq<char>)> {
    ls.map_values(|l: LogLine| (l.level, l.text@))
}

/// The log level of a frame's own line: info for the skeleton, debug for
/// details.
pub open spec fn frame_level(level: FrameLogLevel) -> LogLevel {
    match level {
        FrameLogLevel::Skeleton => LogLevel::Info,
        FrameLogLevel::Detail => LogLevel::Debug,
    }
}

/// The status column of a frame's line (`-` without a status).
pub open spec fn status_text(s: Option<MessageStatus>) -> Seq<char> {
    match s {
        Some(x) => status_word(x),
        None => "-"@,
    }
}

/// The lines one frame adds to the log, given the open run of pure deltas:
/// the run's line when the frame closes it (debug), then, unless the frame
/// is a pure delta folded into a run, its own line
/// `[T#<frame_no>] <id> <status> <detail>`.
pub open spec fn frame_log_lines(
    run: Option<DeltaRun>,
    frame_no: nat,
    msg: ChatMessage,
    level: FrameLogLevel,
    detail: Seq<char>,
) -> Seq<(LogLevel, Seq<char>)> {
    let folded = foldable_delta(msg, level == FrameLogLevel::Detail);
    let extends = folded && (run matches Some(r) && r.message_id@ == msg.id@);
    let closing: Seq<(LogLevel, Seq<char>)> = if extends {
        Seq::empty()
    } else {
        match run_flush(run) {
            Some(t) => seq![(LogLevel::Debug, t)],
            None => Seq::empty(),
        }
    };
    if folded {
        closing
    } else {
        closing.push((frame_level(level), frame_line(frame_no, msg.id@, status_text(msg.status), detail)))
    }
}

/// A delivery window being accumulated: pure deltas of one node merged into
/// `frame.delta`.
struct PendingDelta {
    frame: ChatMessage,
    /// When the window's first frame arrived.
    started: Instant,
}

/// A frame carrying only a body increment (no whole body, no status).
pub open spec fn pure_delta(m: ChatMessage) -> bool {
    m.content is None && m.status is None && m.delta is Some
}

/// The deliveries once a pending window is flushed.
pub open spec fn flushed(out: Seq<Payload>, pend: Option<ChatMessage>) -> Seq<Payload> {
    match pend {
        Some(p) => out.push(Payload::Message(p)),
        None => out,
    }
}

/// `b` is `a` with only its body increment changed.
pub open spec fn same_but_delta(a: ChatMessage, b: ChatMessage) -> bool {
    &&& b.id == a.id
    &&& b.parent_id == a.parent_id
    &&& b.role == a.role
    &&& b.msg_type == a.msg_type
    &&& b.name == a.name
    &&& b.tool_call_id == a.tool_call_id
    &&& b.meta == a.meta
    &&& b.seq == a.seq
    &&& b.timestamp == a.timestamp
    &&& b.status == a.status
    &&& b.error == a.error
    &&& b.content == a.content
    &&& b.prompt == a.prompt
}

/// One delivery step of frame `m`, from deliveries `out` with pending window
/// `pend` to `out2` / `pend2`; `expired` tells whether the pending window
/// had outlived [`DELIVER_WINDOW_MS`] when `m` arrived.
///
/// A pure delta of the pending node is merged into the window (its text is
/// the concatenation); any other pure delta closes the window and opens a
/// new one; any other frame closes the window and is delivered after it.
pub open spec fn deliver_step(
    out: Seq<Payload>,
    pend: Option<ChatMessage>,
    m: ChatMessage,
    expired: bool,
    out2: Seq<Payload>,
    pend2: Option<ChatMessage>,
) -> bool {
    let out0 = if expired {
        flushed(out, pend)
    } else {
        out
    };
    let pend0 = if expired {
        None
    } else {
        pend
    };
    if !pure_delta(m) {
        out2 == flushed(out0, pend0).push(Payload::Message(m)) && pend2 is None
    } else if pend0 is Some && pend0->0.id@ == m.id@ {
        let p = pend0->0;
        &&& out2 == out0
        &&& pend2 is Some
        &&& same_but_delta(p, pend2->0)
        &&& pend2->0.delta is Some
        &&& pend2->0.delta->0@ == p.delta->0@ + m.delta->0@
    } else {
        out2 == flushed(out0, pend0) && pend2 == Some(m)
    }
}

/// A node holding only an identity.
pub open spec fn placeholder(id: String) -> ChatMessage {
    ChatMessage {
        id,
        parent_id: None,
        role: None,
        msg_type: None,
        name: None,
        tool_call_id: None,
        meta: None,
        seq: None,
        timestamp: None,
        status: None,
        error: None,
        content: None,
        delta: None,
        prompt: None,
    }
}

/// `b` if it is present, else `a`.
pub open spec fn over<T>(a: Option<T>, b: Option<T>) -> Option<T> {
    if b is Some {
        b
    } else {
        a
    }
}

/// The body of `node` after frame `msg`: a delta is appended to a text body
/// (and starts a text body otherwise); a whole body replaces it.
pub open spec fn body_after(node: Option<MessageContent>, msg: ChatMessage, out: Option<
    MessageContent,
>) -> bool {
    match msg.delta {
        Some(d) => (out matches Some(MessageContent::Text(t)) && t@ == (match node {
            Some(MessageContent::Text(b)) => b@ + d@,
            _ => d@,
        })),
        None => out == over(node, msg.content),
    }
}

/// `out` is `node` with frame `msg` merged in: every identity field, the
/// meta, the timestamp, the status and the error present in the frame
/// overwrite; `seq` takes `seq` when present; the body follows
/// [`body_after`].
pub open spec fn merged_into(node: ChatMessage, msg: ChatMessage, seq: Option<i64>, out: ChatMessage) -> bool {
    &&& out.id == node.id
    &&& out.parent_id == over(node.parent_id, msg.parent_id)
    &&& out.role == over(node.role, msg.role)
    &&& out.msg_type == over(node.msg_type, msg.msg_type)
    &&& out.name == over(node.name, msg.name)
    &&& out.tool_call_id == over(node.tool_call_id, msg.tool_call_id)
    &&& out.meta == over(node.meta, msg.meta)
    &&& out.seq == over(node.seq, seq)
    &&& out.timestamp == over(node.timestamp, msg.timestamp)
    &&& out.status == over(node.status, msg.status)
    &&& out.error == over(node.error, msg.error)
    &&& body_after(node.content, msg, out.content)
    &&& out.delta == node.delta
    &&& out.prompt == node.prompt
}

/// The transcript of one session: the in-flight graph, in-flight position
/// numbers, the core log and change delivery.
pub struct Transcript {
    session_id: String,
    /// The next in-flight position number.
    next_seq: i64,
    /// The frame counter of the log (log only, never delivered).
    frame_no: u64,
    nodes: IndexMap<String, ChatMessage>,
    pending: Option<PendingDelta>,
    delta_log: DeltaLogCoalescer,
    /// Deliveries not yet handed out, in order.
    outbox: Vec<Delivery>,
    /// Log lines not yet handed out, in order.
    log: Vec<LogLine>,
}

/// The payloads of deliveries.
pub open spec fn payloads(ds: Seq<Delivery>) -> Seq<Payload> {
    ds.map_values(|d: Delivery| d.payload)
}

impl Transcript {
    pub closed spec fn sid(&self) -> Seq<char> {
        self.session_id@
    }

    /// The in-flight graph: keys with their nodes, in insertion order.
    pub closed spec fn graph(&self) -> Seq<(Seq<char>, ChatMessage)> {
        graph_entries(self.nodes)
    }

    pub closed spec fn next_seq(&self) -> i64 {
        self.next_seq
    }

    pub closed spec fn frame_no(&self) -> u64 {
        self.frame_no
    }

    /// The log lines written and not yet handed out, in order.
    pub closed spec fn logged(&self) -> Seq<LogLine> {
        self.log@
    }

    /// Everything delivered so far and not yet handed out.
    pub closed spec fn sent(&self) -> Seq<Payload> {
        payloads(self.outbox@)
    }

    /// The pending delivery window's frame.
    pub closed spec fn pending(&self) -> Option<ChatMessage> {
        match self.pending {
            Some(p) => Some(p.frame),
            None => None,
        }
    }

    /// Whether a run of pure deltas waits to be folded into a log line.
    pub closed spec fn log_run_open(&self) -> bool {
        self.delta_log.run is Some
    }

    /// Whether the log counters have room for frame `msg`.
    pub closed spec fn log_room(&self, msg: ChatMessage) -> bool {
        self.delta_log.has_room(msg, true)
    }

    /// The open run of pure deltas waiting to be folded into a log line.
    pub closed spec fn log_run(&self) -> Option<DeltaRun> {
        self.delta_log.run
    }

    /// The characters counted by the open log run (0 when none is open).
    pub closed spec fn log_chars(&self) -> nat {
        match self.delta_log.run {
            Some(r) => r.chars as nat,
            None => 0,
        }
    }

    /// Well-formedness: keys are distinct and are their nodes' ids; the
    /// next position number is an in-flight one; the pending window holds
    /// a pure delta; each delivery sits at the address
    /// of what it carries; the log run counts at most the frames seen.
    pub closed spec fn wf(&self) -> bool {
        let es = graph_entries(self.nodes);
        &&& forall|i: int, j: int| 0 <= i < j < es.len() ==> es[i].0 != es[j].0
        &&& forall|i: int| 0 <= i < es.len() ==> es[i].1.id@ == es[i].0
        &&& forall|i: int| 0 <= i < es.len() ==> (#[trigger] es[i]).1.delta is None
        &&& self.next_seq >= INFLIGHT_SEQ_BASE
        &&& (self.pending matches Some(p) ==> pure_delta(p.frame))
        &&& (self.delta_log.run matches Some(r) ==> r.frames <= self.frame_no)
        &&& forall|i: int| 0 <= i < self.outbox@.len() ==> delivered_at(self.session_id@, #[trigger] self.outbox@[i])
    }
}

/// The entries without the first one keyed `k` (keys of a well-formed
/// graph are distinct, so this drops the entry of `k`, keeping the others in
/// order).
pub open spec fn without_key(es: Seq<(Seq<char>, ChatMessage)>, k: Seq<char>) -> Seq<(Seq<char>, ChatMessage)> {
    let i = find_key(es, k);
    if i < 0 {
        es
    } else {
        es.remove(i)
    }
}

/// The entries without those keyed by `ids`, one after the other.
pub open spec fn without_keys(es: Seq<(Seq<char>, ChatMessage)>, ids: Seq<String>) -> Seq<(Seq<char>, ChatMessage)>
    decreases ids.len(),
{
    if ids.len() == 0 {
        es
    } else {
        without_key(without_keys(es, ids.drop_last()), ids.last()@)
    }
}

/// What is left after dropping keys keeps the entries as they were and in
/// their order (keys being distinct).
pub proof fn lemma_without_keys_keeps_order(es: Seq<(Seq<char>, ChatMessage)>, ids: Seq<String>)
    requires
        forall|i: int, j: int| 0 <= i < j < es.len() ==> es[i].0 != es[j].0,
    ensures
        forall|t: int|
            0 <= t < without_keys(es, ids).len() ==> 0 <= find_key(es, (#[trigger] without_keys(es, ids)[t]).0)
                && es[find_key(es, without_keys(es, ids)[t].0)] == without_keys(es, ids)[t],
        forall|a: int, b: int|
            0 <= a < b < without_keys(es, ids).len() ==> find_key(
                es,
                #[trigger] without_keys(es, ids)[a].0,
            ) < find_key(es, #[trigger] without_keys(es, ids)[b].0),
    decreases ids.len(),
{
    if ids.len() == 0 {
        assert(without_keys(es, ids) == es);
        assert forall|t: int| 0 <= t < es.len() implies 0 <= find_key(es, (#[trigger] es[t]).0) && es[find_key(es, es[t].0)] == es[t] by {
            lemma_find_key(es, es[t].0);
            let f = find_key(es, es[t].0);
            if f != t {
                assert(es[f].0 == es[t].0);
            }
        }
        assert forall|a: int, b: int| 0 <= a < b < es.len() implies find_key(es, #[trigger] es[a].0)
            < find_key(es, #[trigger] es[b].0) by {
            lemma_find_key(es, es[a].0);
            lemma_find_key(es, es[b].0);
            let fa = find_key(es, es[a].0);
            let fb = find_key(es, es[b].0);
            if fa != a {
                assert(es[fa].0 == es[a].0);
            }
            if fb != b {
                assert(es[fb].0 == es[b].0);
            }
        }
    } else {
        lemma_without_keys_keeps_order(es, ids.drop_last());
        let t0 = without_keys(es, ids.drop_last());
        let k = ids.last()@;
        let i = find_key(t0, k);
        lemma_find_key(t0, k);
        let t = without_keys(es, ids);
        assert(t == without_key(t0, k));
        if i >= 0 {
            assert(t == t0.remove(i));
            assert forall|x: int| 0 <= x < t.len() implies 0 <= find_key(es, (#[trigger] t[x]).0)
                && es[find_key(es, t[x].0)] == t[x] by {
                let x0 = if x < i { x } else { x + 1 };
                assert(t[x] == t0[x0]);
            }
            assert forall|a: int, b: int| 0 <= a < b < t.len() implies find_key(es, #[trigger] t[a].0)
                < find_key(es, #[trigger] t[b].0) by {
                let a0 = if a < i { a } else { a + 1 };
                let b0 = if b < i { b } else { b + 1 };
                assert(t[a] == t0[a0]);
                assert(t[b] == t0[b0]);
            }
        }
    }
}

/// The length of a frame's body increment (0 without one).
pub open spec fn delta_len(msg: ChatMessage) -> nat {
    match msg.delta {
        Some(d) => d@.len(),
        None => 0,
    }
}

/// The log counters have room for a frame while fewer than `u64::MAX`
/// frames were counted and the open run's characters plus the frame's
/// increment fit in a `usize` (so a fresh transcript, whose run is closed,
/// has room for any frame of at most `usize::MAX` increment characters).
pub proof fn lemma_log_room(t: &Transcript, msg: ChatMessage)
    requires
        t.wf(),
        t.frame_no() < u64::MAX,
        t.log_chars() + delta_len(msg) <= usize::MAX,
    ensures
        t.log_room(msg),
{
}

/// Keys of the in-flight graph are distinct, and each is its node's id.
pub proof fn lemma_graph_keys_distinct(t: &Transcript)
    requires
        t.wf(),
    ensures
        forall|i: int, j: int| 0 <= i < j < t.graph().len() ==> t.graph()[i].0 != t.graph()[j].0,
        forall|i: int| 0 <= i < t.graph().len() ==> t.graph()[i].1.id@ == t.graph()[i].0,
{
}

/// The graph keeps accumulated bodies only: no in-flight node holds a body
/// increment (that is a transport form of a frame).
pub proof fn lemma_graph_nodes_hold_no_delta(t: &Transcript)
    requires
        t.wf(),
    ensures
        forall|i: int| 0 <= i < t.graph().len() ==> (#[trigger] t.graph()[i]).1.delta is None,
{
}

/// A frame with both a body increment and a whole body is refused: the
/// graph, the position numbers, the frame counter and the deliveries stay
/// as they were.
pub proof fn lemma_conflicting_frame_changes_nothing(a: &Transcript, msg: ChatMessage, b: &Transcript)
    requires
        applied(a, msg, b),
        msg.delta is Some,
        msg.content is Some,
    ensures
        b.graph() == a.graph(),
        b.next_seq() == a.next_seq(),
        b.frame_no() == a.frame_no(),
        b.sent() == a.sent(),
        b.pending() == a.pending(),
{
}

/// A removal frame drops its node and nothing else: the other nodes stay,
/// unchanged and in order, no node is added, and the id is no longer found.
pub proof fn lemma_removal_drops_only_its_node(a: &Transcript, msg: ChatMessage, b: &Transcript)
    requires
        a.wf(),
        applied(a, msg, b),
        msg.status == Some(MessageStatus::Removed),
        !(msg.delta is Some && msg.content is Some),
    ensures
        b.graph() == without_key(a.graph(), msg.id@),
        find_key(b.graph(), msg.id@) < 0,
        b.next_seq() == a.next_seq(),
{
    let es = a.graph();
    let i = find_key(es, msg.id@);
    lemma_find_key(es, msg.id@);
    let es2 = b.graph();
    lemma_find_key(es2, msg.id@);
    let f = find_key(es2, msg.id@);
    if f >= 0 {
        if i >= 0 {
            if f < i {
                assert(es2[f] == es[f]);
                assert(es[f].0 != es[i].0);
            } else {
                assert(es2[f] == es[f + 1]);
                assert(es[i].0 != es[f + 1].0);
            }
        }
    }
}

/// Every position number a transcript hands to a new node is an in-flight
/// number, so in-flight messages sort after every stored one.
pub proof fn lemma_new_nodes_get_inflight_numbers(t: &Transcript)
    requires
        t.wf(),
    ensures
        t.next_seq() >= INFLIGHT_SEQ_BASE,
{
}

/// A delivery sits at the address of what it carries.
pub open spec fn delivered_at(sid: Seq<char>, d: Delivery) -> bool {
    match d.payload {
        Payload::Message(m) => d.path@ == message_path_spec(sid, m.id@),
        Payload::Session(_) => d.path@ == sid,
    }
}

} // verus!

verus! {

/// `b` received frame `f` for delivery after `a`, whichever way the merge
/// window's clock stood.
pub open spec fn delivered(a: &Transcript, b: &Transcript, f: ChatMessage) -> bool {
    deliver_step(a.sent(), a.pending(), f, true, b.sent(), b.pending())
        || deliver_step(a.sent(), a.pending(), f, false, b.sent(), b.pending())
}

/// The body increment a delivery carries for node `id` (empty for any
/// other delivery).
pub open spec fn delta_of(p: Payload, id: Seq<char>) -> Seq<char> {
    match p {
        Payload::Message(m) => if m.id@ == id && m.delta is Some {
            m.delta->0@
        } else {
            Seq::empty()
        },
        Payload::Session(_) => Seq::empty(),
    }
}

/// The increments of node `id` over deliveries, in order.
pub open spec fn delta_text(out: Seq<Payload>, id: Seq<char>) -> Seq<char>
    decreases out.len(),
{
    if out.len() == 0 {
        Seq::empty()
    } else {
        delta_text(out.drop_last(), id) + delta_of(out.last(), id)
    }
}

/// The increments of node `id` delivered so far, followed by those waiting
/// in the open window.
pub open spec fn streamed_text(out: Seq<Payload>, pend: Option<ChatMessage>, id: Seq<char>) -> Seq<
    char,
> {
    delta_text(out, id) + match pend {
        Some(p) => delta_of(Payload::Message(p), id),
        None => Seq::empty(),
    }
}

/// Closing the window moves its increments, unchanged, to the deliveries.
proof fn lemma_flush_keeps_text(out: Seq<Payload>, pend: Option<ChatMessage>, id: Seq<char>)
    ensures
        streamed_text(flushed(out, pend), None, id) == streamed_text(out, pend, id),
{
    match pend {
        Some(p) => {
            assert(out.push(Payload::Message(p)).drop_last() =~= out);
            assert(streamed_text(flushed(out, pend), None, id) =~= streamed_text(out, pend, id));
        },
        None => {
            assert(streamed_text(out, None, id) =~= delta_text(out, id));
        },
    }
}

/// One delivery step adds exactly the frame's increment to what is
/// streamed of each node: merging never loses, doubles or reorders text.
pub proof fn lemma_deliver_step_keeps_text(
    out: Seq<Payload>,
    pend: Option<ChatMessage>,
    m: ChatMessage,
    expired: bool,
    out2: Seq<Payload>,
    pend2: Option<ChatMessage>,
    id: Seq<char>,
)
    requires
        deliver_step(out, pend, m, expired, out2, pend2),
        pend matches Some(p) ==> pure_delta(p),
    ensures
        streamed_text(out2, pend2, id) == streamed_text(out, pend, id) + delta_of(
            Payload::Message(m),
            id,
        ),
{
    lemma_flush_keeps_text(out, pend, id);
    let out0 = if expired {
        flushed(out, pend)
    } else {
        out
    };
    let pend0 = if expired {
        None
    } else {
        pend
    };
    assert(streamed_text(out0, pend0, id) == streamed_text(out, pend, id));
    lemma_flush_keeps_text(out0, pend0, id);
    let f0 = flushed(out0, pend0);
    if !pure_delta(m) {
        assert(f0.push(Payload::Message(m)).drop_last() =~= f0);
        assert(streamed_text(out2, pend2, id) =~= streamed_text(f0, None, id) + delta_of(
            Payload::Message(m),
            id,
        ));
    } else if pend0 is Some && pend0->0.id@ == m.id@ {
        let p = pend0->0;
        assert(streamed_text(out2, pend2, id) =~= streamed_text(out0, pend0, id) + delta_of(
            Payload::Message(m),
            id,
        ));
    } else {
        assert(streamed_text(out2, pend2, id) =~= streamed_text(f0, None, id) + delta_of(
            Payload::Message(m),
            id,
        ));
    }
}

/// Whatever the merge window's clock said, a delivery adds exactly the
/// frame's increment to what is streamed of each node.
pub proof fn lemma_delivery_keeps_streamed_text(a: &Transcript, b: &Transcript, f: ChatMessage, id: Seq<char>)
    requires
        a.wf(),
        delivered(a, b, f),
    ensures
        streamed_text(b.sent(), b.pending(), id) == streamed_text(a.sent(), a.pending(), id)
            + delta_of(Payload::Message(f), id),
{
    if deliver_step(a.sent(), a.pending(), f, true, b.sent(), b.pending()) {
        lemma_deliver_step_keeps_text(a.sent(), a.pending(), f, true, b.sent(), b.pending(), id);
    } else {
        lemma_deliver_step_keeps_text(a.sent(), a.pending(), f, false, b.sent(), b.pending(), id);
    }
}

/// A frame carrying both a delta and a whole body: which one applies is
/// undecidable, so it is refused.
pub open spec fn conflicting(msg: ChatMessage) -> bool {
    msg.delta is Some && msg.content is Some
}

/// A frame that removes its node.
pub open spec fn removes(msg: ChatMessage) -> bool {
    msg.status == Some(MessageStatus::Removed)
}

/// The error line of a frame refused for carrying both a body increment
/// and a whole body.
pub open spec fn conflict_line(id: Seq<char>) -> Seq<char> {
    "[Transcript] protocol violation: node "@ + id + " carries both delta and content in one frame; frame dropped"@
}

/// The detail column of a removal: the removed node's name, else its id,
/// else `(not in flight)` when no node had the frame's id.
pub open spec fn removal_detail(es: Seq<(Seq<char>, ChatMessage)>, id: Seq<char>) -> Seq<char> {
    let i = find_key(es, id);
    if i < 0 {
        "(not in flight)"@
    } else {
        match es[i].1.name {
            Some(n) => n@,
            None => es[i].1.id@,
        }
    }
}

/// What one application of frame `msg`, from `a` to `b`, adds to the log
/// (see [`Transcript::apply`]): a conflicting frame one error line
/// ([`conflict_line`]); a removal the lines of the frame at skeleton level
/// with [`removal_detail`]; any other frame the lines of the frame it
/// delivers (the frame itself for a known node, the new node otherwise),
/// with its phase, level and detail (see [`frame_log_spec`] and
/// [`frame_detail_spec`]).
pub open spec fn apply_log_lines(a: &Transcript, msg: ChatMessage, b: &Transcript) -> Seq<
    (LogLevel, Seq<char>),
> {
    let es = a.graph();
    let i = find_key(es, msg.id@);
    if conflicting(msg) {
        seq![(LogLevel::Error, conflict_line(msg.id@))]
    } else if removes(msg) {
        frame_log_lines(
            a.log_run(),
            (a.frame_no() + 1) as nat,
            msg,
            FrameLogLevel::Skeleton,
            removal_detail(es, msg.id@),
        )
    } else {
        let existed = i >= 0;
        let phase = frame_log_spec(existed, msg.status).0;
        let level = frame_log_spec(existed, msg.status).1;
        let frame = if existed {
            msg
        } else {
            b.graph()[es.len() as int].1
        };
        frame_log_lines(
            a.log_run(),
            (a.frame_no() + 1) as nat,
            frame,
            level,
            frame_detail_spec(phase, level, msg),
        )
    }
}

/// What one application of frame `msg` does, from `a` to `b` (see
/// [`Transcript::apply`]): a conflicting frame changes nothing of the graph,
/// the numbers or the deliveries; a removal deletes the node and delivers the
/// frame; any other frame is merged into its node (or a new one, appended)
/// and delivered.
pub open spec fn applied(a: &Transcript, msg: ChatMessage, b: &Transcript) -> bool {
    &&& (conflicting(msg) ==> {
        &&& b.graph() == a.graph()
        &&& b.next_seq() == a.next_seq()
        &&& b.frame_no() == a.frame_no()
        &&& b.sent() == a.sent()
        &&& b.pending() == a.pending()
    })
    &&& (!conflicting(msg) && removes(msg) ==> {
        let es = a.graph();
        let i = find_key(es, msg.id@);
        &&& b.graph() == (if i < 0 {
            es
        } else {
            es.remove(i)
        })
        &&& b.next_seq() == a.next_seq()
        &&& b.frame_no() == a.frame_no() + 1
        &&& delivered(a, b, msg)
    })
    &&& (!conflicting(msg) && !removes(msg) ==> {
        let es = a.graph();
        let i = find_key(es, msg.id@);
        let j = if i < 0 {
            es.len() as int
        } else {
            i
        };
        let fresh = i < 0 && msg.seq is None;
        let seq = if msg.seq is Some {
            msg.seq
        } else if i < 0 {
            Some(a.next_seq())
        } else {
            None
        };
        let base = if i < 0 {
            placeholder(msg.id)
        } else {
            es[i].1
        };
        let es2 = b.graph();
        &&& es2.len() == (if i < 0 {
            es.len() + 1
        } else {
            es.len() + 0
        })
        &&& forall|t: int| 0 <= t < es.len() && t != j ==> es2[t] == es[t]
        &&& es2[j].0 == msg.id@
        &&& merged_into(base, msg, seq, es2[j].1)
        &&& b.next_seq() == (if fresh {
            a.next_seq() + 1
        } else {
            a.next_seq() as int
        })
        &&& b.frame_no() == a.frame_no() + 1
        &&& delivered(
            a,
            b,
            if i < 0 {
                es2[j].1
            } else {
                msg
            },
        )
    })
}


/// Merging a frame without a body increment into the node it produced
/// changes nothing: every field it carries is already there.
pub proof fn lemma_merge_again_is_noop(base: ChatMessage, msg: ChatMessage, seq: Option<i64>, once: ChatMessage, twice: ChatMessage)
    requires
        msg.delta is None,
        merged_into(base, msg, seq, once),
        merged_into(once, msg, if msg.seq is Some { msg.seq } else { None }, twice),
        msg.seq is Some ==> seq == msg.seq,
    ensures
        twice == once,
{
}

/// The key of the node a frame merged into is found where it stands, in a
/// graph whose keys are distinct.
proof fn lemma_find_distinct(es: Seq<(Seq<char>, ChatMessage)>, j: int, k: Seq<char>)
    requires
        0 <= j < es.len(),
        es[j].0 == k,
        forall|a: int, b: int| 0 <= a < b < es.len() ==> es[a].0 != es[b].0,
    ensures
        find_key(es, k) == j,
{
    lemma_find_key(es, k);
    let f = find_key(es, k);
    if f >= 0 && f != j {
        if f < j {
            assert(es[f].0 != es[j].0);
        } else {
            assert(es[j].0 != es[f].0);
        }
    }
}

/// Applying the same frame twice leaves the in-flight graph as applying it
/// once, for a frame without a body increment: a whole body replaces the
/// node's body and every field it carries overwrites, so the second merge
/// finds them already in place; a removal finds nothing left to remove.
pub proof fn lemma_repeated_frame_is_idempotent(t0: &Transcript, t1: &Transcript, t2: &Transcript, msg: ChatMessage)
    requires
        t0.wf(),
        t1.wf(),
        applied(t0, msg, t1),
        applied(t1, msg, t2),
        msg.delta is None,
    ensures
        t2.graph() == t1.graph(),
{
    let es0 = t0.graph();
    let es1 = t1.graph();
    let k = msg.id@;
    assert(!conflicting(msg));
    if removes(msg) {
        let i0 = find_key(es0, k);
        lemma_find_key(es0, k);
        lemma_find_key(es1, k);
        let f = find_key(es1, k);
        if f >= 0 {
            assert(es1[f].0 == k);
            if i0 >= 0 {
                assert(es1 == es0.remove(i0));
                if f < i0 {
                    assert(es1[f] == es0[f]);
                    assert(es0[f].0 != es0[i0].0);
                } else {
                    assert(es1[f] == es0[f + 1]);
                    assert(es0[i0].0 != es0[f + 1].0);
                }
            } else {
                assert(es1 == es0);
            }
        }
        assert(t2.graph() == es1);
    } else {
        let i0 = find_key(es0, k);
        lemma_find_key(es0, k);
        let j = if i0 < 0 { es0.len() as int } else { i0 };
        let seq1 = if msg.seq is Some { msg.seq } else if i0 < 0 { Some(t0.next_seq()) } else { None };
        let base = if i0 < 0 { placeholder(msg.id) } else { es0[i0].1 };
        assert(es1[j].0 == k);
        assert(merged_into(base, msg, seq1, es1[j].1));
        lemma_find_distinct(es1, j, k);
        let es2 = t2.graph();
        let seq2 = if msg.seq is Some { msg.seq } else { None };
        assert(merged_into(es1[j].1, msg, seq2, es2[j].1));
        lemma_merge_again_is_noop(base, msg, seq1, es1[j].1, es2[j].1);
        assert(es2[j] == es1[j]);
        assert(es2 =~= es1);
    }
}

fn text_len(c: &MessageContent) -> (n: u64)
    ensures
        n == content_text(*c).len(),
{
    let v = c.text_chars();
    v.len() as u64
}

impl Transcript {
    /// An empty transcript of session `session_id`.
    pub fn new(session_id: String) -> (t: Self)
        ensures
            t.wf(),
            t.sid() == session_id@,
            t.graph() == Seq::<(Seq<char>, ChatMessage)>::empty(),
            t.next_seq() == INFLIGHT_SEQ_BASE,
            t.frame_no() == 0,
            t.sent() == Seq::<Payload>::empty(),
            t.pending() is None,
            !t.log_run_open(),
            t.log_chars() == 0,
    {
        let t = Transcript {
            session_id,
            next_seq: INFLIGHT_SEQ_BASE,
            frame_no: 0,
            nodes: graph_new(),
            pending: None,
            delta_log: DeltaLogCoalescer::new(),
            outbox: Vec::new(),
            log: Vec::new(),
        };
        assert(payloads(t.outbox@) =~= Seq::<Payload>::empty());
        t
    }

    fn push_log(&mut self, level: LogLevel, text: String)
        ensures
            final(self).session_id == old(self).session_id,
            final(self).next_seq == old(self).next_seq,
            final(self).frame_no == old(self).frame_no,
            final(self).nodes == old(self).nodes,
            final(self).pending == old(self).pending,
            final(self).delta_log == old(self).delta_log,
            final(self).outbox == old(self).outbox,
            final(self).logged() == old(self).logged().push(LogLine { level, text }),
    {
        self.log.push(LogLine { level, text });
    }

    /// The only exit of deliveries.
    fn publish(&mut self, message: ChatMessage)
        requires
            old(self).wf(),
        ensures
            final(self).wf(),
            final(self).sent() == old(self).sent().push(Payload::Message(message)),
            final(self).session_id == old(self).session_id,
            final(self).next_seq == old(self).next_seq,
            final(self).frame_no == old(self).frame_no,
            final(self).nodes == old(self).nodes,
            final(self).pending == old(self).pending,
            final(self).delta_log == old(self).delta_log,
            final(self).log == old(self).log,
    {
        let path = message_path(self.session_id.as_str(), message.id.as_str());
        let ghost before = self.outbox@;
        self.outbox.push(Delivery { path, payload: Payload::Message(message) });
        assert(payloads(self.outbox@) =~= payloads(before).push(Payload::Message(message)));
        assert forall|i: int| 0 <= i < self.outbox@.len() implies delivered_at(
            self.session_id@,
            #[trigger] self.outbox@[i],
        ) by {
            if i < before.len() {
                assert(self.outbox@[i] == before[i]);
            }
        }
    }

    /// Delivers the pending window, if any.
    fn flush_pending(&mut self)
        requires
            old(self).wf(),
        ensures
            final(self).wf(),
            final(self).sent() == flushed(old(self).sent(), old(self).pending()),
            final(self).pending is None,
            final(self).session_id == old(self).session_id,
            final(self).next_seq == old(self).next_seq,
            final(self).frame_no == old(self).frame_no,
            final(self).nodes == old(self).nodes,
            final(self).delta_log == old(self).delta_log,
            final(self).log == old(self).log,
    {
        match self.pending.take() {
            Some(p) => self.publish(p.frame),
            None => {},
        }
    }

    /// One delivery step, given whether the pending window has expired.
    fn deliver_with(&mut self, message: ChatMessage, expired: bool)
        requires
            old(self).wf(),
        ensures
            final(self).wf(),
            deliver_step(
                old(self).sent(),
                old(self).pending(),
                message,
                expired,
                final(self).sent(),
                final(self).pending(),
            ),
            final(self).session_id == old(self).session_id,
            final(self).next_seq == old(self).next_seq,
            final(self).frame_no == old(self).frame_no,
            final(self).nodes == old(self).nodes,
            final(self).delta_log == old(self).delta_log,
            final(self).log == old(self).log,
    {
        let mut message = message;
        let ghost m0 = message;
        if expired {
            self.flush_pending();
        }
        if message.content.is_none() && message.status.is_none() && message.delta.is_some() {
            let d = message.delta.take().unwrap();
            let p = self.pending.take();
            match p {
                Some(mut pd) => {
                    if str_eq(pd.frame.id.as_str(), message.id.as_str()) {
                        let mut buf = pd.frame.delta.take().unwrap();
                        buf.append(d.as_str());
                        pd.frame.delta = Some(buf);
                        self.pending = Some(pd);
                        return;
                    }
                    self.publish(pd.frame);
                },
                None => {},
            }
            message.delta = Some(d);
            assert(message == m0);
            self.pending = Some(PendingDelta { frame: message, started: instant_now() });
        } else {
            self.flush_pending();
            self.publish(message);
        }
    }

    /// Delivers one frame through the merge window.
    fn deliver(&mut self, message: ChatMessage)
        requires
            old(self).wf(),
        ensures
            final(self).wf(),
            delivered(old(self), final(self), message),
            final(self).session_id == old(self).session_id,
            final(self).next_seq == old(self).next_seq,
            final(self).frame_no == old(self).frame_no,
            final(self).nodes == old(self).nodes,
            final(self).delta_log == old(self).delta_log,
            final(self).log == old(self).log,
    {
        let expired = match &self.pending {
            Some(p) => elapsed_ms(&p.started) >= DELIVER_WINDOW_MS as u128,
            None => false,
        };
        self.deliver_with(message, expired);
    }

    /// Logs one frame and delivers it; the frame counter advances by one.
    fn emit(&mut self, message: ChatMessage, level: FrameLogLevel, detail: String)
        requires
            old(self).wf(),
            old(self).frame_no < u64::MAX,
            old(self).delta_log.has_room(message, level == FrameLogLevel::Detail),
        ensures
            final(self).wf(),
            delivered(old(self), final(self), message),
            final(self).session_id == old(self).session_id,
            final(self).next_seq == old(self).next_seq,
            final(self).frame_no == old(self).frame_no + 1,
            final(self).nodes == old(self).nodes,
            final(self).log_chars() <= old(self).log_chars() + delta_len(message),
            log_view(final(self).logged()) == log_view(old(self).logged()) + frame_log_lines(
                old(self).delta_log.run,
                (old(self).frame_no + 1) as nat,
                message,
                level,
                detail@,
            ),
    {
        let ghost log0 = self.log@;
        let ghost run0 = self.delta_log.run;
        self.frame_no = self.frame_no + 1;
        let frame_no = self.frame_no;
        let (flushed_line, absorbed) = self.delta_log.feed(
            &message,
            frame_no,
            level == FrameLogLevel::Detail,
        );
        let ghost lines = frame_log_lines(run0, frame_no as nat, message, level, detail@);
        let ghost folded = foldable_delta(message, level == FrameLogLevel::Detail);
        let ghost closing: Seq<(LogLevel, Seq<char>)> = if folded && (run0 matches Some(r)
            && r.message_id@ == message.id@) {
            Seq::empty()
        } else {
            match run_flush(run0) {
                Some(t) => seq![(LogLevel::Debug, t)],
                None => Seq::empty(),
            }
        };
        match flushed_line {
            Some(line) => {
                let ghost l0 = self.log@;
                self.push_log(LogLevel::Debug, line);
                assert(log_view(self.log@) =~= log_view(l0).push((LogLevel::Debug, line@)));
            },
            None => {},
        }
        assert(log_view(self.log@) =~= log_view(log0) + closing);
        if !absorbed {
            let status: &str = match &message.status {
                Some(s) => s.as_str(),
                None => "-",
            };
            let line = render_frame_line(frame_no, message.id.as_str(), status, detail.as_str());
            let lv = match level {
                FrameLogLevel::Skeleton => LogLevel::Info,
                FrameLogLevel::Detail => LogLevel::Debug,
            };
            let ghost l1 = self.log@;
            self.push_log(lv, line);
            assert(log_view(self.log@) =~= log_view(l1).push((lv, line@)));
            assert(line@ == frame_line(frame_no as nat, message.id@, status_text(message.status), detail@));
        }
        assert(log_view(self.log@) =~= log_view(log0) + lines);
        self.deliver(message);
    }
}

} // verus!

verus! {

impl Transcript {
    /// Whether the transcript's counters have room for frame `msg`.
    pub fn within_limits(&self, msg: &ChatMessage) -> (r: bool)
        ensures
            r == (self.frame_no() < u64::MAX && self.next_seq() < i64::MAX && self.log_room(*msg)),
    {
        if self.frame_no == u64::MAX || self.next_seq == i64::MAX {
            return false;
        }
        match (&msg.delta, &msg.status) {
            (Some(d), None) => match &self.delta_log.run {
                Some(r) => {
                    if str_eq(r.message_id.as_str(), msg.id.as_str()) {
                        r.frames < u64::MAX && d.as_str().unicode_len() <= usize::MAX - r.chars
                    } else {
                        true
                    }
                },
                None => true,
            },
            _ => true,
        }
    }

    /// The single entry of message changes: merges frame `msg` into the
    /// in-flight graph, numbers new nodes, logs the frame and delivers it.
    ///
    /// - A frame with both `delta` and `content` is refused: nothing changes
    ///   but an error line in the log.
    /// - `status = removed` deletes the node (if present) and delivers the
    ///   frame.
    /// - Otherwise the frame is merged into the node (a placeholder for an
    ///   unknown id, appended last). A frame's own `seq` is used; a new node
    ///   without one takes the next in-flight number. A new node is
    ///   delivered as its whole merged copy, an existing one as the frame.
    pub fn apply(&mut self, msg: ChatMessage)
        requires
            old(self).wf(),
            !conflicting(msg) ==> old(self).frame_no() < u64::MAX && old(self).log_room(msg),
            !conflicting(msg) && !removes(msg) && find_key(old(self).graph(), msg.id@) < 0
                && msg.seq is None ==> old(self).next_seq() < i64::MAX,
        ensures
            final(self).wf(),
            final(self).sid() == old(self).sid(),
            applied(old(self), msg, final(self)),
            final(self).log_chars() <= old(self).log_chars() + delta_len(msg),
            log_view(final(self).logged()) == log_view(old(self).logged()) + apply_log_lines(
                old(self),
                msg,
                final(self),
            ),
    {
        let ghost log0 = self.log@;
        if msg.delta.is_some() && msg.content.is_some() {
            let mut v: Vec<char> = Vec::new();
            push_str_chars(&mut v, "[Transcript] protocol violation: node ");
            push_str_chars(&mut v, msg.id.as_str());
            push_str_chars(&mut v, " carries both delta and content in one frame; frame dropped");
            let line = string_of(v.as_slice());
            assert(line@ == conflict_line(msg.id@));
            self.push_log(LogLevel::Error, line);
            assert(log_view(self.log@) =~= log_view(log0).push((LogLevel::Error, conflict_line(msg.id@))));
            return;
        }
        let ghost es = self.graph();
        proof {
            lemma_find_key(es, msg.id@);
        }
        if matches!(msg.status, Some(MessageStatus::Removed)) {
            let removed = graph_shift_remove(&mut self.nodes, msg.id.as_str());
            let detail = match removed {
                Some(n) => match n.name {
                    Some(name) => name,
                    None => n.id,
                },
                None => string_of(chars_of("(not in flight)").as_slice()),
            };
            assert(detail@ == removal_detail(es, msg.id@));
            proof {
                let i = find_key(es, msg.id@);
                if i >= 0 {
                    let es2 = es.remove(i);
                    assert forall|a: int, b: int| 0 <= a < b < es2.len() implies es2[a].0
                        != es2[b].0 by {
                        let a0 = if a < i { a } else { a + 1 };
                        let b0 = if b < i { b } else { b + 1 };
                        assert(es2[a] == es[a0]);
                        assert(es2[b] == es[b0]);
                    }
                    assert forall|a: int| 0 <= a < es2.len() implies es2[a].1.id@ == es2[a].0 by {
                        let a0 = if a < i { a } else { a + 1 };
                        assert(es2[a] == es[a0]);
                    }
                }
            }
            self.emit(msg, FrameLogLevel::Skeleton, detail);
            return;
        }
        let found = graph_get(&self.nodes, msg.id.as_str());
        let existed = found.is_some();
        let allocated: Option<i64> = match msg.seq {
            Some(s) => Some(s),
            None => {
                if !existed {
                    let s = self.next_seq;
                    self.next_seq = self.next_seq + 1;
                    Some(s)
                } else {
                    None
                }
            },
        };
        let mut node = match found {
            Some(n) => n,
            None => ChatMessage::with_id(msg.id.clone()),
        };
        let ghost base = node;
        let node = merge_frame(node, &msg, allocated);
        let (phase, level) = frame_log_of(existed, msg.status.as_ref());
        let detail = frame_detail(phase, level, &msg);
        let frame = if existed {
            msg
        } else {
            node.copy()
        };
        let key = frame.id.clone();
        graph_insert(&mut self.nodes, key, node);
        proof {
            let es2 = self.graph();
            let i = find_key(es, msg.id@);
            assert forall|a: int, b: int| 0 <= a < b < es2.len() implies es2[a].0
                != es2[b].0 by {
                if i < 0 {
                    if b == es.len() {
                        assert(es[a].0 != msg.id@);
                    }
                } else {
                    if a == i {
                        assert(es[b].0 != es[i].0);
                    }
                    if b == i {
                        assert(es[a].0 != es[i].0);
                    }
                }
            }
        }
        self.emit(frame, level, detail);
    }
}

} // verus!

verus! {

/// `node` with frame `msg` merged in (see [`merged_into`]).
fn merge_frame(node: ChatMessage, msg: &ChatMessage, allocated: Option<i64>) -> (out: ChatMessage)
    ensures
    merged_into(node, *msg, allocated, out),
{
    let mut node = node;
    if msg.parent_id.is_some() {
        node.parent_id = copy_opt_string(&msg.parent_id);
    }
    if msg.role.is_some() {
        node.role = msg.role;
    }
    if msg.msg_type.is_some() {
        node.msg_type = msg.msg_type;
    }
    if msg.name.is_some() {
        node.name = copy_opt_string(&msg.name);
    }
    if msg.tool_call_id.is_some() {
        node.tool_call_id = copy_opt_string(&msg.tool_call_id);
    }
    if msg.meta.is_some() {
        node.meta = copy_opt_json(&msg.meta);
    }
    match allocated {
        Some(s) => {
            node.seq = Some(s);
        },
        None => {},
    }
    if msg.timestamp.is_some() {
        node.timestamp = msg.timestamp;
    }
    if msg.status.is_some() {
        node.status = msg.status;
    }
    if msg.error.is_some() {
        node.error = copy_opt_string(&msg.error);
    }
    match &msg.delta {
        Some(d) => {
            let c = node.content.take();
            node.content = match c {
                Some(MessageContent::Text(buf)) => {
                    let mut buf = buf;
                    buf.append(d.as_str());
                    Some(MessageContent::Text(buf))
                },
                _ => Some(MessageContent::Text(d.clone())),
            };
        },
        None => match &msg.content {
            Some(c) => {
                node.content = Some(c.copy());
            },
            None => {},
        },
    }
    node
}

/// The detail column of a frame's log line: the phase, then `+Nc` for a
/// delta or `=Nc` for a whole body. A detail-level pure delta (folded into
/// a run) gets an empty detail, which is never read.
/// The detail column of a frame's log line: the phase, then `+Nc` for a
/// delta or `=Nc` for a whole body. A detail-level pure delta (folded into
/// a run) gets an empty detail, which is never read.
pub open spec fn frame_detail_spec(phase: Seq<char>, level: FrameLogLevel, msg: ChatMessage) -> Seq<char> {
    if level == FrameLogLevel::Detail && msg.delta is Some && msg.status is None {
        Seq::empty()
    } else {
        phase + match msg.delta {
            Some(d) => " +"@ + dec(d@.len()) + "c"@,
            None => match msg.content {
                Some(c) => " ="@ + dec(content_text(c).len()) + "c"@,
                None => Seq::empty(),
            },
        }
    }
}

fn frame_detail(phase: &str, level: FrameLogLevel, msg: &ChatMessage) -> (r: String)
    ensures
        r@ == frame_detail_spec(phase@, level, *msg),
{
    if level == FrameLogLevel::Detail && msg.delta.is_some() && msg.status.is_none() {
        String::new()
    } else {
        let mut v: Vec<char> = Vec::new();
        push_str_chars(&mut v, phase);
        match &msg.delta {
            Some(d) => {
                push_str_chars(&mut v, " +");
                push_decimal(&mut v, d.as_str().unicode_len() as u64);
                push_str_chars(&mut v, "c");
            },
            None => match &msg.content {
                Some(c) => {
                    push_str_chars(&mut v, " =");
                    push_decimal(&mut v, text_len(c));
                    push_str_chars(&mut v, "c");
                },
                None => {},
            },
        }
        string_of(v.as_slice())
    }
}

} // verus!

verus! {

/// Whether `k` is one of `ids`.
pub open spec fn listed(ids: Seq<String>, k: Seq<char>) -> bool {
    exists|t: int| 0 <= t < ids.len() && ids[t]@ == k
}

/// Whether some entry has key `k`.
pub open spec fn has_key(es: Seq<(Seq<char>, ChatMessage)>, k: Seq<char>) -> bool {
    exists|t: int| 0 <= t < es.len() && es[t].0 == k
}

impl Transcript {
    /// Removes the node with id `id` (if in flight), keeping the others in
    /// order; no delivery.
    fn forget(&mut self, id: &str)
        requires
            old(self).wf(),
        ensures
            final(self).wf(),
            final(self).sent() == old(self).sent(),
            final(self).pending() == old(self).pending(),
            final(self).frame_no() == old(self).frame_no(),
            final(self).next_seq() == old(self).next_seq(),
            final(self).sid() == old(self).sid(),
            final(self).delta_log == old(self).delta_log,
            final(self).graph() == without_key(old(self).graph(), id@),
            forall|k: Seq<char>| #[trigger]
                has_key(final(self).graph(), k) <==> has_key(old(self).graph(), k) && k != id@,
            forall|t: int|
                0 <= t < final(self).graph().len() ==> old(self).graph().contains(
                    #[trigger] final(self).graph()[t],
                ),
    {
        let ghost es = self.graph();
        proof {
            lemma_find_key(es, id@);
        }
        let _ = graph_shift_remove(&mut self.nodes, id);
        proof {
            let i = find_key(es, id@);
            let es2 = self.graph();
            if i >= 0 {
                assert forall|a: int, b: int| 0 <= a < b < es2.len() implies es2[a].0
                    != es2[b].0 by {
                    let a0 = if a < i { a } else { a + 1 };
                    let b0 = if b < i { b } else { b + 1 };
                    assert(es2[a] == es[a0]);
                    assert(es2[b] == es[b0]);
                }
                assert forall|a: int| 0 <= a < es2.len() implies es2[a].1.id@ == es2[a].0 by {
                    let a0 = if a < i { a } else { a + 1 };
                    assert(es2[a] == es[a0]);
                }
                assert forall|k: Seq<char>| #[trigger]
                    has_key(es2, k) <==> has_key(es, k) && k != id@ by {
                    if has_key(es2, k) {
                        let t = choose|t: int| 0 <= t < es2.len() && es2[t].0 == k;
                        let t0 = if t < i { t } else { t + 1 };
                        assert(es2[t] == es[t0]);
                        assert(es[t0].0 != es[i].0);
                    }
                    if has_key(es, k) && k != id@ {
                        let t = choose|t: int| 0 <= t < es.len() && es[t].0 == k;
                        assert(t != i);
                        let t2 = if t < i { t } else { t - 1 };
                        assert(es2[t2] == es[t]);
                    }
                }
                assert forall|t: int| 0 <= t < es2.len() implies es.contains(#[trigger] es2[t]) by {
                    let t0 = if t < i { t } else { t + 1 };
                    assert(es2[t] == es[t0]);
                }
            } else {
                assert forall|k: Seq<char>| #[trigger]
                    has_key(es2, k) <==> has_key(es, k) && k != id@ by {
                    if has_key(es, k) {
                        let t = choose|t: int| 0 <= t < es.len() && es[t].0 == k;
                        assert(es[t].0 != id@);
                    }
                }
                assert forall|t: int| 0 <= t < es2.len() implies es.contains(#[trigger] es2[t]) by {
                    assert(es2[t] == es[t]);
                }
            }
        }
    }

    /// Storage receipt: the authoritative copies of `ids` are stored. Closes
    /// the log run and the delivery window, then drops those nodes from the
    /// in-flight graph (nothing is delivered for them).
    pub fn persisted(&mut self, ids: &Vec<String>)
        requires
            old(self).wf(),
        ensures
            final(self).wf(),
            final(self).sid() == old(self).sid(),
            final(self).sent() == flushed(old(self).sent(), old(self).pending()),
            final(self).pending() is None,
            !final(self).log_run_open(),
            final(self).log_chars() == 0,
            final(self).frame_no() == old(self).frame_no(),
            final(self).next_seq() == old(self).next_seq(),
            final(self).graph() == without_keys(old(self).graph(), ids@),
            forall|k: Seq<char>| #[trigger]
                has_key(final(self).graph(), k) <==> has_key(old(self).graph(), k) && !listed(
                    ids@,
                    k,
                ),
            forall|t: int|
                0 <= t < final(self).graph().len() ==> old(self).graph().contains(
                    #[trigger] final(self).graph()[t],
                ),
            forall|t: int|
                0 <= t < final(self).graph().len() ==> #[trigger] old(self).graph()[find_key(
                    old(self).graph(),
                    final(self).graph()[t].0,
                )] == final(self).graph()[t],
            forall|a: int, b: int|
                0 <= a < b < final(self).graph().len() ==> find_key(
                    old(self).graph(),
                    #[trigger] final(self).graph()[a].0,
                ) < find_key(old(self).graph(), #[trigger] final(self).graph()[b].0),
    {
        let line = self.delta_log.flush();
        match line {
            Some(l) => self.push_log(LogLevel::Debug, l),
            None => {},
        }
        self.flush_pending();
        let ghost es0 = self.graph();
        let mut n: usize = 0;
        assert(ids@.take(0) =~= Seq::<String>::empty());
        while n < ids.len()
            invariant
                self.wf(),
                n <= ids.len(),
                self.sent() == flushed(old(self).sent(), old(self).pending()),
                self.pending() is None,
                !self.log_run_open(),
                self.frame_no() == old(self).frame_no(),
                self.next_seq() == old(self).next_seq(),
                self.sid() == old(self).sid(),
                es0 == old(self).graph(),
                self.graph() == without_keys(es0, ids@.take(n as int)),
                forall|k: Seq<char>| #[trigger]
                    has_key(self.graph(), k) <==> has_key(es0, k) && !listed(ids@.take(n as int), k),
                forall|t: int| 0 <= t < self.graph().len() ==> es0.contains(#[trigger] self.graph()[t]),
            decreases ids.len() - n,
        {
            let ghost before = self.graph();
            self.forget(ids[n].as_str());
            proof {
                assert(ids@.take(n + 1 as int).drop_last() =~= ids@.take(n as int));
                assert(self.graph() == without_keys(es0, ids@.take(n + 1 as int)));
                assert forall|k: Seq<char>| #[trigger]
                    has_key(self.graph(), k) <==> has_key(es0, k) && !listed(
                        ids@.take(n + 1 as int),
                        k,
                    ) by {
                    if listed(ids@.take(n + 1 as int), k) && k != ids@[n as int]@ {
                        let s1 = ids@.take(n + 1 as int);
                        let t = choose|t: int| 0 <= t < s1.len() && #[trigger] s1[t]@ == k;
                        assert(ids@.take(n as int)[t] == ids@[t]);
                    }
                    if listed(ids@.take(n as int), k) {
                        let s0 = ids@.take(n as int);
                        let t = choose|t: int| 0 <= t < s0.len() && #[trigger] s0[t]@ == k;
                        assert(ids@.take(n + 1 as int)[t] == ids@[t]);
                    }
                    if k == ids@[n as int]@ {
                        assert(ids@.take(n + 1 as int)[n as int] == ids@[n as int]);
                    }
                }
                assert forall|t: int| 0 <= t < self.graph().len() implies es0.contains(
                    #[trigger] self.graph()[t],
                ) by {
                    assert(before.contains(self.graph()[t]));
                    let u = choose|u: int| 0 <= u < before.len() && before[u] == self.graph()[t];
                    assert(es0.contains(before[u]));
                }
            }
            n = n + 1;
        }
        assert(ids@.take(ids.len() as int) =~= ids@);
        proof {
            lemma_without_keys_keeps_order(es0, ids@);
        }
    }

    /// The in-flight nodes, in insertion order.
    pub fn snapshot(&self) -> (r: Vec<ChatMessage>)
        ensures
            r@ == self.graph().map_values(|e: (Seq<char>, ChatMessage)| e.1),
    {
        graph_values(&self.nodes)
    }

    /// The in-flight node with id `id`.
    pub fn get(&self, id: &str) -> (r: Option<ChatMessage>)
        ensures
            r == (if find_key(self.graph(), id@) < 0 {
                None
            } else {
                Some(self.graph()[find_key(self.graph(), id@)].1)
            }),
    {
        graph_get(&self.nodes, id)
    }

    /// Turn boundary: closes the log run and the delivery window and empties
    /// the in-flight graph.
    pub fn clear(&mut self)
        requires
            old(self).wf(),
        ensures
            final(self).wf(),
            final(self).sid() == old(self).sid(),
            final(self).graph() == Seq::<(Seq<char>, ChatMessage)>::empty(),
            final(self).sent() == flushed(old(self).sent(), old(self).pending()),
            final(self).pending() is None,
            !final(self).log_run_open(),
            final(self).log_chars() == 0,
            final(self).frame_no() == old(self).frame_no(),
            final(self).next_seq() == old(self).next_seq(),
    {
        let line = self.delta_log.flush();
        match line {
            Some(l) => self.push_log(LogLevel::Debug, l),
            None => {},
        }
        self.flush_pending();
        graph_clear(&mut self.nodes);
    }

    /// Delivers a change of the session's own state at the session's
    /// address, after closing the delivery window (earlier text first); the
    /// frame counter advances by one.
    pub fn emit_session_state(&mut self, node: Option<NodeView>)
        requires
            old(self).wf(),
            old(self).frame_no() < u64::MAX,
        ensures
            final(self).wf(),
            final(self).sid() == old(self).sid(),
            final(self).graph() == old(self).graph(),
            final(self).sent() == flushed(old(self).sent(), old(self).pending()).push(
                Payload::Session(node),
            ),
            final(self).pending() is None,
            final(self).frame_no() == old(self).frame_no() + 1,
            final(self).next_seq() == old(self).next_seq(),
            final(self).log_run_open() == old(self).log_run_open(),
            final(self).log_chars() == old(self).log_chars(),
    {
        self.frame_no = self.frame_no + 1;
        self.flush_pending();
        let mut v: Vec<char> = Vec::new();
        push_str_chars(&mut v, "[T#");
        push_decimal(&mut v, self.frame_no);
        push_str_chars(&mut v, "] <session> ");
        push_str_chars(&mut v, self.session_id.as_str());
        match &node {
            Some(n) => {
                push_str_chars(&mut v, " - session state ");
                push_str_chars(&mut v, n.status.as_str());
            },
            None => {
                push_str_chars(&mut v, " - session state changed (no view; read back to converge)");
            },
        }
        self.push_log(LogLevel::Info, string_of(v.as_slice()));
        let path = self.session_id.clone();
        let ghost before = self.outbox@;
        self.outbox.push(Delivery { path, payload: Payload::Session(node) });
        assert(payloads(self.outbox@) =~= payloads(before).push(Payload::Session(node)));
        assert forall|i: int| 0 <= i < self.outbox@.len() implies delivered_at(
            self.session_id@,
            #[trigger] self.outbox@[i],
        ) by {
            if i < before.len() {
                assert(self.outbox@[i] == before[i]);
            }
        }
    }

    /// Hands out the deliveries made so far, in order.
    pub fn take_deliveries(&mut self) -> (r: Vec<Delivery>)
        requires
            old(self).wf(),
        ensures
            final(self).wf(),
            payloads(r@) == old(self).sent(),
            forall|i: int| 0 <= i < r@.len() ==> delivered_at(old(self).sid(), #[trigger] r@[i]),
            final(self).sent() == Seq::<Payload>::empty(),
            final(self).sid() == old(self).sid(),
            final(self).graph() == old(self).graph(),
            final(self).pending() == old(self).pending(),
            final(self).frame_no() == old(self).frame_no(),
            final(self).next_seq() == old(self).next_seq(),
            final(self).log_run_open() == old(self).log_run_open(),
            final(self).log_chars() == old(self).log_chars(),
    {
        let mut out: Vec<Delivery> = Vec::new();
        std::mem::swap(&mut out, &mut self.outbox);
        assert(payloads(self.outbox@) =~= Seq::<Payload>::empty());
        out
    }

    /// Hands out the log lines written so far, in order.
    pub fn take_log(&mut self) -> (r: Vec<LogLine>)
        requires
            old(self).wf(),
        ensures
            r@ == old(self).logged(),
            final(self).logged() == Seq::<LogLine>::empty(),
            final(self).wf(),
            final(self).sent() == old(self).sent(),
            final(self).sid() == old(self).sid(),
            final(self).graph() == old(self).graph(),
            final(self).pending() == old(self).pending(),
            final(self).frame_no() == old(self).frame_no(),
            final(self).next_seq() == old(self).next_seq(),
            final(self).log_run_open() == old(self).log_run_open(),
            final(self).log_chars() == old(self).log_chars(),
    {
        let mut out: Vec<LogLine> = Vec::new();
        std::mem::swap(&mut out, &mut self.log);
        out
    }
}

} // verus!

verus! {

impl Default for DeltaLogCoalescer {
    /// No run pending.
    fn default() -> (c: Self)
        ensures
            c.run is None,
    {
        DeltaLogCoalescer { run: None }
    }
}

impl Transcript {
    /// The frame counter of the log.
    pub fn frame_count(&self) -> (r: u64)
        ensures
            r == self.frame_no(),
    {
        self.frame_no
    }

    /// The next in-flight position number.
    pub fn next_inflight_seq(&self) -> (r: i64)
        ensures
            r == self.next_seq(),
    {
        self.next_seq
    }

    /// Whether a run of pure deltas is waiting to be folded into a log line.
    pub fn has_open_log_run(&self) -> (b: bool)
        ensures
            b == self.log_run_open(),
    {
        self.delta_log.run.is_some()
    }

    /// Whether a delivery window is open.
    pub fn has_pending_delivery(&self) -> (b: bool)
        ensures
            b == (self.pending() is Some),
    {
        self.pending.is_some()
    }
}

} // verus!
