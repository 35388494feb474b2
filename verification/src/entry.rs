//! The decisions of the chat entry: request validation, the fallback
//! chains of the session parameters (request, then session metadata, then
//! default), the working directory and agent of a turn, the first-message
//! title, and the run state a state change leaves.
use vstd::prelude::*;
use crate::json::Json;
use crate::message::{ChatMessage, MessageContent, MessageRole, MessageStatus, content_text};
use crate::text::{chars_of, string_of, trim};
use vstd::string::StrSliceExecFns;
use crate::types::{Session, title_from};
use crate::nodes::{OUTCOME_ABORTED, OUTCOME_COMPLETED, OUTCOME_FAILED};

verus! {

/// An error of the session plugin.
#[derive(Debug)]
pub enum PluginError {
    NotFound(String),
    ValidationError(String),
    InternalError(String),
    ParseError(String),
}

/// One read of a session shared by every fallback of a request: either the
/// session or why it could not be read.
pub struct SessionSnapshot {
    pub provider_id: Option<String>,
    pub session: Result<Session, PluginError>,
}

/// The string field `key` of the snapshot's metadata; `None` for a failed
/// read, a missing field or a non-string value.
pub open spec fn meta_str_spec(s: SessionSnapshot, key: Seq<char>) -> Option<Seq<char>> {
    match s.session {
        Ok(sess) => Json::str_of(sess.metadata.field(key)),
        Err(_) => None,
    }
}

impl SessionSnapshot {
    /// The string field `key` of the metadata (see [`meta_str_spec`]).
    pub fn meta_str(&self, key: &str) -> (r: Option<String>)
        ensures
            match r {
                Some(v) => meta_str_spec(*self, key@) == Some(v@),
                None => meta_str_spec(*self, key@) is None,
            },
    {
        match &self.session {
            Ok(s) => match s.metadata.get_str(key) {
                Some(v) => Some(v.clone()),
                None => None,
            },
            Err(_) => None,
        }
    }

    /// Whether the session has a title: a non-blank string `title`. A
    /// failed read never claims one.
    pub fn has_title(&self) -> (b: bool)
        ensures
            b == (meta_str_spec(*self, "title"@) matches Some(t) && trim(t).len() > 0),
    {
        match self.meta_str("title") {
            Some(t) => {
                let v = chars_of(t.as_str());
                let (b, e) = crate::text::trim_indices(&v, 0, v.len());
                assert(v@.subrange(0, v@.len() as int) =~= v@);
                b < e
            },
            None => false,
        }
    }
}

/// A request value, then a metadata string, then nothing: an empty request
/// value counts as absent.
pub open spec fn fallback(req: Option<Seq<char>>, meta: Option<Seq<char>>) -> Option<Seq<char>> {
    match req {
        Some(r) => if r.len() > 0 {
            Some(r)
        } else {
            meta
        },
        None => meta,
    }
}

/// The metadata string `key` of a read session (`None` when the read
/// failed or the value is not a string).
pub open spec fn session_meta(session: Option<Session>, key: Seq<char>) -> Option<Seq<char>> {
    match session {
        Some(s) => Json::str_of(s.metadata.field(key)),
        None => None,
    }
}

fn meta_string(session: &Option<Session>, key: &str) -> (r: Option<String>)
    ensures
        match r {
            Some(v) => session_meta(*session, key@) == Some(v@),
            None => session_meta(*session, key@) is None,
        },
{
    match session {
        Some(s) => match s.metadata.get_str(key) {
            Some(v) => Some(v.clone()),
            None => None,
        },
        None => None,
    }
}

fn pick(req: &Option<String>, meta: Option<String>) -> (r: Option<String>)
    ensures
        crate::transcript::opt_view(r) == fallback(crate::transcript::opt_view(*req), crate::transcript::opt_view(meta)),
{
    match req {
        Some(v) => {
            if v.as_str().unicode_len() > 0 {
                Some(v.clone())
            } else {
                meta
            }
        },
        None => meta,
    }
}

/// The mode when nothing sets one.
pub const DEFAULT_MODE: &'static str = "auto";

/// The risk level when nothing sets one.
pub const DEFAULT_RISK_LEVEL: &'static str = "medium";

/// The parameters of a turn: mode, risk level and provider, each from the
/// request when it is set and not empty, else from the session metadata;
/// mode and risk level fall back to `auto` and `medium`, and an empty
/// provider counts as none.
pub fn resolve_session_params(
    req_mode: &Option<String>,
    req_risk_level: &Option<String>,
    req_provider_id: &Option<String>,
    session: &Option<Session>,
) -> (r: (String, String, Option<String>))
    ensures
        r.0@ == (match fallback(crate::transcript::opt_view(*req_mode), session_meta(*session, "mode"@)) {
            Some(m) => m,
            None => DEFAULT_MODE@,
        }),
        r.1@ == (match fallback(
            crate::transcript::opt_view(*req_risk_level),
            session_meta(*session, "risk_level"@),
        ) {
            Some(m) => m,
            None => DEFAULT_RISK_LEVEL@,
        }),
        crate::transcript::opt_view(r.2) == (match fallback(
            crate::transcript::opt_view(*req_provider_id),
            session_meta(*session, "provider_id"@),
        ) {
            Some(p) => if p.len() > 0 {
                Some(p)
            } else {
                None
            },
            None => None,
        }),
{
    let mode = match pick(req_mode, meta_string(session, "mode")) {
        Some(m) => m,
        None => string_of(chars_of(DEFAULT_MODE).as_slice()),
    };
    let risk = match pick(req_risk_level, meta_string(session, "risk_level")) {
        Some(m) => m,
        None => string_of(chars_of(DEFAULT_RISK_LEVEL).as_slice()),
    };
    let provider = match pick(req_provider_id, meta_string(session, "provider_id")) {
        Some(p) => {
            if p.as_str().unicode_len() > 0 {
                Some(p)
            } else {
                None
            }
        },
        None => None,
    };
    (mode, risk, provider)
}

/// The error of a send without message and resume.
pub const NEED_MESSAGE_OR_RESUME: &'static str = "必须提供 message 或 resume";

/// The error of a send with both.
pub const MESSAGE_XOR_RESUME: &'static str = "message 与 resume 互斥，不能同时提供";

/// A send carries exactly one of a message and a resume.
pub fn validate_send(has_message: bool, has_resume: bool) -> (r: Result<(), PluginError>)
    ensures
        has_message != has_resume <==> r is Ok,
        !has_message && !has_resume ==> (r matches Err(PluginError::ValidationError(m)) && m@
            == NEED_MESSAGE_OR_RESUME@),
        has_message && has_resume ==> (r matches Err(PluginError::ValidationError(m)) && m@
            == MESSAGE_XOR_RESUME@),
{
    if !has_message && !has_resume {
        return Err(PluginError::ValidationError(string_of(chars_of(NEED_MESSAGE_OR_RESUME).as_slice())));
    }
    if has_message && has_resume {
        return Err(PluginError::ValidationError(string_of(chars_of(MESSAGE_XOR_RESUME).as_slice())));
    }
    Ok(())
}

/// How a valid send is answered before the turn starts.
#[derive(Debug)]
pub enum SendGate {
    /// The turn is started (`accepted`).
    Accept,
    /// A resume while a turn runs is refused (`session_busy`).
    Busy,
}

/// A resume while the session is working is refused; everything else is
/// accepted.
pub fn send_gate(is_resume: bool, is_working: bool) -> (g: SendGate)
    ensures
        (g is Busy) == (is_resume && is_working),
{
    if is_resume && is_working {
        SendGate::Busy
    } else {
        SendGate::Accept
    }
}

/// The error of a session without a working directory.
pub const NO_WORKDIR: &'static str = "会话未绑定工作目录，且上下文未提供";

/// `读取会话元数据失败: <error>`.
pub open spec fn read_failed_text(e: Seq<char>) -> Seq<char> {
    "读取会话元数据失败: "@ + e
}

/// The text of a plugin error.
pub open spec fn error_text(e: PluginError) -> Seq<char> {
    match e {
        PluginError::NotFound(m) => m@,
        PluginError::ValidationError(m) => m@,
        PluginError::InternalError(m) => m@,
        PluginError::ParseError(m) => m@,
    }
}

fn error_text_of(e: &PluginError) -> (s: String)
    ensures
        s@ == error_text(*e),
{
    match e {
        PluginError::NotFound(m) => m.clone(),
        PluginError::ValidationError(m) => m.clone(),
        PluginError::InternalError(m) => m.clone(),
        PluginError::ParseError(m) => m.clone(),
    }
}

/// The working directory of a turn: the context's when not empty, else the
/// session's `workdir` when not empty; otherwise the error the turn fails
/// with (no working directory, or the session could not be read).
pub fn resolve_workdir(ctx_workdir: &Option<String>, session: &Result<Session, PluginError>) -> (r:
    Result<String, String>)
    ensures
        match *ctx_workdir {
            Some(w) if w@.len() > 0 => r matches Ok(x) && x@ == w@,
            _ => match *session {
                Ok(s) => match Json::str_of(s.metadata.field("workdir"@)) {
                    Some(w) if w.len() > 0 => r matches Ok(x) && x@ == w,
                    _ => r matches Err(m) && m@ == NO_WORKDIR@,
                },
                Err(e) => r matches Err(m) && m@ == read_failed_text(error_text(e)),
            },
        },
{
    match ctx_workdir {
        Some(w) => {
            if w.as_str().unicode_len() > 0 {
                return Ok(w.clone());
            }
        },
        None => {},
    }
    match session {
        Ok(s) => match s.metadata.get_str("workdir") {
            Some(w) => {
                if w.as_str().unicode_len() > 0 {
                    Ok(w.clone())
                } else {
                    Err(string_of(chars_of(NO_WORKDIR).as_slice()))
                }
            },
            None => Err(string_of(chars_of(NO_WORKDIR).as_slice())),
        },
        Err(e) => {
            let mut v = chars_of("读取会话元数据失败: ");
            let t = error_text_of(e);
            crate::text::push_str_chars(&mut v, t.as_str());
            Err(string_of(v.as_slice()))
        },
    }
}

/// A liveness probe: a message whose body text is exactly `ping` (it is not
/// stored and needs no history).
pub open spec fn is_ping_spec(m: Option<ChatMessage>) -> bool {
    match m {
        Some(x) => match x.content {
            Some(c) => content_text(c) == "ping"@,
            None => false,
        },
        None => false,
    }
}

/// Whether the message is a liveness probe (see [`is_ping_spec`]).
pub fn is_ping(m: &Option<ChatMessage>) -> (b: bool)
    ensures
        b == is_ping_spec(*m),
{
    match m {
        Some(x) => match &x.content {
            Some(c) => {
                let t = c.to_text();
                crate::json::str_eq(t.as_str(), "ping")
            },
            None => false,
        },
        None => false,
    }
}

/// The agent of a turn: the request's when not blank, else the session's
/// `agent_id` trimmed when not blank; nothing when neither (or the session
/// could not be read).
pub open spec fn agent_spec(req: Option<Seq<char>>, session: Option<Session>) -> Option<Seq<char>> {
    match req {
        Some(a) if trim(a).len() > 0 => Some(a),
        _ => match session_meta(session, "agent_id"@) {
            Some(a) => if trim(a).len() > 0 {
                Some(trim(a))
            } else {
                None
            },
            None => None,
        },
    }
}

/// The agent of a turn (see [`agent_spec`]).
pub fn resolve_agent_id(req_agent_id: &Option<String>, session: &Option<Session>) -> (r: Option<String>)
    ensures
        crate::transcript::opt_view(r) == agent_spec(crate::transcript::opt_view(*req_agent_id), *session),
{
    match req_agent_id {
        Some(a) => {
            let v = chars_of(a.as_str());
            let (b, e) = crate::text::trim_indices(&v, 0, v.len());
            assert(v@.subrange(0, v@.len() as int) =~= v@);
            if b < e {
                return Some(a.clone());
            }
        },
        None => {},
    }
    match meta_string(session, "agent_id") {
        Some(a) => {
            let v = chars_of(a.as_str());
            let (b, e) = crate::text::trim_indices(&v, 0, v.len());
            assert(v@.subrange(0, v@.len() as int) =~= v@);
            if b < e {
                Some(string_of(crate::text::slice_vec(&v, b, e).as_slice()))
            } else {
                None
            }
        },
        None => None,
    }
}

/// The title a session takes after its first message: none when it already
/// has a non-blank title or no title can be derived.
pub fn auto_title(session: &Session) -> (r: Option<String>)
    ensures
        (match Json::str_of(session.metadata.field("title"@)) {
            Some(t) => trim(t).len() > 0,
            None => false,
        }) ==> r is None,
        !(match Json::str_of(session.metadata.field("title"@)) {
            Some(t) => trim(t).len() > 0,
            None => false,
        }) ==> match r {
            Some(t) => title_from(session.messages@) == Some(t@),
            None => title_from(session.messages@) is None,
        },
{
    match session.metadata.get_str("title") {
        Some(t) => {
            let v = chars_of(t.as_str());
            let (b, e) = crate::text::trim_indices(&v, 0, v.len());
            assert(v@.subrange(0, v@.len() as int) =~= v@);
            if b < e {
                return None;
            }
        },
        None => {},
    }
    crate::types::derive_session_title(&session.messages)
}

/// The session settings the turn reads.
pub struct SessionConfig {
    /// Soft limit of tool rounds per turn; `0` means no limit.
    pub max_tool_rounds: u32,
}

impl Default for SessionConfig {
    /// No limit on tool rounds.
    fn default() -> (c: Self)
        ensures
            c.max_tool_rounds == 0,
    {
        SessionConfig { max_tool_rounds: 0 }
    }
}

impl SessionConfig {
    /// The limit handed to the chat request: `0` is no limit (`None`), any
    /// other value a soft limit.
    pub fn model_chat_max_tool_rounds(&self) -> (r: Option<u32>)
        ensures
            r == (if self.max_tool_rounds == 0 {
                None
            } else {
                Some(self.max_tool_rounds)
            }),
    {
        if self.max_tool_rounds == 0 {
            None
        } else {
            Some(self.max_tool_rounds)
        }
    }
}

/// The file extension of a session created by path.
pub const SESSION_EXT: &'static str = ".session";

/// The title of a session created at `path`: its last segment without the
/// `.session` extension; the default title when nothing is left.
pub open spec fn title_from_path_spec(path: Seq<char>) -> Seq<char> {
    let base = crate::nodes::after_last_slash(path);
    let stem = if base.len() >= SESSION_EXT@.len() && base.skip(
        base.len() - SESSION_EXT@.len(),
    ) == SESSION_EXT@ {
        base.take(base.len() - SESSION_EXT@.len())
    } else {
        base
    };
    if stem.len() == 0 {
        crate::types::DEFAULT_TITLE@
    } else {
        stem
    }
}

/// The title of a session created at `path` (see [`title_from_path_spec`]).
pub fn title_from_new_path(path: &str) -> (r: String)
    ensures
        r@ == title_from_path_spec(path@),
{
    let v = chars_of(path);
    let s = crate::nodes::last_slash_start_pub(&v, v.len());
    assert(v@.subrange(0, v@.len() as int) =~= v@);
    let ext = chars_of(SESSION_EXT);
    let n = v.len() - s;
    let mut e = v.len();
    if n >= ext.len() {
        let mut i: usize = 0;
        let mut same = true;
        while i < ext.len()
            invariant
                i <= ext.len(),
                n >= ext.len(),
                n == v.len() - s,
                s <= v.len(),
                ext@ == SESSION_EXT@,
                same == (forall|t: int| 0 <= t < i ==> v@[v.len() - ext.len() + t] == ext@[t]),
            decreases ext.len() - i,
        {
            if v[v.len() - ext.len() + i] != ext[i] {
                same = false;
            }
            i = i + 1;
        }
        let ghost base = v@.subrange(s as int, v.len() as int);
        proof {
            if same {
                assert(base.skip(base.len() - ext@.len()) =~= ext@);
            } else {
                let t = choose|t: int|
                    0 <= t < ext.len() && !(v@[v.len() - ext.len() + t] == ext@[t]);
                assert(base.skip(base.len() - ext@.len())[t] != ext@[t]);
            }
        }
        if same {
            e = v.len() - ext.len();
            assert(base.take(base.len() - ext@.len()) =~= v@.subrange(s as int, e as int));
        }
    }
    if e == s {
        string_of(chars_of(crate::types::DEFAULT_TITLE).as_slice())
    } else {
        string_of(crate::text::slice_vec(&v, s, e).as_slice())
    }
}

/// One change of a session's run state.
pub enum SessionStateChange {
    /// A turn starts (the last outcome and warning are voided).
    Working,
    /// A turn ended: completed, aborted or failed.
    Finished { outcome: &'static str, error: Option<String> },
    /// A recoverable session warning (`None` clears it); the run state
    /// is unchanged.
    Warning(Option<String>),
}

impl SessionStateChange {
    /// A turn that ended normally.
    pub fn completed() -> (c: Self)
        ensures
            c matches SessionStateChange::Finished { outcome, error } && outcome@
                == OUTCOME_COMPLETED@ && error is None,
    {
        SessionStateChange::Finished { outcome: OUTCOME_COMPLETED, error: None }
    }

    /// A turn the user aborted (the one value both abort paths write).
    pub fn aborted() -> (c: Self)
        ensures
            c matches SessionStateChange::Finished { outcome, error } && outcome@
                == OUTCOME_ABORTED@ && error is None,
    {
        SessionStateChange::Finished { outcome: OUTCOME_ABORTED, error: None }
    }

    /// A turn that ended in an error.
    pub fn failed(error: String) -> (c: Self)
        ensures
            c matches SessionStateChange::Finished { outcome, error: e } && outcome@
                == OUTCOME_FAILED@ && e == Some(error),
    {
        SessionStateChange::Finished { outcome: OUTCOME_FAILED, error: Some(error) }
    }
}

/// The run state an active session keeps.
pub struct RunState {
    pub is_working: bool,
    pub last_outcome: Option<String>,
    pub last_error: Option<String>,
    pub last_warning: Option<String>,
}

impl RunState {
    /// Idle, nothing known.
    pub fn new() -> (s: Self)
        ensures
            !s.is_working && s.last_outcome is None && s.last_error is None && s.last_warning
                is None,
    {
        RunState { is_working: false, last_outcome: None, last_error: None, last_warning: None }
    }

    /// Applies a change: a start voids the outcome, error and warning; an
    /// end records its outcome and error (keeping the warning); a warning
    /// touches nothing else.
    pub fn apply(&mut self, change: SessionStateChange)
        ensures
            change is Working ==> final(self).is_working && final(self).last_outcome is None
                && final(self).last_error is None && final(self).last_warning is None,
            change is Finished ==> !final(self).is_working,
            change is Finished ==> final(self).last_outcome is Some,
            change is Finished ==> final(self).last_outcome->0@ == change->outcome@,
            change is Finished ==> final(self).last_error == change->error,
            change is Finished ==> final(self).last_warning == old(self).last_warning,
            change is Warning ==> final(self).last_warning == change->Warning_0,
            change is Warning ==> final(self).is_working == old(self).is_working,
            change is Warning ==> final(self).last_outcome == old(self).last_outcome,
            change is Warning ==> final(self).last_error == old(self).last_error,
    {
        match change {
            SessionStateChange::Working => {
                self.is_working = true;
                self.last_outcome = None;
                self.last_error = None;
                self.last_warning = None;
            },
            SessionStateChange::Finished { outcome, error } => {
                self.is_working = false;
                self.last_outcome = Some(string_of(chars_of(outcome).as_slice()));
                self.last_error = error;
            },
            SessionStateChange::Warning(w) => {
                self.last_warning = w;
            },
        }
    }

    /// The run state projected for the session node.
    pub fn runtime(&self) -> (r: crate::nodes::SessionRuntime)
        ensures
            self.is_working ==> r.working && r.outcome is None && r.error is None && r.warning
                is None,
            !self.is_working && self.last_outcome is None ==> !r.working && r.outcome is None
                && r.error is None && r.warning == self.last_warning,
            !self.is_working && self.last_outcome is Some ==> {
                &&& !r.working
                &&& r.outcome matches Some(o) && o@ == self.last_outcome->0@
                &&& r.error == (if self.last_outcome->0@ == OUTCOME_FAILED@ {
                    self.last_error
                } else {
                    None
                })
                &&& r.warning == self.last_warning
            },
    {
        crate::nodes::SessionRuntime::from_state(
            self.is_working,
            crate::message::copy_opt_string(&self.last_outcome),
            crate::message::copy_opt_string(&self.last_error),
            crate::message::copy_opt_string(&self.last_warning),
        )
    }
}

} // verus!

verus! {

/// How long a turn may run without ending before it is taken as hung, in
/// seconds.
pub const TURN_WATCHDOG_SECS: u64 = 1800;

/// How the task of a turn came back.
pub enum TurnOutcome {
    /// The chat loop returned normally.
    Finished,
    /// The chat loop stopped on the user's abort.
    Aborted,
    /// The chat loop returned this error.
    Failed(String),
    /// The task panicked (the detail is only logged).
    Panicked(String),
    /// The task was cancelled, with this detail.
    Cancelled(String),
    /// The watchdog fired: no end within [`TURN_WATCHDOG_SECS`].
    Watchdog,
    /// The session's state moved on (reset or another request) while the
    /// turn ran.
    Superseded,
}

/// What the end of a turn does: settle the in-flight turn in storage with
/// this text and final state; the error it reports (if any); and the state
/// change the session ends the turn with (idle, with its outcome).
pub struct TurnEnding {
    pub settle: Option<(String, MessageStatus)>,
    pub error: Option<String>,
    pub exit: Option<SessionStateChange>,
}

/// The text an aborted turn is settled with.
pub const ABORTED_TURN_TEXT: &'static str = "用户手动中止了本次回复";

/// The text shown for a panicked turn (its detail is not shown).
pub const PANIC_TEXT: &'static str = "服务器内部发生未预期的错误";

/// The text of a turn stopped by the watchdog.
pub open spec fn watchdog_text() -> Seq<char> {
    "消费循环超时："@ + crate::text::dec(TURN_WATCHDOG_SECS as nat)
        + " 秒内 Turn 任务未结束，疑似 LLM/工具链路挂死，已强制收尾（在途 Turn 标记为失败）"@
}

/// The ending closes normally with the outcome word `word` and no error.
pub open spec fn closes_with(r: TurnEnding, word: Seq<char>) -> bool {
    r.exit matches Some(SessionStateChange::Finished { outcome, error }) && outcome@ == word
        && error is None
}

/// The ending settles the in-flight turn with `text` and state `s`.
pub open spec fn settles_with(r: TurnEnding, text: Seq<char>, s: MessageStatus) -> bool {
    r.settle matches Some((t, st)) && t@ == text && st == s
}

/// The ending settles the turn as failed with `text`, reports the same
/// text, and ends the turn idle with outcome `failed` and that text.
pub open spec fn fails_with(r: TurnEnding, text: Seq<char>) -> bool {
    &&& r.exit matches Some(SessionStateChange::Finished { outcome, error: Some(e) })
        && outcome@ == OUTCOME_FAILED@ && e@ == text
    &&& settles_with(r, text, MessageStatus::Failed)
    &&& r.error matches Some(e) && e@ == text
}

/// The text of a failed outcome.
pub open spec fn failure_text(o: TurnOutcome) -> Seq<char> {
    match o {
        TurnOutcome::Failed(e) => e@,
        TurnOutcome::Panicked(_) => PANIC_TEXT@,
        TurnOutcome::Cancelled(d) => "Chat loop task failed: "@ + d@,
        _ => watchdog_text(),
    }
}

/// A failed ending: settle as failed and tell the user, with text `t`.
fn failed_with(t: String) -> (e: TurnEnding)
    ensures
        e.exit matches Some(SessionStateChange::Finished { outcome, error: Some(x) })
            && outcome@ == OUTCOME_FAILED@ && x@ == t@,
        e.settle matches Some((x, s)) && s == MessageStatus::Failed && x@ == t@,
        e.error matches Some(y) && y@ == t@,
{
    let copy = string_of(chars_of(t.as_str()).as_slice());
    let shown = string_of(chars_of(t.as_str()).as_slice());
    TurnEnding {
        settle: Some((copy, MessageStatus::Failed)),
        error: Some(t),
        exit: Some(SessionStateChange::failed(shown)),
    }
}

/// The end of a turn with this outcome. A normal or superseded end closes
/// as completed; an abort settles the turn as aborted and closes as
/// aborted, without an error; every failure (an error, a panic, a
/// cancellation, the watchdog) settles the turn as failed with its text,
/// reports that text, and ends the turn idle with outcome `failed` and that
/// text as its error.
pub fn turn_ending(outcome: TurnOutcome) -> (r: TurnEnding)
    ensures
        match outcome {
            TurnOutcome::Finished | TurnOutcome::Superseded => r.settle is None && r.error is None
                && closes_with(r, OUTCOME_COMPLETED@),
            TurnOutcome::Aborted => settles_with(r, ABORTED_TURN_TEXT@, MessageStatus::Aborted)
                && r.error is None && closes_with(r, OUTCOME_ABORTED@),
            _ => fails_with(r, failure_text(outcome)),
        },
{
    match outcome {
        TurnOutcome::Finished | TurnOutcome::Superseded => TurnEnding {
            settle: None,
            error: None,
            exit: Some(SessionStateChange::completed()),
        },
        TurnOutcome::Aborted => TurnEnding {
            settle: Some((string_of(chars_of(ABORTED_TURN_TEXT).as_slice()), MessageStatus::Aborted)),
            error: None,
            exit: Some(SessionStateChange::aborted()),
        },
        TurnOutcome::Failed(e) => failed_with(e),
        TurnOutcome::Panicked(_) => failed_with(string_of(chars_of(PANIC_TEXT).as_slice())),
        TurnOutcome::Cancelled(d) => {
            let mut v = chars_of("Chat loop task failed: ");
            crate::text::push_str_chars(&mut v, d.as_str());
            failed_with(string_of(v.as_slice()))
        },
        TurnOutcome::Watchdog => {
            let mut v = chars_of("消费循环超时：");
            crate::text::push_decimal(&mut v, TURN_WATCHDOG_SECS);
            crate::text::push_str_chars(
                &mut v,
                " 秒内 Turn 任务未结束，疑似 LLM/工具链路挂死，已强制收尾（在途 Turn 标记为失败）",
            );
            failed_with(string_of(v.as_slice()))
        },
    }
}

} // verus!
