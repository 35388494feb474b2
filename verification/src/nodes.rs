//! Addresses inside a session, node views, and the message projections a
//! transcript listing is built from.
//!
//! A session is a container: `<sid>/<collection segment>/<item id>` is the
//! one address shape of everything inside it (messages, inbox items,
//! sub-sessions, the working directory).
use vstd::prelude::*;
use crate::json::{Json, JsonMap, JsonNumber, string_list};
use crate::types::SessionSummary;
use crate::transcript::opt_view;
use crate::message::{ChatMessage, MessageRole, MessageStatus, MessageType, opt_content_text, status_word};
use crate::types::{squash, squash_range};
use vstd::string::StrSliceExecFns;
use crate::text::push_str_chars;
use crate::text::string_of;

verus! {

/// The segment of the transcript collection.
pub const SEG_MESSAGES: &'static str = "message";

/// The segment of the inbox collection.
pub const SEG_INBOX: &'static str = "inbox";

/// A node of the virtual file tree, as the library builds it.
#[derive(Debug)]
pub struct NodeView {
    /// Path segment (the identity of the node).
    pub name: String,
    /// Display title.
    pub title: String,
    /// Node kind.
    pub kind: String,
    pub ext: Option<String>,
    /// State word.
    pub status: String,
    /// Milliseconds since the epoch.
    pub updated_at: Option<i64>,
    /// One-line description.
    pub description: Option<String>,
    /// Scene attributes (a JSON object).
    pub attributes: Json,
}

/// `<sid>/message/<mid>`.
pub open spec fn message_path_spec(sid: Seq<char>, mid: Seq<char>) -> Seq<char> {
    sid + "/"@ + SEG_MESSAGES@ + "/"@ + mid
}

/// The address of one message: `<sid>/message/<mid>`.
pub fn message_path(session_id: &str, mid: &str) -> (p: String)
    ensures
        p@ == message_path_spec(session_id@, mid@),
{
    let mut v: Vec<char> = Vec::new();
    push_str_chars(&mut v, session_id);
    push_str_chars(&mut v, "/");
    push_str_chars(&mut v, SEG_MESSAGES);
    push_str_chars(&mut v, "/");
    push_str_chars(&mut v, mid);
    assert(v@ =~= message_path_spec(session_id@, mid@));
    string_of(v.as_slice())
}

} // verus!

verus! {

/// The outcome word of a turn that ended normally.
pub const OUTCOME_COMPLETED: &'static str = "completed";

/// The outcome word of a turn the user aborted.
pub const OUTCOME_ABORTED: &'static str = "aborted";

/// The outcome word of a turn that ended in an error.
pub const OUTCOME_FAILED: &'static str = "failed";

/// Node state words of a session.
pub const STATUS_WORKING: &'static str = "working";
pub const STATUS_FAILED: &'static str = "failed";
pub const STATUS_ACTIVE: &'static str = "active";

/// The kind and extension of a session node.
pub const KIND_SESSION: &'static str = "session";
pub const EXT_SESSION: &'static str = "session";

/// The run state of a session (not stored): whether a turn is running, how
/// the last one ended, its error, and a recoverable warning.
#[derive(Debug)]
pub struct SessionRuntime {
    pub working: bool,
    /// `completed` / `aborted` / `failed`; `None` before the first turn ends.
    pub outcome: Option<String>,
    /// The error of a failed turn.
    pub error: Option<String>,
    /// A session-level warning; a new turn clears it.
    pub warning: Option<String>,
}

impl SessionRuntime {
    /// Idle: not running, no known outcome.
    pub fn idle(warning: Option<String>) -> (r: Self)
        ensures
            !r.working,
            r.outcome is None,
            r.error is None,
            r.warning == warning,
    {
        SessionRuntime { working: false, outcome: None, error: None, warning }
    }

    /// Running: a new turn voids the last outcome, error and warning.
    pub fn working() -> (r: Self)
        ensures
            r.working,
            r.outcome is None,
            r.error is None,
            r.warning is None,
    {
        SessionRuntime { working: true, outcome: None, error: None, warning: None }
    }

    /// A finished turn: the error is kept only for a failed outcome; the
    /// warning is kept.
    pub fn finished(outcome: &str, error: Option<String>, warning: Option<String>) -> (r: Self)
        ensures
            !r.working,
            r.outcome matches Some(o) && o@ == outcome@,
            r.error == (if outcome@ == OUTCOME_FAILED@ {
                error
            } else {
                None
            }),
            r.warning == warning,
    {
        let failed = crate::json::str_eq(outcome, OUTCOME_FAILED);
        SessionRuntime {
            working: false,
            outcome: Some(string_of(crate::text::chars_of(outcome).as_slice())),
            error: if failed {
                error
            } else {
                None
            },
            warning,
        }
    }

    /// The run state from the active session's fields: a running turn voids
    /// everything else; otherwise a known outcome finishes, else idle.
    pub fn from_state(
        working: bool,
        outcome: Option<String>,
        error: Option<String>,
        warning: Option<String>,
    ) -> (r: Self)
        ensures
            working ==> r.working && r.outcome is None && r.error is None && r.warning is None,
            !working && outcome is None ==> !r.working && r.outcome is None && r.error is None
                && r.warning == warning,
            !working && outcome is Some ==> {
                &&& !r.working
                &&& r.outcome matches Some(o) && o@ == outcome->0@
                &&& r.error == (if outcome->0@ == OUTCOME_FAILED@ {
                    error
                } else {
                    None
                })
                &&& r.warning == warning
            },
    {
        if working {
            return Self::working();
        }
        match outcome {
            Some(o) => Self::finished(o.as_str(), error, warning),
            None => Self::idle(warning),
        }
    }

    /// The node state word: running, else failed (last turn failed), else
    /// active.
    pub fn status(&self) -> (r: &'static str)
        ensures
            r@ == (if self.working {
                STATUS_WORKING@
            } else if self.outcome matches Some(o) && o@ == OUTCOME_FAILED@ {
                STATUS_FAILED@
            } else {
                STATUS_ACTIVE@
            }),
    {
        if self.working {
            return STATUS_WORKING;
        }
        match &self.outcome {
            Some(o) => {
                if crate::json::str_eq(o.as_str(), OUTCOME_FAILED) {
                    return STATUS_FAILED;
                }
            },
            None => {},
        }
        STATUS_ACTIVE
    }
}

/// `<sid>/message`.
pub fn message_dir_path(session_id: &str) -> (p: String)
    ensures
        p@ == session_id@ + "/"@ + SEG_MESSAGES@,
{
    let mut v: Vec<char> = Vec::new();
    push_str_chars(&mut v, session_id);
    push_str_chars(&mut v, "/");
    push_str_chars(&mut v, SEG_MESSAGES);
    string_of(v.as_slice())
}

/// `<sid>/inbox/<iid>`.
pub fn inbox_item_path(session_id: &str, iid: &str) -> (p: String)
    ensures
        p@ == session_id@ + "/"@ + SEG_INBOX@ + "/"@ + iid@,
{
    let mut v: Vec<char> = Vec::new();
    push_str_chars(&mut v, session_id);
    push_str_chars(&mut v, "/");
    push_str_chars(&mut v, SEG_INBOX);
    push_str_chars(&mut v, "/");
    push_str_chars(&mut v, iid);
    string_of(v.as_slice())
}

/// The part of `s` after its last `'/'` (all of `s` without one).
pub open spec fn after_last_slash(s: Seq<char>) -> Seq<char>
    decreases s.len(),
{
    if s.len() == 0 {
        s
    } else if s.last() == '/' {
        Seq::empty()
    } else {
        after_last_slash(s.drop_last()).push(s.last())
    }
}

/// `s` without trailing `'/'`.
pub open spec fn strip_slashes(s: Seq<char>) -> Seq<char>
    decreases s.len(),
{
    if s.len() > 0 && s.last() == '/' {
        strip_slashes(s.drop_last())
    } else {
        s
    }
}

/// Start index of the part of `v[0..e]` after its last `'/'`.
fn last_slash_start(v: &Vec<char>, e: usize) -> (s: usize)
    requires
        e <= v.len(),
    ensures
        s <= e,
        v@.subrange(s as int, e as int) == after_last_slash(v@.subrange(0, e as int)),
{
    let mut s = e;
    while s > 0 && v[s - 1] != '/'
        invariant
            s <= e <= v.len(),
            after_last_slash(v@.subrange(0, e as int)) == after_last_slash(v@.subrange(0, s as int))
                + v@.subrange(s as int, e as int),
        decreases s,
    {
        assert(v@.subrange(0, s as int).drop_last() =~= v@.subrange(0, s - 1 as int));
        assert(v@.subrange(s - 1 as int, e as int) =~= seq![v@[s - 1]] + v@.subrange(
            s as int,
            e as int,
        ));
        assert(after_last_slash(v@.subrange(0, s - 1 as int)).push(v@[s - 1]) + v@.subrange(
            s as int,
            e as int,
        ) =~= after_last_slash(v@.subrange(0, s - 1 as int)) + v@.subrange(s - 1 as int, e as int));
        s = s - 1;
    }
    assert(after_last_slash(v@.subrange(0, s as int)) =~= Seq::<char>::empty());
    assert(Seq::<char>::empty() + v@.subrange(s as int, e as int) =~= v@.subrange(s as int, e as int));
    s
}

/// Start index of the part of `v[0..e]` after its last `'/'`.
pub fn last_slash_start_pub(v: &Vec<char>, e: usize) -> (s: usize)
    requires
        e <= v.len(),
    ensures
        s <= e,
        v@.subrange(s as int, e as int) == after_last_slash(v@.subrange(0, e as int)),
{
    last_slash_start(v, e)
}

/// The message id a cursor names: a bare id or an address `<...>/<id>`
/// (trailing slashes ignored); `None` when that last segment is empty.
pub open spec fn cursor_spec(before: Seq<char>) -> Option<Seq<char>> {
    let id = after_last_slash(strip_slashes(before));
    if id.len() > 0 {
        Some(id)
    } else {
        None
    }
}

/// The message id a paging cursor names (see [`cursor_spec`]).
pub fn cursor_id(before: &str) -> (r: Option<String>)
    ensures
        match r {
            Some(id) => cursor_spec(before@) == Some(id@),
            None => cursor_spec(before@) is None,
        },
{
    let v = crate::text::chars_of(before);
    let mut e = v.len();
    assert(v@.subrange(0, e as int) =~= v@);
    while e > 0 && v[e - 1] == '/'
        invariant
            e <= v.len(),
            strip_slashes(v@.subrange(0, e as int)) == strip_slashes(before@),
            v@ == before@,
        decreases e,
    {
        assert(v@.subrange(0, e as int).drop_last() =~= v@.subrange(0, e - 1 as int));
        e = e - 1;
    }
    let s = last_slash_start(&v, e);
    if s < e {
        Some(string_of(crate::text::slice_vec(&v, s, e).as_slice()))
    } else {
        None
    }
}

/// The id a named creation gives a new session: the last path segment,
/// trimmed; `None` for a target without a name.
pub open spec fn new_path_id(path: Seq<char>) -> Option<Seq<char>> {
    let base = crate::text::trim(after_last_slash(path));
    if base.len() > 0 {
        Some(base)
    } else {
        None
    }
}

/// The session id of a named creation at `path` (see [`new_path_id`]).
pub fn session_id_from_new_path(path: &str) -> (r: Option<String>)
    ensures
        match r {
            Some(id) => new_path_id(path@) == Some(id@),
            None => new_path_id(path@) is None,
        },
{
    let v = crate::text::chars_of(path);
    let s = last_slash_start(&v, v.len());
    assert(v@.subrange(0, v@.len() as int) =~= v@);
    let (b, e) = crate::text::trim_indices(&v, s, v.len());
    if b < e {
        Some(string_of(crate::text::slice_vec(&v, b, e).as_slice()))
    } else {
        None
    }
}

} // verus!

verus! {

/// The memory file of a session (a single file, no deeper levels).
pub const MEMORY_FILE: &'static str = "MEMORY.md";

/// The sub-session collection segment.
pub const SEG_SUB_SESSIONS: &'static str = "subsession";

/// The working directory segment.
pub const SEG_WORKDIR: &'static str = "workdir";

/// A parsed address inside the session mount.
#[derive(Debug)]
pub enum SessionPath {
    /// The mount root: the session list.
    Root,
    /// `<id>`: one session.
    Session(String),
    /// `<id>/MEMORY.md`: the session's memory file.
    Memory(String),
    /// `<id>/message[/<mid>]`.
    Messages { id: String, mid: Option<String> },
    /// `<id>/inbox[/<iid>]`.
    Inbox { id: String, iid: Option<String> },
    /// `<id>/subsession`.
    SubSessions(String),
    /// `<id>/subsession/<sub>`.
    SubSession { id: String, sub: String },
    /// `<id>/workdir[/<rel>]`; `rel` empty for the directory root.
    Workdir { id: String, rel: String },
}

/// Why a path names nothing.
#[derive(Debug)]
pub enum PathNotFound {
    /// The memory file has no deeper levels.
    MemoryIsFile,
    /// A message is a list item without deeper levels.
    MessageIsItem,
    /// An inbox item is a list item without deeper levels.
    InboxItemIsItem,
    /// A sub-session is a leaf.
    SubSessionIsLeaf,
    /// An unknown segment.
    Unknown,
}

/// `s` without leading and trailing `'/'`.
pub open spec fn trim_slashes(s: Seq<char>) -> Seq<char> {
    trim_lead_slashes(strip_slashes(s))
}

pub open spec fn trim_lead_slashes(s: Seq<char>) -> Seq<char>
    decreases s.len(),
{
    if s.len() > 0 && s[0] == '/' {
        trim_lead_slashes(s.drop_first())
    } else {
        s
    }
}

/// Index of the first `'/'` in `s`, or `-1`.
pub open spec fn first_slash(s: Seq<char>) -> int
    decreases s.len(),
{
    if s.len() == 0 {
        -1
    } else if s[0] == '/' {
        0
    } else {
        let r = first_slash(s.drop_first());
        if r < 0 {
            -1
        } else {
            r + 1
        }
    }
}

/// An item segment: not empty, no `'/'`.
pub open spec fn item_seg(s: Seq<char>) -> bool {
    s.len() > 0 && first_slash(s) < 0
}

/// What a path inside the mount names.
#[derive(Debug)]
pub enum PathKind {
    Root,
    Session,
    Memory,
    Messages,
    Inbox,
    SubSessions,
    SubSession,
    Workdir,
    Missing(PathNotFound),
}

/// The meaning of a path inside the mount, as plain parts: what it names,
/// the session id, and the item (message, inbox item, sub-session, or the
/// path inside the working directory).
pub open spec fn parse_spec(path: Seq<char>) -> (PathKind, Seq<char>, Option<Seq<char>>) {
    let p = trim_slashes(path);
    let i = first_slash(p);
    if p.len() == 0 {
        (PathKind::Root, Seq::empty(), None)
    } else if i < 0 {
        (PathKind::Session, p, None)
    } else {
        let id = p.take(i);
        let rest = p.skip(i + 1);
        let j = first_slash(rest);
        let seg = if j < 0 {
            rest
        } else {
            rest.take(j)
        };
        let sub: Option<Seq<char>> = if j < 0 {
            None
        } else {
            Some(rest.skip(j + 1))
        };
        if seg == MEMORY_FILE@ {
            if sub is None {
                (PathKind::Memory, id, None)
            } else {
                (PathKind::Missing(PathNotFound::MemoryIsFile), id, None)
            }
        } else if seg == SEG_MESSAGES@ {
            match sub {
                None => (PathKind::Messages, id, None),
                Some(m) => if item_seg(m) {
                    (PathKind::Messages, id, Some(m))
                } else {
                    (PathKind::Missing(PathNotFound::MessageIsItem), id, None)
                },
            }
        } else if seg == SEG_INBOX@ {
            match sub {
                None => (PathKind::Inbox, id, None),
                Some(m) => if item_seg(m) {
                    (PathKind::Inbox, id, Some(m))
                } else {
                    (PathKind::Missing(PathNotFound::InboxItemIsItem), id, None)
                },
            }
        } else if seg == SEG_SUB_SESSIONS@ {
            match sub {
                None => (PathKind::SubSessions, id, None),
                Some(m) => if item_seg(m) {
                    (PathKind::SubSession, id, Some(m))
                } else {
                    (PathKind::Missing(PathNotFound::SubSessionIsLeaf), id, None)
                },
            }
        } else if seg == SEG_WORKDIR@ {
            (
                PathKind::Workdir,
                id,
                Some(
                    match sub {
                        Some(r) => r,
                        None => Seq::empty(),
                    },
                ),
            )
        } else {
            (PathKind::Missing(PathNotFound::Unknown), id, None)
        }
    }
}

/// The plain parts of a parse result (see [`parse_spec`]).
pub open spec fn parsed_parts(r: Result<SessionPath, PathNotFound>) -> (PathKind, Option<Seq<char>>, Option<
    Seq<char>,
>) {
    match r {
        Ok(SessionPath::Root) => (PathKind::Root, None, None),
        Ok(SessionPath::Session(id)) => (PathKind::Session, Some(id@), None),
        Ok(SessionPath::Memory(id)) => (PathKind::Memory, Some(id@), None),
        Ok(SessionPath::Messages { id, mid }) => (
            PathKind::Messages,
            Some(id@),
            match mid {
                Some(m) => Some(m@),
                None => None,
            },
        ),
        Ok(SessionPath::Inbox { id, iid }) => (
            PathKind::Inbox,
            Some(id@),
            match iid {
                Some(m) => Some(m@),
                None => None,
            },
        ),
        Ok(SessionPath::SubSessions(id)) => (PathKind::SubSessions, Some(id@), None),
        Ok(SessionPath::SubSession { id, sub }) => (PathKind::SubSession, Some(id@), Some(sub@)),
        Ok(SessionPath::Workdir { id, rel }) => (PathKind::Workdir, Some(id@), Some(rel@)),
        Err(PathNotFound::MemoryIsFile) => (PathKind::Missing(PathNotFound::MemoryIsFile), None, None),
        Err(PathNotFound::MessageIsItem) => (PathKind::Missing(PathNotFound::MessageIsItem), None, None),
        Err(PathNotFound::InboxItemIsItem) => (PathKind::Missing(PathNotFound::InboxItemIsItem), None, None),
        Err(PathNotFound::SubSessionIsLeaf) => (PathKind::Missing(PathNotFound::SubSessionIsLeaf), None, None),
        Err(PathNotFound::Unknown) => (PathKind::Missing(PathNotFound::Unknown), None, None),
    }
}

/// Index of the first `'/'` in `v[lo..hi]`, or `hi`.
fn find_slash(v: &Vec<char>, lo: usize, hi: usize) -> (r: usize)
    requires
        lo <= hi <= v.len(),
    ensures
        lo <= r <= hi,
        first_slash(v@.subrange(lo as int, hi as int)) == (if r == hi {
            -1
        } else {
            r - lo
        }),
    decreases hi - lo,
{
    if lo == hi {
        return hi;
    }
    assert(v@.subrange(lo as int, hi as int).drop_first() =~= v@.subrange(lo + 1 as int, hi as int));
    if v[lo] == '/' {
        lo
    } else {
        find_slash(v, lo + 1, hi)
    }
}

fn seq_eq(v: &Vec<char>, lo: usize, hi: usize, lit: &str) -> (r: bool)
    requires
        lo <= hi <= v.len(),
    ensures
        r == (v@.subrange(lo as int, hi as int) == lit@),
{
    let w = crate::text::chars_of(lit);
    if hi - lo != w.len() {
        assert(v@.subrange(lo as int, hi as int).len() != lit@.len());
        return false;
    }
    let mut i: usize = 0;
    while i < w.len()
        invariant
            hi - lo == w.len(),
            lo <= hi <= v.len(),
            w@ == lit@,
            i <= w.len(),
            forall|j: int| 0 <= j < i ==> v@[lo + j] == w@[j],
        decreases w.len() - i,
    {
        if v[lo + i] != w[i] {
            assert(v@.subrange(lo as int, hi as int)[i as int] != lit@[i as int]);
            return false;
        }
        i = i + 1;
    }
    assert(v@.subrange(lo as int, hi as int) =~= lit@);
    true
}

fn sub_string(v: &Vec<char>, lo: usize, hi: usize) -> (s: String)
    requires
        lo <= hi <= v.len(),
    ensures
        s@ == v@.subrange(lo as int, hi as int),
{
    string_of(crate::text::slice_vec(v, lo, hi).as_slice())
}

/// Parses an address inside the session mount: the first segment is the
/// session id, the second the collection (see [`parse_spec`]).
pub fn parse_session_path(path: &str) -> (r: Result<SessionPath, PathNotFound>)
    ensures
        ({
            let (k, id, item) = parse_spec(path@);
            let (k2, id2, item2) = parsed_parts(r);
            &&& k2 == k
            &&& (!(k is Missing) && !(k is Root) ==> id2 == Some(id))
            &&& item2 == item
        }),
{
    let v = crate::text::chars_of(path);
    let mut e = v.len();
    assert(v@.subrange(0, e as int) =~= v@);
    while e > 0 && v[e - 1] == '/'
        invariant
            e <= v.len(),
            strip_slashes(v@.subrange(0, e as int)) == strip_slashes(path@),
            v@ == path@,
        decreases e,
    {
        assert(v@.subrange(0, e as int).drop_last() =~= v@.subrange(0, e - 1 as int));
        e = e - 1;
    }
    assert(strip_slashes(v@.subrange(0, e as int)) == v@.subrange(0, e as int));
    let mut b: usize = 0;
    assert(v@.subrange(0, e as int) == v@.subrange(b as int, e as int));
    while b < e && v[b] == '/'
        invariant
            b <= e <= v.len(),
            trim_lead_slashes(v@.subrange(b as int, e as int)) == trim_slashes(path@),
        decreases e - b,
    {
        assert(v@.subrange(b as int, e as int).drop_first() =~= v@.subrange(b + 1 as int, e as int));
        b = b + 1;
    }
    let ghost p = v@.subrange(b as int, e as int);
    assert(p == trim_slashes(path@));
    if b == e {
        return Ok(SessionPath::Root);
    }
    let i = find_slash(&v, b, e);
    if i == e {
        return Ok(SessionPath::Session(sub_string(&v, b, e)));
    }
    assert(p.take(i - b) =~= v@.subrange(b as int, i as int));
    assert(p.skip(i - b + 1) =~= v@.subrange(i + 1 as int, e as int));
    let id = sub_string(&v, b, i);
    let j = find_slash(&v, i + 1, e);
    let ghost rest = v@.subrange(i + 1 as int, e as int);
    assert(rest.take(j - i - 1) =~= v@.subrange(i + 1 as int, j as int));
    assert(j < e ==> rest.skip(j - i) =~= v@.subrange(j + 1 as int, e as int));
    let has_sub = j < e;
    let sub_lo: usize = if has_sub { j + 1 } else { e };
    if seq_eq(&v, i + 1, j, MEMORY_FILE) {
        if has_sub {
            return Err(PathNotFound::MemoryIsFile);
        }
        return Ok(SessionPath::Memory(id));
    }
    if seq_eq(&v, i + 1, j, SEG_MESSAGES) {
        if !has_sub {
            return Ok(SessionPath::Messages { id, mid: None });
        }
        let k = find_slash(&v, sub_lo, e);
        if sub_lo < e && k == e {
            return Ok(SessionPath::Messages { id, mid: Some(sub_string(&v, sub_lo, e)) });
        }
        return Err(PathNotFound::MessageIsItem);
    }
    if seq_eq(&v, i + 1, j, SEG_INBOX) {
        if !has_sub {
            return Ok(SessionPath::Inbox { id, iid: None });
        }
        let k = find_slash(&v, sub_lo, e);
        if sub_lo < e && k == e {
            return Ok(SessionPath::Inbox { id, iid: Some(sub_string(&v, sub_lo, e)) });
        }
        return Err(PathNotFound::InboxItemIsItem);
    }
    if seq_eq(&v, i + 1, j, SEG_SUB_SESSIONS) {
        if !has_sub {
            return Ok(SessionPath::SubSessions(id));
        }
        let k = find_slash(&v, sub_lo, e);
        if sub_lo < e && k == e {
            return Ok(SessionPath::SubSession { id, sub: sub_string(&v, sub_lo, e) });
        }
        return Err(PathNotFound::SubSessionIsLeaf);
    }
    if seq_eq(&v, i + 1, j, SEG_WORKDIR) {
        return Ok(SessionPath::Workdir { id, rel: sub_string(&v, sub_lo, e) });
    }
    Err(PathNotFound::Unknown)
}


/// A slash-free prefix shifts the first `'/'` of what follows it.
proof fn lemma_first_slash_concat(a: Seq<char>, b: Seq<char>)
    requires
        first_slash(a) < 0,
    ensures
        first_slash(a + b) == (if first_slash(b) < 0 {
            -1
        } else {
            a.len() + first_slash(b)
        }),
    decreases a.len(),
{
    if a.len() == 0 {
        assert(a + b =~= b);
    } else {
        assert((a + b).drop_first() =~= a.drop_first() + b);
        lemma_first_slash_concat(a.drop_first(), b);
    }
}

/// The address `<sid>/<seg>/<item>` of items that are segments: it needs
/// no trimming, its first part is `sid`, and what follows is `seg/item`.
proof fn lemma_item_address(sid: Seq<char>, seg: Seq<char>, item: Seq<char>)
    requires
        item_seg(sid),
        item_seg(seg),
        item_seg(item),
    ensures
        ({
            let p = sid + "/"@ + seg + "/"@ + item;
            let rest = seg + "/"@ + item;
            &&& trim_slashes(p) == p
            &&& first_slash(p) == sid.len()
            &&& p.take(sid.len() as int) == sid
            &&& p.skip(sid.len() + 1 as int) == rest
            &&& first_slash(rest) == seg.len()
            &&& rest.take(seg.len() as int) == seg
            &&& rest.skip(seg.len() + 1 as int) == item
        }),
{
    let p = sid + "/"@ + seg + "/"@ + item;
    let rest = seg + "/"@ + item;
    assert(first_slash(item) < 0);
    assert(item[0] != '/') by {
        if item[0] == '/' {
            assert(first_slash(item) == 0);
        }
    }
    assert(sid[0] != '/') by {
        if sid[0] == '/' {
            assert(first_slash(sid) == 0);
        }
    }
    assert(item.last() != '/') by {
        if item.last() == '/' {
            let k = (item.len() - 1) as int;
            lemma_no_slash_at(item, k);
        }
    }
    assert(p.last() == item.last());
    assert(strip_slashes(p) == p);
    assert(p[0] == sid[0]);
    assert(trim_lead_slashes(p) == p);
    assert(first_slash("/"@ + item) == 0) by {
        reveal_strlit("/");
    }
    assert(first_slash("/"@ + seg + "/"@ + item) == 0) by {
        reveal_strlit("/");
    }
    assert(p =~= sid + ("/"@ + seg + "/"@ + item));
    lemma_first_slash_concat(sid, "/"@ + seg + "/"@ + item);
    assert(rest =~= seg + ("/"@ + item));
    lemma_first_slash_concat(seg, "/"@ + item);
    reveal_strlit("/");
    assert(p.take(sid.len() as int) =~= sid);
    assert(p.skip(sid.len() + 1 as int) =~= rest);
    assert(rest.take(seg.len() as int) =~= seg);
    assert(rest.skip(seg.len() + 1 as int) =~= item);
}

/// No position of a slash-free sequence holds `'/'`.
proof fn lemma_no_slash_at(s: Seq<char>, k: int)
    requires
        first_slash(s) < 0,
        0 <= k < s.len(),
    ensures
        s[k] != '/',
    decreases s.len(),
{
    if k > 0 {
        assert(s.drop_first()[k - 1] == s[k]);
        lemma_no_slash_at(s.drop_first(), k - 1);
    }
}

/// The address of a message parses back to its session and message, for a
/// session id and a message id that are non-empty and hold no `'/'`.
pub proof fn lemma_message_path_round_trip(sid: Seq<char>, mid: Seq<char>)
    requires
        item_seg(sid),
        item_seg(mid),
    ensures
        parse_spec(message_path_spec(sid, mid)) == (PathKind::Messages, sid, Some(mid)),
{
    reveal_strlit("message");
    reveal_strlit("MEMORY.md");
    assert(item_seg(SEG_MESSAGES@)) by {
        assert(first_slash("message"@) < 0) by {
            reveal_with_fuel(first_slash, 8);
        }
    }
    lemma_item_address(sid, SEG_MESSAGES@, mid);
    assert(message_path_spec(sid, mid) == sid + "/"@ + SEG_MESSAGES@ + "/"@ + mid);
    assert(MEMORY_FILE@ != SEG_MESSAGES@) by {
        assert(MEMORY_FILE@.len() != SEG_MESSAGES@.len());
    }
}

/// The address of an inbox item parses back to its session and item, for a
/// session id and an item id that are non-empty and hold no `'/'`.
pub proof fn lemma_inbox_item_path_round_trip(sid: Seq<char>, iid: Seq<char>)
    requires
        item_seg(sid),
        item_seg(iid),
    ensures
        parse_spec(sid + "/"@ + SEG_INBOX@ + "/"@ + iid) == (PathKind::Inbox, sid, Some(iid)),
{
    reveal_strlit("inbox");
    reveal_strlit("message");
    reveal_strlit("MEMORY.md");
    assert(item_seg(SEG_INBOX@)) by {
        assert(first_slash("inbox"@) < 0) by {
            reveal_with_fuel(first_slash, 6);
        }
    }
    lemma_item_address(sid, SEG_INBOX@, iid);
    assert(MEMORY_FILE@ != SEG_INBOX@) by {
        assert(MEMORY_FILE@.len() != SEG_INBOX@.len());
    }
    assert(SEG_MESSAGES@ != SEG_INBOX@) by {
        assert(SEG_MESSAGES@.len() != SEG_INBOX@.len());
    }
}

} // verus!

verus! {

/// The role word shown as a message's title.
pub open spec fn role_word(r: Option<MessageRole>) -> Seq<char> {
    match r {
        Some(MessageRole::User) => "用户"@,
        Some(MessageRole::Assistant) => "助手"@,
        Some(MessageRole::Tool) => "工具"@,
        Some(MessageRole::System) => "系统"@,
        None => "消息"@,
    }
}

/// A message's title: its role word; a tool call adds its tool name (or
/// the word for a tool call when it has none).
pub open spec fn label_spec(m: ChatMessage) -> Seq<char> {
    if m.msg_type == Some(MessageType::ToolCall) {
        match m.name {
            Some(n) => if n@.len() > 0 {
                role_word(m.role) + " · "@ + n@
            } else {
                role_word(m.role) + " · 工具调用"@
            },
            None => role_word(m.role) + " · 工具调用"@,
        }
    } else {
        role_word(m.role)
    }
}

fn role_word_of(r: Option<MessageRole>) -> (s: &'static str)
    ensures
        s@ == role_word(r),
{
    match r {
        Some(MessageRole::User) => "用户",
        Some(MessageRole::Assistant) => "助手",
        Some(MessageRole::Tool) => "工具",
        Some(MessageRole::System) => "系统",
        None => "消息",
    }
}

/// The title of a message node (see [`label_spec`]).
pub fn message_label(m: &ChatMessage) -> (r: String)
    ensures
        r@ == label_spec(*m),
{
    let role = role_word_of(m.role);
    let mut v: Vec<char> = Vec::new();
    push_str_chars(&mut v, role);
    match m.msg_type {
        Some(MessageType::ToolCall) => {
            match &m.name {
                Some(n) => {
                    if n.as_str().unicode_len() > 0 {
                        push_str_chars(&mut v, " · ");
                        push_str_chars(&mut v, n.as_str());
                    } else {
                        push_str_chars(&mut v, " · 工具调用");
                    }
                },
                None => {
                    push_str_chars(&mut v, " · 工具调用");
                },
            }
        },
        _ => {},
    }
    string_of(v.as_slice())
}

/// A message's state word: its own status word; no status means it has
/// ended (`completed`).
pub fn message_status(m: &ChatMessage) -> (r: &'static str)
    ensures
        r@ == (match m.status {
            Some(s) => status_word(s),
            None => status_word(MessageStatus::Completed),
        }),
{
    match &m.status {
        Some(s) => s.as_str(),
        None => MessageStatus::Completed.as_str(),
    }
}

/// Maximum characters of a message preview.
pub const PREVIEW_MAX_CHARS: usize = 60;

/// A message's one-line preview: its body's words joined by single spaces,
/// at most 60 characters (an ellipsis when longer); `None` for no words.
pub open spec fn preview_spec(m: ChatMessage) -> Option<Seq<char>> {
    let flat = crate::text::trim(squash(opt_content_text(m.content)));
    if flat.len() == 0 {
        None
    } else if flat.len() <= PREVIEW_MAX_CHARS {
        Some(flat)
    } else {
        Some(flat.take(PREVIEW_MAX_CHARS as int) + seq!['…'])
    }
}

/// The preview line of a message (see [`preview_spec`]).
pub fn message_preview(m: &ChatMessage) -> (r: Option<String>)
    ensures
        match r {
            Some(s) => preview_spec(*m) == Some(s@),
            None => preview_spec(*m) is None,
        },
{
    let text: Vec<char> = match &m.content {
        Some(c) => c.text_chars(),
        None => Vec::new(),
    };
    assert(text@ == opt_content_text(m.content));
    let sq = squash_range(&text, 0, text.len());
    assert(text@.subrange(0, text@.len() as int) =~= text@);
    let (b, e) = crate::text::trim_indices(&sq, 0, sq.len());
    assert(sq@.subrange(0, sq@.len() as int) =~= sq@);
    if b == e {
        return None;
    }
    if e - b <= PREVIEW_MAX_CHARS {
        return Some(string_of(crate::text::slice_vec(&sq, b, e).as_slice()));
    }
    let mut out = crate::text::slice_vec(&sq, b, b + PREVIEW_MAX_CHARS);
    assert(sq@.subrange(b as int, e as int).take(PREVIEW_MAX_CHARS as int) =~= sq@.subrange(
        b as int,
        b + PREVIEW_MAX_CHARS,
    ));
    out.push('…');
    Some(string_of(out.as_slice()))
}

/// Position of the first message with id `id`, or `-1`.
pub open spec fn first_with_id(ms: Seq<ChatMessage>, id: Seq<char>) -> int
    decreases ms.len(),
{
    if ms.len() == 0 {
        -1
    } else if ms[0].id@ == id {
        0
    } else {
        let r = first_with_id(ms.drop_first(), id);
        if r < 0 {
            -1
        } else {
            r + 1
        }
    }
}

pub proof fn lemma_first_with_id(ms: Seq<ChatMessage>, id: Seq<char>)
    ensures
        -1 <= first_with_id(ms, id) < ms.len(),
        first_with_id(ms, id) >= 0 ==> ms[first_with_id(ms, id)].id@ == id,
    decreases ms.len(),
{
    if ms.len() > 0 && ms[0].id@ != id {
        lemma_first_with_id(ms.drop_first(), id);
    }
}

/// One live message laid over a transcript: it replaces the first message
/// with its id, keeping that message's `seq`; an unknown id is appended.
pub open spec fn overlay_one(out: Seq<ChatMessage>, l: ChatMessage) -> Seq<ChatMessage> {
    let i = first_with_id(out, l.id@);
    if i < 0 {
        out.push(l)
    } else {
        out.update(i, ChatMessage { seq: out[i].seq, ..l })
    }
}

/// All live messages laid over the stored transcript, in order.
pub open spec fn overlay_spec(stored: Seq<ChatMessage>, live: Seq<ChatMessage>) -> Seq<ChatMessage>
    decreases live.len(),
{
    if live.len() == 0 {
        stored
    } else {
        overlay_one(overlay_spec(stored, live.drop_last()), live.last())
    }
}

pub fn first_with_id_exec(ms: &Vec<ChatMessage>, id: &str) -> (r: usize)
    ensures
        r == ms@.len() ==> first_with_id(ms@, id@) < 0,
        r < ms@.len() ==> first_with_id(ms@, id@) == r,
        r <= ms@.len(),
{
    let mut i: usize = 0;
    assert(ms@.skip(0) =~= ms@);
    while i < ms.len()
        invariant
            i <= ms.len(),
            first_with_id(ms@, id@) == (if first_with_id(ms@.skip(i as int), id@) < 0 {
                -1
            } else {
                first_with_id(ms@.skip(i as int), id@) + i
            }),
        decreases ms.len() - i,
    {
        assert(ms@.skip(i as int)[0] == ms@[i as int]);
        if crate::json::str_eq(ms[i].id.as_str(), id) {
            return i;
        }
        assert(ms@.skip(i as int).drop_first() =~= ms@.skip(i + 1 as int));
        i = i + 1;
    }
    assert(ms@.skip(i as int).len() == 0);
    i
}

/// Lays the in-flight messages over the stored transcript: a live version
/// wins, but keeps the stored `seq` (order is assigned by storage only);
/// unknown ids are appended.
pub fn overlay_live(stored: Vec<ChatMessage>, live: Vec<ChatMessage>) -> (r: Vec<ChatMessage>)
    ensures
        r@ == overlay_spec(stored@, live@),
{
    let mut out = stored;
    let ghost st = out@;
    let mut k: usize = 0;
    assert(live@.take(0) =~= Seq::<ChatMessage>::empty());
    while k < live.len()
        invariant
            k <= live@.len(),
            out@ == overlay_spec(st, live@.take(k as int)),
        decreases live.len() - k,
    {
        let l = live[k].copy();
        let i = first_with_id_exec(&out, l.id.as_str());
        assert(live@.take(k + 1 as int).drop_last() =~= live@.take(k as int));
        if i < out.len() {
            let seq = out[i].seq;
            let mut l2 = l;
            l2.seq = seq;
            out.set(i, l2);
        } else {
            out.push(l);
        }
        k = k + 1;
    }
    assert(live@.take(live@.len() as int) =~= live@);
    out
}

} // verus!

verus! {

/// The ordering key of a message: its `seq`; none sorts last.
pub open spec fn seq_key(m: ChatMessage) -> int {
    match m.seq {
        Some(s) => s as int,
        None => i64::MAX as int,
    }
}

/// Ascending by key.
pub open spec fn sorted_by_seq(s: Seq<ChatMessage>) -> bool {
    forall|i: int, j: int| 0 <= i < j < s.len() ==> seq_key(s[i]) <= seq_key(s[j])
}

/// The first position whose key is greater than `k`.
pub open spec fn ins_pos(s: Seq<ChatMessage>, k: int) -> int
    decreases s.len(),
{
    if s.len() == 0 {
        0
    } else if seq_key(s[0]) > k {
        0
    } else {
        1 + ins_pos(s.drop_first(), k)
    }
}

/// The stable sort by key: each message, in turn, goes after every
/// message already placed whose key is not greater.
pub open spec fn stable_sorted(s: Seq<ChatMessage>) -> Seq<ChatMessage>
    decreases s.len(),
{
    if s.len() == 0 {
        s
    } else {
        let r = stable_sorted(s.drop_last());
        r.insert(ins_pos(r, seq_key(s.last())), s.last())
    }
}

pub proof fn lemma_ins_pos(s: Seq<ChatMessage>, k: int)
    ensures
        0 <= ins_pos(s, k) <= s.len(),
        forall|t: int| 0 <= t < ins_pos(s, k) ==> seq_key(#[trigger] s[t]) <= k,
        ins_pos(s, k) < s.len() ==> seq_key(s[ins_pos(s, k)]) > k,
    decreases s.len(),
{
    if s.len() > 0 && seq_key(s[0]) <= k {
        lemma_ins_pos(s.drop_first(), k);
        assert forall|t: int| 0 <= t < ins_pos(s, k) implies seq_key(#[trigger] s[t]) <= k by {
            if t > 0 {
                assert(s[t] == s.drop_first()[t - 1]);
            }
        }
    }
}

/// Ordering keeps every message: the ordered transcript holds the same
/// messages, each as often as before.
pub proof fn lemma_stable_sorted_keeps_messages(s: Seq<ChatMessage>)
    ensures
        stable_sorted(s).to_multiset() == s.to_multiset(),
    decreases s.len(),
{
    if s.len() > 0 {
        let r = stable_sorted(s.drop_last());
        lemma_stable_sorted_keeps_messages(s.drop_last());
        lemma_ins_pos(r, seq_key(s.last()));
        vstd::seq_lib::to_multiset_insert(r, ins_pos(r, seq_key(s.last())), s.last());
        vstd::seq_lib::to_multiset_build(s.drop_last(), s.last());
        assert(s.drop_last().push(s.last()) =~= s);
    }
}

/// The stable sort by `seq` yields a sequence sorted by `seq`.
pub proof fn lemma_stable_sorted_is_sorted(s: Seq<ChatMessage>)
    ensures
        sorted_by_seq(stable_sorted(s)),
        stable_sorted(s).len() == s.len(),
    decreases s.len(),
{
    if s.len() > 0 {
        let r = stable_sorted(s.drop_last());
        lemma_stable_sorted_is_sorted(s.drop_last());
        let k = seq_key(s.last());
        lemma_ins_pos(r, k);
        let p = ins_pos(r, k);
        let o = r.insert(p, s.last());
        assert forall|i: int, j: int| 0 <= i < j < o.len() implies seq_key(o[i]) <= seq_key(o[j]) by {
            if j < p {
            } else if j == p {
                assert(seq_key(r[i]) <= k);
            } else if i < p {
                assert(o[j] == r[j - 1]);
                assert(seq_key(r[i]) <= seq_key(r[j - 1]));
            } else if i == p {
                assert(o[j] == r[j - 1]);
                assert(seq_key(r[p]) > k);
                assert(seq_key(r[p]) <= seq_key(r[j - 1]));
            } else {
                assert(o[i] == r[i - 1]);
                assert(o[j] == r[j - 1]);
            }
        }
    }
}

proof fn lemma_sorted_is_fixed(s: Seq<ChatMessage>)
    requires
        sorted_by_seq(s),
    ensures
        stable_sorted(s) == s,
    decreases s.len(),
{
    if s.len() > 0 {
        let d = s.drop_last();
        assert(sorted_by_seq(d));
        lemma_sorted_is_fixed(d);
        lemma_ins_pos(d, seq_key(s.last()));
        let p = ins_pos(d, seq_key(s.last()));
        if p < d.len() {
            assert(seq_key(d[p]) <= seq_key(s.last()));
        }
        assert(d.insert(d.len() as int, s.last()) =~= s);
    }
}

fn key_of(m: &ChatMessage) -> (k: i64)
    ensures
        k == seq_key(*m),
{
    match m.seq {
        Some(s) => s,
        None => i64::MAX,
    }
}

fn ins_pos_exec(s: &Vec<ChatMessage>, k: i64) -> (p: usize)
    ensures
        p == ins_pos(s@, k as int),
{
    let mut i: usize = 0;
    assert(s@.skip(0) =~= s@);
    while i < s.len() && key_of(&s[i]) <= k
        invariant
            i <= s.len(),
            ins_pos(s@, k as int) == i + ins_pos(s@.skip(i as int), k as int),
        decreases s.len() - i,
    {
        assert(s@.skip(i as int)[0] == s@[i as int]);
        assert(s@.skip(i as int).drop_first() =~= s@.skip(i + 1 as int));
        i = i + 1;
    }
    if i < s.len() {
        assert(s@.skip(i as int)[0] == s@[i as int]);
    }
    i
}

/// The transcript in `seq` order: a stable sort, so messages without a
/// `seq` (in flight) come last in their own order. An already ordered
/// transcript is returned as it is.
pub fn ordered(msgs: Vec<ChatMessage>) -> (r: Vec<ChatMessage>)
    ensures
        r@ == stable_sorted(msgs@),
        sorted_by_seq(r@),
        r@.to_multiset() == msgs@.to_multiset(),
{
    proof {
        lemma_stable_sorted_is_sorted(msgs@);
        lemma_stable_sorted_keeps_messages(msgs@);
    }
    let mut i: usize = 1;
    let mut in_order = true;
    while i < msgs.len() && in_order
        invariant
            1 <= i,
            in_order ==> forall|a: int, b: int| 0 <= a < b < i && b < msgs@.len() ==> seq_key(
                msgs@[a],
            ) <= seq_key(msgs@[b]),
        decreases msgs.len() - i + (if in_order {
            1int
        } else {
            0int
        }),
    {
        if key_of(&msgs[i - 1]) > key_of(&msgs[i]) {
            in_order = false;
        } else {
            proof {
                assert forall|a: int, b: int| 0 <= a < b < i + 1 && b < msgs@.len() implies seq_key(
                    msgs@[a],
                ) <= seq_key(msgs@[b]) by {
                    if b == i && a < i - 1 {
                        assert(seq_key(msgs@[a]) <= seq_key(msgs@[i - 1]));
                    }
                }
            }
            i = i + 1;
        }
    }
    if in_order {
        proof {
            lemma_sorted_is_fixed(msgs@);
        }
        return msgs;
    }
    let mut out: Vec<ChatMessage> = Vec::new();
    let mut j: usize = 0;
    assert(msgs@.take(0) =~= Seq::<ChatMessage>::empty());
    while j < msgs.len()
        invariant
            j <= msgs.len(),
            out@ == stable_sorted(msgs@.take(j as int)),
        decreases msgs.len() - j,
    {
        let x = msgs[j].copy();
        proof {
            lemma_ins_pos(out@, seq_key(x));
        }
        let p = ins_pos_exec(&out, key_of(&x));
        assert(msgs@.take(j + 1 as int).drop_last() =~= msgs@.take(j as int));
        out.insert(p, x);
        j = j + 1;
    }
    assert(msgs@.take(msgs@.len() as int) =~= msgs@);
    out
}

} // verus!

verus! {

/// Steps taken along `parent_id` before stopping (guards against cycles).
pub const MAX_PARENT_STEPS: usize = 64;

/// Position of the last message with id `id`, or `-1` (the id index keeps
/// the last of equal ids).
pub open spec fn last_with_id(ms: Seq<ChatMessage>, id: Seq<char>) -> int
    decreases ms.len(),
{
    if ms.len() == 0 {
        -1
    } else if ms.last().id@ == id {
        ms.len() - 1
    } else {
        last_with_id(ms.drop_last(), id)
    }
}

/// The parent of message `cur` within the list: its non-empty `parent_id`
/// found in the list at another position.
pub open spec fn parent_in(ms: Seq<ChatMessage>, cur: int) -> Option<int> {
    match ms[cur].parent_id {
        Some(p) => if p@.len() > 0 {
            let pi = last_with_id(ms, p@);
            if pi >= 0 && pi != cur {
                Some(pi)
            } else {
                None
            }
        } else {
            None
        },
        None => None,
    }
}

/// Where climbing from `cur` along parents stops within `steps` steps.
pub open spec fn climb(ms: Seq<ChatMessage>, cur: int, steps: nat) -> int
    decreases steps,
{
    if steps == 0 {
        cur
    } else {
        match parent_in(ms, cur) {
            Some(pi) => climb(ms, pi, (steps - 1) as nat),
            None => cur,
        }
    }
}

/// The root of message `i`: a message whose parent is missing, empty or
/// absent from the list is its own root.
pub open spec fn root_of(ms: Seq<ChatMessage>, i: int) -> int {
    climb(ms, i, MAX_PARENT_STEPS as nat)
}

/// The roots of the first `n` messages, in order of first appearance.
pub open spec fn roots_upto(ms: Seq<ChatMessage>, n: int) -> Seq<int>
    decreases n,
{
    if n <= 0 {
        Seq::empty()
    } else {
        let r = roots_upto(ms, n - 1);
        let x = root_of(ms, n - 1);
        if r.contains(x) {
            r
        } else {
            r.push(x)
        }
    }
}

/// Position of `x` in `s`, or `s.len()`.
pub open spec fn position_of(s: Seq<int>, x: int) -> int
    decreases s.len(),
{
    if s.len() == 0 {
        0
    } else if s[0] == x {
        0
    } else {
        1 + position_of(s.drop_first(), x)
    }
}

/// The end (exclusive) of the page of roots: with no cursor, past the last
/// root; with a cursor, its root when it names a message of the list, else
/// the start (an unknown cursor gives an empty page).
pub open spec fn window_end(ms: Seq<ChatMessage>, before: Option<Seq<char>>) -> int {
    let roots = roots_upto(ms, ms.len() as int);
    match before {
        Some(b) => match cursor_spec(b) {
            Some(id) => {
                let i = last_with_id(ms, id);
                if i >= 0 {
                    position_of(roots, root_of(ms, i))
                } else {
                    0
                }
            },
            None => 0,
        },
        None => roots.len() as int,
    }
}

/// The start of the page: `limit` roots before its end (not below zero).
pub open spec fn window_start(end: int, limit: Option<u32>) -> int {
    match limit {
        Some(n) => if end >= n {
            end - n
        } else {
            0
        },
        None => 0,
    }
}

/// The messages among the first `n` whose root is one of `keep`, in order.
pub open spec fn pick(ms: Seq<ChatMessage>, keep: Seq<int>, n: int) -> Seq<ChatMessage>
    decreases n,
{
    if n <= 0 {
        Seq::empty()
    } else {
        let p = pick(ms, keep, n - 1);
        if keep.contains(root_of(ms, n - 1)) {
            p.push(ms[n - 1])
        } else {
            p
        }
    }
}

/// A page of the transcript counted in roots (a root with all its
/// descendants, so a turn is never cut in two): with no paging parameter
/// the whole transcript; otherwise the messages whose root lies among the
/// `limit` roots before the cursor's root (or before the end); a cursor that
/// names no message gives an empty page.
pub open spec fn window_spec(ms: Seq<ChatMessage>, limit: Option<u32>, before: Option<Seq<char>>) -> Seq<
    ChatMessage,
> {
    if limit is None && before is None {
        ms
    } else {
        let roots = roots_upto(ms, ms.len() as int);
        let end = window_end(ms, before);
        let start = window_start(end, limit);
        pick(ms, roots.subrange(start, end), ms.len() as int)
    }
}

fn last_with_id_exec(ms: &Vec<ChatMessage>, id: &str) -> (r: Option<usize>)
    ensures
        match r {
            Some(i) => last_with_id(ms@, id@) == i && i < ms@.len(),
            None => last_with_id(ms@, id@) == -1,
        },
{
    let mut n = ms.len();
    assert(ms@.take(n as int) =~= ms@);
    while n > 0
        invariant
            n <= ms@.len(),
            last_with_id(ms@, id@) == last_with_id(ms@.take(n as int), id@),
        decreases n,
    {
        assert(ms@.take(n as int).last() == ms@[n - 1]);
        if crate::json::str_eq(ms[n - 1].id.as_str(), id) {
            return Some(n - 1);
        }
        assert(ms@.take(n as int).drop_last() =~= ms@.take(n - 1));
        n = n - 1;
    }
    None
}

fn parent_in_exec(ms: &Vec<ChatMessage>, cur: usize) -> (r: Option<usize>)
    requires
        cur < ms@.len(),
    ensures
        match r {
            Some(pi) => parent_in(ms@, cur as int) == Some(pi as int) && pi < ms@.len(),
            None => parent_in(ms@, cur as int) is None,
        },
{
    match &ms[cur].parent_id {
        Some(p) => {
            if p.as_str().unicode_len() == 0 {
                return None;
            }
            match last_with_id_exec(ms, p.as_str()) {
                Some(pi) => if pi != cur {
                    Some(pi)
                } else {
                    None
                },
                None => None,
            }
        },
        None => None,
    }
}

fn root_of_exec(ms: &Vec<ChatMessage>, i: usize) -> (r: usize)
    requires
        i < ms@.len(),
    ensures
        r == root_of(ms@, i as int),
        r < ms@.len(),
{
    let mut cur = i;
    let mut steps: usize = 0;
    while steps < MAX_PARENT_STEPS
        invariant
            cur < ms@.len(),
            steps <= MAX_PARENT_STEPS,
            root_of(ms@, i as int) == climb(ms@, cur as int, (MAX_PARENT_STEPS - steps) as nat),
        decreases MAX_PARENT_STEPS - steps,
    {
        match parent_in_exec(ms, cur) {
            Some(pi) => {
                cur = pi;
                steps = steps + 1;
            },
            None => {
                return cur;
            },
        }
    }
    cur
}

/// Positions as integers.
pub open spec fn ints(v: Seq<usize>) -> Seq<int> {
    v.map_values(|u: usize| u as int)
}

fn contains_usize(v: &Vec<usize>, x: usize) -> (b: bool)
    ensures
        b == ints(v@).contains(x as int),
{
    let mut i: usize = 0;
    while i < v.len()
        invariant
            i <= v.len(),
            forall|t: int| 0 <= t < i ==> v@[t] != x,
        decreases v.len() - i,
    {
        if v[i] == x {
            assert(ints(v@)[i as int] == x as int);
            return true;
        }
        i = i + 1;
    }
    proof {
        if ints(v@).contains(x as int) {
            let t = choose|t: int|
                0 <= t < v@.len() && #[trigger] ints(v@)[t] == x as int;
            assert(v@[t] == x);
        }
    }
    false
}

fn position_exec(v: &Vec<usize>, x: usize) -> (p: usize)
    ensures
        p == position_of(ints(v@), x as int),
        p <= v@.len(),
{
    let ghost s = ints(v@);
    let mut i: usize = 0;
    assert(s.skip(0) =~= s);
    while i < v.len() && v[i] != x
        invariant
            i <= v.len(),
            s == ints(v@),
            position_of(s, x as int) == i + position_of(s.skip(i as int), x as int),
        decreases v.len() - i,
    {
        assert(s.skip(i as int)[0] == v@[i as int] as int);
        assert(s.skip(i as int).drop_first() =~= s.skip(i + 1 as int));
        i = i + 1;
    }
    if i < v.len() {
        assert(s.skip(i as int)[0] == v@[i as int] as int);
    }
    i
}

/// A page of the transcript counted in roots (see [`window_spec`]).
pub fn transcript_window(msgs: &Vec<ChatMessage>, limit: Option<u32>, before: Option<&str>) -> (r:
    Vec<ChatMessage>)
    ensures
        r@ == window_spec(
            msgs@,
            limit,
            match before {
                Some(b) => Some(b@),
                None => None,
            },
        ),
{
    if limit.is_none() && before.is_none() {
        return crate::message::copy_messages(msgs);
    }
    let ghost ms = msgs@;
    let mut root_of_v: Vec<usize> = Vec::new();
    let mut roots: Vec<usize> = Vec::new();
    let mut i: usize = 0;
    while i < msgs.len()
        invariant
            ms == msgs@,
            i <= msgs.len(),
            root_of_v@.len() == i,
            forall|t: int| 0 <= t < i ==> root_of_v@[t] == root_of(ms, t),
            ints(roots@) == roots_upto(ms, i as int),
        decreases msgs.len() - i,
    {
        let r = root_of_exec(msgs, i);
        root_of_v.push(r);
        let seen = contains_usize(&roots, r);
        if !seen {
            let ghost before_roots = roots@;
            roots.push(r);
            assert(ints(roots@) =~= ints(before_roots).push(r as int));
        }
        i = i + 1;
    }
    let ghost rs = ints(roots@);
    let end: usize = match before {
        Some(b) => match cursor_id(b) {
            Some(id) => match last_with_id_exec(msgs, id.as_str()) {
                Some(ix) => position_exec(&roots, root_of_v[ix]),
                None => 0,
            },
            None => 0,
        },
        None => roots.len(),
    };
    let start: usize = match limit {
        Some(n) => if end >= n as usize {
            end - n as usize
        } else {
            0
        },
        None => 0,
    };
    let mut keep: Vec<usize> = Vec::new();
    let mut k = start;
    while k < end
        invariant
            start <= k <= end <= roots@.len(),
            ints(keep@) == rs.subrange(start as int, k as int),
            rs == ints(roots@),
        decreases end - k,
    {
        let ghost k0 = keep@;
        keep.push(roots[k]);
        assert(rs[k as int] == roots@[k as int] as int);
        assert(ints(keep@) =~= ints(k0).push(roots@[k as int] as int));
        assert(rs.subrange(start as int, k + 1 as int) =~= rs.subrange(start as int, k as int).push(
            rs[k as int],
        ));
        k = k + 1;
    }
    let ghost kp = rs.subrange(start as int, end as int);
    let mut out: Vec<ChatMessage> = Vec::new();
    let mut j: usize = 0;
    while j < msgs.len()
        invariant
            ms == msgs@,
            j <= msgs.len(),
            root_of_v@.len() == msgs@.len(),
            forall|t: int| 0 <= t < msgs@.len() ==> root_of_v@[t] == root_of(ms, t),
            ints(keep@) == kp,
            out@ == pick(ms, kp, j as int),
        decreases msgs.len() - j,
    {
        if contains_usize(&keep, root_of_v[j]) {
            out.push(msgs[j].copy());
        }
        j = j + 1;
    }
    out
}


/// No two messages of the list share an id.
pub open spec fn ids_unique(ms: Seq<ChatMessage>) -> bool {
    forall|i: int, j: int| 0 <= i < j < ms.len() ==> ms[i].id@ != ms[j].id@
}

/// `sub` is `s` with some messages left out, the order of the rest kept.
pub open spec fn is_subsequence(sub: Seq<ChatMessage>, s: Seq<ChatMessage>) -> bool {
    exists|pos: Seq<int>|
        #![trigger pos.len()]
        pos.len() == sub.len() && (forall|k: int|
            0 <= k < pos.len() ==> 0 <= #[trigger] pos[k] < s.len() && sub[k] == s[pos[k]]) && (
        forall|a: int, b: int| 0 <= a < b < pos.len() ==> #[trigger] pos[a] < #[trigger] pos[b])
}

/// The roots a page is made of: every root for the whole transcript, else
/// the roots between the page's start and end.
pub open spec fn page_roots(ms: Seq<ChatMessage>, limit: Option<u32>, before: Option<Seq<char>>) -> Seq<
    int,
> {
    let roots = roots_upto(ms, ms.len() as int);
    if limit is None && before is None {
        roots
    } else {
        let end = window_end(ms, before);
        roots.subrange(window_start(end, limit), end)
    }
}

/// The distinct roots of the messages that a page holds.
pub open spec fn roots_in(ms: Seq<ChatMessage>, r: Seq<ChatMessage>) -> Set<int> {
    Set::new(|x: int| exists|j: int| 0 <= j < ms.len() && r.contains(ms[j]) && root_of(ms, j) == x)
}

/// The positions below `n` whose root is one of `keep`, ascending.
spec fn picked_positions(ms: Seq<ChatMessage>, keep: Seq<int>, n: int) -> Seq<int>
    decreases n,
{
    if n <= 0 {
        Seq::empty()
    } else {
        let p = picked_positions(ms, keep, n - 1);
        if keep.contains(root_of(ms, n - 1)) {
            p.push(n - 1)
        } else {
            p
        }
    }
}

proof fn lemma_pick_positions(ms: Seq<ChatMessage>, keep: Seq<int>, n: int)
    requires
        0 <= n <= ms.len(),
    ensures
        pick(ms, keep, n).len() == picked_positions(ms, keep, n).len(),
        forall|k: int|
            0 <= k < picked_positions(ms, keep, n).len() ==> {
                let p = #[trigger] picked_positions(ms, keep, n)[k];
                &&& 0 <= p < n
                &&& pick(ms, keep, n)[k] == ms[p]
                &&& keep.contains(root_of(ms, p))
            },
        forall|a: int, b: int|
            0 <= a < b < picked_positions(ms, keep, n).len() ==> #[trigger] picked_positions(
                ms,
                keep,
                n,
            )[a] < #[trigger] picked_positions(ms, keep, n)[b],
        forall|i: int|
            0 <= i < n && keep.contains(root_of(ms, i)) ==> #[trigger] picked_positions(
                ms,
                keep,
                n,
            ).contains(i),
    decreases n,
{
    if n > 0 {
        lemma_pick_positions(ms, keep, n - 1);
        let p = picked_positions(ms, keep, n - 1);
        if keep.contains(root_of(ms, n - 1)) {
            assert(picked_positions(ms, keep, n) == p.push(n - 1));
            assert forall|i: int|
                0 <= i < n && keep.contains(root_of(ms, i)) implies p.push(n - 1).contains(i) by {
                if i < n - 1 {
                    assert(p.contains(i));
                    let t = choose|t: int| 0 <= t < p.len() && p[t] == i;
                    assert(p.push(n - 1)[t] == i);
                } else {
                    assert(p.push(n - 1)[p.len() as int] == i);
                }
            }
        }
    }
}

proof fn lemma_roots_upto_covers(ms: Seq<ChatMessage>, n: int, j: int)
    requires
        0 <= j < n,
    ensures
        roots_upto(ms, n).contains(root_of(ms, j)),
    decreases n,
{
    let r = roots_upto(ms, n - 1);
    let x = root_of(ms, n - 1);
    if j < n - 1 {
        lemma_roots_upto_covers(ms, n - 1, j);
        if !r.contains(x) {
            let t = choose|t: int| 0 <= t < r.len() && r[t] == root_of(ms, j);
            assert(r.push(x)[t] == root_of(ms, j));
        }
    } else if !r.contains(x) {
        assert(r.push(x)[r.len() as int] == x);
    }
}

/// A page of the transcript is the transcript with some messages left out
/// and the order of the rest kept; it takes a root together with all the
/// messages under it, so a turn is never cut in two; it is made of at most
/// `limit` roots; and with no paging parameter it is the whole transcript.
pub proof fn lemma_window_keeps_whole_turns(
    ms: Seq<ChatMessage>,
    limit: Option<u32>,
    before: Option<Seq<char>>,
)
    requires
        ids_unique(ms),
    ensures
        is_subsequence(window_spec(ms, limit, before), ms),
        forall|j: int|
            0 <= j < ms.len() ==> (window_spec(ms, limit, before).contains(#[trigger] ms[j])
                <==> page_roots(ms, limit, before).contains(root_of(ms, j))),
        forall|i: int, j: int|
            0 <= i < ms.len() && 0 <= j < ms.len() && root_of(ms, i) == root_of(ms, j)
                && window_spec(ms, limit, before).contains(#[trigger] ms[i]) ==> window_spec(
                ms,
                limit,
                before,
            ).contains(#[trigger] ms[j]),
        roots_in(ms, window_spec(ms, limit, before)).finite(),
        roots_in(ms, window_spec(ms, limit, before)).subset_of(
            page_roots(ms, limit, before).to_set(),
        ),
        limit matches Some(n) ==> roots_in(ms, window_spec(ms, limit, before)).len() <= n,
        limit is None && before is None ==> window_spec(ms, limit, before) == ms,
{
    let r = window_spec(ms, limit, before);
    let keep = page_roots(ms, limit, before);
    let n = ms.len() as int;
    if limit is None && before is None {
        let pos = Seq::new(ms.len(), |k: int| k);
        assert(pos.len() == r.len());
        assert forall|j: int| 0 <= j < n implies (r.contains(#[trigger] ms[j])
            <==> keep.contains(root_of(ms, j))) by {
            lemma_roots_upto_covers(ms, n, j);
            assert(r[j] == ms[j]);
        }
    } else {
        lemma_pick_positions(ms, keep, n);
        let pos = picked_positions(ms, keep, n);
        assert(r == pick(ms, keep, n));
        assert(pos.len() == r.len());
        assert forall|j: int| 0 <= j < n implies (r.contains(#[trigger] ms[j])
            <==> keep.contains(root_of(ms, j))) by {
            if keep.contains(root_of(ms, j)) {
                assert(pos.contains(j));
                let t = choose|t: int| 0 <= t < pos.len() && pos[t] == j;
                assert(r[t] == ms[j]);
            }
            if r.contains(ms[j]) {
                let t = choose|t: int| 0 <= t < r.len() && r[t] == ms[j];
                let p = pos[t];
                assert(r[t] == ms[p]);
                assert(ms[p].id@ == ms[j].id@);
                assert(p == j);
            }
        }
    }
    assert forall|i: int, j: int|
        0 <= i < n && 0 <= j < n && root_of(ms, i) == root_of(ms, j) && r.contains(
            #[trigger] ms[i],
        ) implies r.contains(#[trigger] ms[j]) by {
        assert(keep.contains(root_of(ms, i)));
    }
    let rs = roots_in(ms, r);
    assert forall|x: int| rs.contains(x) implies keep.to_set().contains(x) by {
        let j = choose|j: int| 0 <= j < n && r.contains(ms[j]) && root_of(ms, j) == x;
        assert(keep.contains(root_of(ms, j)));
    }
    assert(rs.subset_of(keep.to_set()));
    keep.lemma_cardinality_of_set();
    vstd::seq_lib::seq_to_set_is_finite(keep);
    vstd::set_lib::lemma_len_subset(rs, keep.to_set());
    if limit is Some {
        let roots = roots_upto(ms, n);
        let end = window_end(ms, before);
        if let Some(b) = before {
            if let Some(id) = cursor_spec(b) {
                let i = last_with_id(ms, id);
                if i >= 0 {
                    lemma_position_of_bound(roots, root_of(ms, i));
                }
            }
        }
        assert(0 <= end <= roots.len());
        assert(keep.len() == end - window_start(end, limit));
    }
}

proof fn lemma_position_of_bound(s: Seq<int>, x: int)
    ensures
        0 <= position_of(s, x) <= s.len(),
    decreases s.len(),
{
    if s.len() > 0 && s[0] != x {
        lemma_position_of_bound(s.drop_first(), x);
    }
}

} // verus!

verus! {

/// A string as a JSON value.
fn json_str(s: &str) -> (j: Json)
    ensures
        j matches Json::Str(t) && t@ == s@,
{
    Json::Str(string_of(crate::text::chars_of(s).as_slice()))
}

/// The scene attributes of a session node.
pub open spec fn session_attrs_ok(attrs: Json, s: SessionSummary, rt: SessionRuntime) -> bool {
    attrs matches Json::Obj(m) && {
        &&& m.lookup("message_count"@) == Some(
            Json::Num(JsonNumber::PosInt(s.message_count as u64)),
        )
        &&& m.lookup("metadata"@) == Some(s.metadata)
        &&& m.lookup("meta_tags"@) == Some(Json::Arr(string_list(s.meta_tags@)))
        &&& opt_str_field(m.lookup("outcome"@)) == opt_view(rt.outcome)
        &&& opt_str_field(m.lookup("error"@)) == opt_view(rt.error)
        &&& opt_str_field(m.lookup("warning"@)) == opt_view(rt.warning)
    }
}

/// The characters of an optional string field (`None` when absent or not a
/// string).
pub open spec fn opt_str_field(j: Option<Json>) -> Option<Seq<char>> {
    match j {
        Some(Json::Str(t)) => Some(t@),
        _ => None,
    }
}

/// The session node of a list item under its run state: state word from the
/// run state; title, time and summary from the projection; list fields,
/// and the last outcome, error and warning when known, as attributes.
pub fn session_node(s: &SessionSummary, rt: &SessionRuntime) -> (n: NodeView)
    ensures
        n.name == s.id,
        n.title == s.title,
        n.kind@ == KIND_SESSION@,
        n.ext matches Some(e) && e@ == EXT_SESSION@,
        n.status@ == (if rt.working {
            STATUS_WORKING@
        } else if rt.outcome matches Some(o) && o@ == OUTCOME_FAILED@ {
            STATUS_FAILED@
        } else {
            STATUS_ACTIVE@
        }),
        n.updated_at == Some(s.updated_at),
        n.description == s.summary,
        session_attrs_ok(n.attributes, *s, *rt),
{
    let mut m = JsonMap::Nil;
    let ghost m0 = m;
    let k1 = string_of(crate::text::chars_of("message_count").as_slice());
    m.insert(k1, Json::Num(JsonNumber::PosInt(s.message_count as u64)));
    let ghost m1 = m;
    let k2 = string_of(crate::text::chars_of("metadata").as_slice());
    m.insert(k2, s.metadata.copy());
    let ghost m2 = m;
    let k3 = string_of(crate::text::chars_of("meta_tags").as_slice());
    m.insert(k3, crate::json::strings_to_json(&s.meta_tags));
    let ghost m3 = m;
    proof {
        crate::json::lemma_lookup_inserted(m0, k1, Json::Num(JsonNumber::PosInt(s.message_count as u64)), "message_count"@);
        crate::json::lemma_lookup_inserted(m1, k2, s.metadata, "message_count"@);
        crate::json::lemma_lookup_inserted(m1, k2, s.metadata, "metadata"@);
        crate::json::lemma_lookup_inserted(m2, k3, Json::Arr(string_list(s.meta_tags@)), "message_count"@);
        crate::json::lemma_lookup_inserted(m2, k3, Json::Arr(string_list(s.meta_tags@)), "metadata"@);
        crate::json::lemma_lookup_inserted(m2, k3, Json::Arr(string_list(s.meta_tags@)), "meta_tags"@);
        crate::json::lemma_lookup_inserted(m0, k1, Json::Num(JsonNumber::PosInt(s.message_count as u64)), "outcome"@);
        crate::json::lemma_lookup_inserted(m1, k2, s.metadata, "outcome"@);
        crate::json::lemma_lookup_inserted(m2, k3, Json::Arr(string_list(s.meta_tags@)), "outcome"@);
        crate::json::lemma_lookup_inserted(m0, k1, Json::Num(JsonNumber::PosInt(s.message_count as u64)), "error"@);
        crate::json::lemma_lookup_inserted(m1, k2, s.metadata, "error"@);
        crate::json::lemma_lookup_inserted(m2, k3, Json::Arr(string_list(s.meta_tags@)), "error"@);
        crate::json::lemma_lookup_inserted(m0, k1, Json::Num(JsonNumber::PosInt(s.message_count as u64)), "warning"@);
        crate::json::lemma_lookup_inserted(m1, k2, s.metadata, "warning"@);
        crate::json::lemma_lookup_inserted(m2, k3, Json::Arr(string_list(s.meta_tags@)), "warning"@);
    }
    proof {
        reveal_strlit("message_count");
        reveal_strlit("metadata");
        reveal_strlit("meta_tags");
        reveal_strlit("outcome");
        reveal_strlit("error");
        reveal_strlit("warning");
    }
    set_opt_str(&mut m, "outcome", &rt.outcome);
    let ghost m4 = m;
    set_opt_str(&mut m, "error", &rt.error);
    let ghost m5 = m;
    set_opt_str(&mut m, "warning", &rt.warning);
    proof {
        assert(m.lookup("message_count"@) == m5.lookup("message_count"@));
        assert(m5.lookup("message_count"@) == m4.lookup("message_count"@));
        assert(m4.lookup("message_count"@) == m3.lookup("message_count"@));
        assert(m.lookup("metadata"@) == m5.lookup("metadata"@));
        assert(m5.lookup("metadata"@) == m4.lookup("metadata"@));
        assert(m4.lookup("metadata"@) == m3.lookup("metadata"@));
        assert(m.lookup("meta_tags"@) == m5.lookup("meta_tags"@));
        assert(m5.lookup("meta_tags"@) == m4.lookup("meta_tags"@));
        assert(m4.lookup("meta_tags"@) == m3.lookup("meta_tags"@));
        assert("error"@ != "warning"@) by {
            assert("error"@.len() == 5);
            assert("warning"@.len() == 7);
        }
        assert("outcome"@ != "warning"@) by {
            assert("outcome"@[0] == 'o');
            assert("warning"@[0] == 'w');
        }
        assert(m.lookup("outcome"@) == m5.lookup("outcome"@));
        assert(m5.lookup("outcome"@) == m4.lookup("outcome"@));
        assert(m.lookup("error"@) == m5.lookup("error"@));
        assert(m5.lookup("error"@) == m4.lookup("error"@) || rt.error is Some);
        assert(m4.lookup("error"@) == m3.lookup("error"@));
        assert(m4.lookup("warning"@) == m3.lookup("warning"@));
        assert(m5.lookup("warning"@) == m4.lookup("warning"@));
    }
    let status = rt.status();
    NodeView {
        name: s.id.clone(),
        title: s.title.clone(),
        kind: string_of(crate::text::chars_of(KIND_SESSION).as_slice()),
        ext: Some(string_of(crate::text::chars_of(EXT_SESSION).as_slice())),
        status: string_of(crate::text::chars_of(status).as_slice()),
        updated_at: Some(s.updated_at),
        description: crate::message::copy_opt_string(&s.summary),
        attributes: Json::Obj(m),
    }
}

/// Sets field `key` to the string when present; leaves it otherwise.
fn set_opt_str(m: &mut JsonMap, key: &str, v: &Option<String>)
    ensures
        forall|q: Seq<char>| q != key@ ==> #[trigger] final(m).lookup(q) == old(m).lookup(q),
        v is Some ==> opt_str_field(final(m).lookup(key@)) == opt_view(*v),
        v is None ==> final(m).lookup(key@) == old(m).lookup(key@),
{
    match v {
        Some(x) => {
            let k = string_of(crate::text::chars_of(key).as_slice());
            let ghost m0 = *m;
            let j = json_str(x.as_str());
            m.insert(k, j);
            proof {
                crate::json::lemma_lookup_inserted(m0, k, j, key@);
                assert forall|q: Seq<char>| q != key@ implies #[trigger] m.lookup(q) == m0.lookup(
                    q,
                ) by {
                    crate::json::lemma_lookup_inserted(m0, k, j, q);
                }
            }
        },
        None => {},
    }
}


/// The kind of a plain file node.
pub const KIND_FILE: &'static str = "file";

/// The kind of an inbox item.
pub const KIND_INBOX: &'static str = "inbox";

/// The extension of a message node (its renderer).
pub const EXT_MESSAGE: &'static str = "message";

/// `j` is the string `o`, or `null` where `o` is absent.
pub open spec fn str_json(j: Json, o: Option<Seq<char>>) -> bool {
    match o {
        Some(t) => j matches Json::Str(x) && x@ == t,
        None => j == Json::Null,
    }
}

/// A sequence number as JSON.
pub open spec fn seq_json(n: Option<i64>) -> Json {
    match n {
        Some(v) => if v >= 0 {
            Json::Num(JsonNumber::PosInt(v as u64))
        } else {
            Json::Num(JsonNumber::NegInt(v))
        },
        None => Json::Null,
    }
}

/// The structure fields of a message node, in order: role, type, tool
/// name, parent, provider tool-call id, sequence number, error, meta.
pub open spec fn message_attrs_ok(attrs: Json, m: ChatMessage) -> bool {
    attrs matches Json::Obj(map) && {
        let e = map.entries();
        &&& e.len() == 8
        &&& e[0].0 == "role"@ && str_json(e[0].1, match m.role {
            Some(r) => Some(crate::message::role_wire_word(r)),
            None => None,
        })
        &&& e[1].0 == "type"@ && str_json(e[1].1, match m.msg_type {
            Some(t) => Some(crate::message::type_wire_word(t)),
            None => None,
        })
        &&& e[2].0 == "tool_name"@ && str_json(e[2].1, opt_view(m.name))
        &&& e[3].0 == "parent_id"@ && str_json(e[3].1, opt_view(m.parent_id))
        &&& e[4].0 == "tool_call_id"@ && str_json(e[4].1, opt_view(m.tool_call_id))
        &&& e[5].0 == "seq"@ && e[5].1 == seq_json(m.seq)
        &&& e[6].0 == "error"@ && str_json(e[6].1, opt_view(m.error))
        &&& e[7].0 == "meta"@ && e[7].1 == (match m.meta {
            Some(j) => j,
            None => Json::Null,
        })
    }
}

fn opt_str_json(o: &Option<String>) -> (j: Json)
    ensures
        str_json(j, opt_view(*o)),
{
    match o {
        Some(x) => json_str(x.as_str()),
        None => Json::Null,
    }
}

/// Prepends entry `key: v` to `rest`.
fn cons_entry(key: &str, v: Json, rest: JsonMap) -> (m: JsonMap)
    ensures
        m.entries() == seq![(key@, v)] + rest.entries(),
{
    JsonMap::Entry(string_of(crate::text::chars_of(key).as_slice()), Box::new(v), Box::new(rest))
}

/// The structure fields of a message as a JSON object.
fn message_attrs(m: &ChatMessage) -> (j: Json)
    ensures
        message_attrs_ok(j, *m),
{
    let meta = match &m.meta {
        Some(x) => x.copy(),
        None => Json::Null,
    };
    let seq = match m.seq {
        Some(v) => if v >= 0 {
            Json::Num(JsonNumber::PosInt(v as u64))
        } else {
            Json::Num(JsonNumber::NegInt(v))
        },
        None => Json::Null,
    };
    let role = match m.role {
        Some(r) => json_str(r.as_str()),
        None => Json::Null,
    };
    let ty = match m.msg_type {
        Some(t) => json_str(t.as_str()),
        None => Json::Null,
    };
    let err = opt_str_json(&m.error);
    let tc = opt_str_json(&m.tool_call_id);
    let parent = opt_str_json(&m.parent_id);
    let name = opt_str_json(&m.name);
    let ghost vals: Seq<Json> = seq![role, ty, name, parent, tc, seq, err, meta];
    let e7 = cons_entry("meta", meta, JsonMap::Nil);
    let e6 = cons_entry("error", err, e7);
    let e5 = cons_entry("seq", seq, e6);
    let e4 = cons_entry("tool_call_id", tc, e5);
    let e3 = cons_entry("parent_id", parent, e4);
    let e2 = cons_entry("tool_name", name, e3);
    let e1 = cons_entry("type", ty, e2);
    let e0 = cons_entry("role", role, e1);
    proof {
        assert(e0.entries() =~= seq![
            ("role"@, vals[0]),
            ("type"@, vals[1]),
            ("tool_name"@, vals[2]),
            ("parent_id"@, vals[3]),
            ("tool_call_id"@, vals[4]),
            ("seq"@, vals[5]),
            ("error"@, vals[6]),
            ("meta"@, vals[7]),
        ]);
    }
    Json::Obj(e0)
}

/// A message as a read-only list item: its id as name, its role (and tool)
/// as title, its own state word, its time, a one-line preview, and its
/// structure fields as attributes.
pub fn message_node(m: &ChatMessage) -> (n: NodeView)
    ensures
        n.name == m.id,
        n.title@ == label_spec(*m),
        n.kind@ == KIND_FILE@,
        n.ext matches Some(e) && e@ == EXT_MESSAGE@,
        n.status@ == (match m.status {
            Some(s) => status_word(s),
            None => status_word(MessageStatus::Completed),
        }),
        n.updated_at == m.timestamp,
        match n.description {
            Some(d) => preview_spec(*m) == Some(d@),
            None => preview_spec(*m) is None,
        },
        message_attrs_ok(n.attributes, *m),
{
    let status = message_status(m);
    NodeView {
        name: m.id.clone(),
        title: message_label(m),
        kind: string_of(crate::text::chars_of(KIND_FILE).as_slice()),
        ext: Some(string_of(crate::text::chars_of(EXT_MESSAGE).as_slice())),
        status: string_of(crate::text::chars_of(status).as_slice()),
        updated_at: m.timestamp,
        description: message_preview(m),
        attributes: message_attrs(m),
    }
}

/// A turn or a tool call: a group node with no body of its own.
pub open spec fn is_group_node(m: ChatMessage) -> bool {
    m.msg_type == Some(MessageType::Turn) || m.msg_type == Some(MessageType::ToolCall)
}

/// What reading a message gives: the text of its body, which streamed
/// increments extend; `None` for a group node, which is read as its whole
/// structure instead.
pub fn message_body(m: &ChatMessage) -> (r: Option<String>)
    ensures
        is_group_node(*m) ==> r is None,
        !is_group_node(*m) ==> (r matches Some(t) && t@ == opt_content_text(m.content)),
{
    match m.msg_type {
        Some(MessageType::Turn) | Some(MessageType::ToolCall) => None,
        _ => {
            let text: Vec<char> = match &m.content {
                Some(c) => c.text_chars(),
                None => Vec::new(),
            };
            Some(string_of(text.as_slice()))
        },
    }
}

/// The mark of an item that still waits in the inbox.
pub const INBOX_PENDING_MARK: &'static str = "待消费";

/// An inbox item: the node of its message under the inbox kind, with its
/// preview marked as still waiting.
pub fn inbox_item_node(m: &ChatMessage) -> (n: NodeView)
    ensures
        n.name == m.id,
        n.title@ == label_spec(*m),
        n.kind@ == KIND_INBOX@,
        n.ext matches Some(e) && e@ == EXT_MESSAGE@,
        n.updated_at == m.timestamp,
        n.description matches Some(d) && d@ == (match preview_spec(*m) {
            Some(p) => INBOX_PENDING_MARK@ + " · "@ + p,
            None => INBOX_PENDING_MARK@,
        }),
        message_attrs_ok(n.attributes, *m),
{
    let base = message_node(m);
    let mut v: Vec<char> = Vec::new();
    push_str_chars(&mut v, INBOX_PENDING_MARK);
    match &base.description {
        Some(d) => {
            push_str_chars(&mut v, " · ");
            push_str_chars(&mut v, d.as_str());
        },
        None => {},
    }
    NodeView {
        name: base.name,
        title: base.title,
        kind: string_of(crate::text::chars_of(KIND_INBOX).as_slice()),
        ext: base.ext,
        status: base.status,
        updated_at: base.updated_at,
        description: Some(string_of(v.as_slice())),
        attributes: base.attributes,
    }
}

} // verus!
