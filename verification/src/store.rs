//! The on-disk layout of session storage and the decisions of the store:
//! where a session lives, how its metadata file becomes a list item, and
//! how the session list is ordered and paged.
//!
//! Layout: `<base>/<safe_id>/session.json` (metadata and list projection)
//! and `<base>/<safe_id>/messages.json` (the transcript); a sub-session
//! lives under its parent at `<base>/<safe parent>/sessions/<safe_id>/`.
use vstd::prelude::*;
use vstd::string::StrSliceExecFns;
use crate::json::Json;
use crate::message::{ChatMessage, copy_messages, copy_opt_string};
use crate::paths::{safe_id, safe_id_spec};
use crate::text::{chars_of, push_str_chars, string_of};
use crate::types::{Session, SessionSummary, display_title_spec, meta_tags_spec, parent_spec, summary_from};

verus! {

/// The directory of a parent's sub-sessions.
pub const SUB_SESSIONS_DIR: &'static str = "sessions";

/// The metadata file of a session directory.
pub const SESSION_FILE: &'static str = "session.json";

/// Its temporary twin for atomic replacement.
pub const SESSION_FILE_TMP: &'static str = "session.json.tmp";

/// The transcript file of a session directory.
pub const MESSAGES_FILE: &'static str = "messages.json";

/// Its temporary twin for atomic replacement.
pub const MESSAGES_FILE_TMP: &'static str = "messages.json.tmp";

/// `<base>/<safe_id>`.
pub open spec fn dir_spec(base: Seq<char>, id: Seq<char>) -> Seq<char> {
    base + "/"@ + safe_id_spec(id)
}

/// `<base>/<safe parent>/sessions/<safe_id>`.
pub open spec fn sub_dir_spec(base: Seq<char>, parent: Seq<char>, id: Seq<char>) -> Seq<char> {
    base + "/"@ + safe_id_spec(parent) + "/"@ + SUB_SESSIONS_DIR@ + "/"@ + safe_id_spec(id)
}

/// The file-based store: every session is a directory under `base_dir`.
pub struct FileSessionStore {
    pub base_dir: String,
}

impl FileSessionStore {
    /// A store rooted at `base_dir`.
    pub fn new(base_dir: String) -> (s: Self)
        ensures
            s.base_dir == base_dir,
    {
        FileSessionStore { base_dir }
    }

    /// The directory of a top-level session: `<base>/<safe_id>`.
    pub fn dir_for(base_dir: &str, session_id: &str) -> (p: String)
        ensures
            p@ == dir_spec(base_dir@, session_id@),
    {
        let mut v: Vec<char> = Vec::new();
        push_str_chars(&mut v, base_dir);
        push_str_chars(&mut v, "/");
        let id = safe_id(session_id);
        push_str_chars(&mut v, id.as_str());
        assert(v@ =~= dir_spec(base_dir@, session_id@));
        string_of(v.as_slice())
    }

    /// The metadata file of a top-level session.
    pub fn file_for(base_dir: &str, session_id: &str) -> (p: String)
        ensures
            p@ == dir_spec(base_dir@, session_id@) + "/"@ + SESSION_FILE@,
    {
        let d = Self::dir_for(base_dir, session_id);
        let mut v = chars_of(d.as_str());
        push_str_chars(&mut v, "/");
        push_str_chars(&mut v, SESSION_FILE);
        string_of(v.as_slice())
    }

    /// The directory of a sub-session under its parent.
    pub fn sub_dir_for(base_dir: &str, parent_id: &str, session_id: &str) -> (p: String)
        ensures
            p@ == sub_dir_spec(base_dir@, parent_id@, session_id@),
    {
        let mut v: Vec<char> = Vec::new();
        push_str_chars(&mut v, base_dir);
        push_str_chars(&mut v, "/");
        let pid = safe_id(parent_id);
        push_str_chars(&mut v, pid.as_str());
        push_str_chars(&mut v, "/");
        push_str_chars(&mut v, SUB_SESSIONS_DIR);
        push_str_chars(&mut v, "/");
        let id = safe_id(session_id);
        push_str_chars(&mut v, id.as_str());
        assert(v@ =~= sub_dir_spec(base_dir@, parent_id@, session_id@));
        string_of(v.as_slice())
    }

    /// Where a session is saved: under its parent when it declares one,
    /// else at the top level.
    pub fn save_dir_for(base_dir: &str, session: &Session) -> (p: String)
        ensures
            p@ == (match parent_spec(*session) {
                Some(parent) => sub_dir_spec(base_dir@, parent, session.id@),
                None => dir_spec(base_dir@, session.id@),
            }),
    {
        match session.parent_session_id() {
            Some(parent) => Self::sub_dir_for(base_dir, parent.as_str(), session.id.as_str()),
            None => Self::dir_for(base_dir, session.id.as_str()),
        }
    }
}

/// The contents of a metadata file: the list projection, and (in files
/// written before the transcript moved to its own file) the messages.
pub struct SessionMetaFile {
    pub id: String,
    pub title: String,
    pub created_at: i64,
    pub updated_at: i64,
    pub metadata: Json,
    pub message_count: usize,
    pub summary: Option<String>,
    pub meta_tags: Vec<String>,
    pub messages: Option<Vec<ChatMessage>>,
}

fn copy_strings(v: &Vec<String>) -> (r: Vec<String>)
    ensures
        r@ == v@,
{
    let mut r: Vec<String> = Vec::new();
    let mut i: usize = 0;
    while i < v.len()
        invariant
            i <= v.len(),
            r@ == v@.take(i as int),
        decreases v.len() - i,
    {
        r.push(v[i].clone());
        assert(r@ =~= v@.take(i + 1 as int));
        i = i + 1;
    }
    assert(v@.take(v.len() as int) =~= v@);
    r
}

impl SessionMetaFile {
    /// The metadata file of a list projection (no inline messages).
    pub fn of(s: &SessionSummary) -> (m: Self)
        ensures
            m.id == s.id,
            m.title == s.title,
            m.created_at == s.created_at,
            m.updated_at == s.updated_at,
            m.metadata == s.metadata,
            m.message_count == s.message_count,
            m.summary == s.summary,
            m.meta_tags@ == s.meta_tags@,
            m.messages is None,
    {
        SessionMetaFile {
            id: s.id.clone(),
            title: s.title.clone(),
            created_at: s.created_at,
            updated_at: s.updated_at,
            metadata: s.metadata.copy(),
            message_count: s.message_count,
            summary: copy_opt_string(&s.summary),
            meta_tags: copy_strings(&s.meta_tags),
            messages: None,
        }
    }

    /// The session, given its transcript.
    pub fn into_session(self, messages: Vec<ChatMessage>) -> (s: Session)
        ensures
            s.id == self.id,
            s.messages == messages,
            s.created_at == self.created_at,
            s.updated_at == self.updated_at,
            s.metadata == self.metadata,
    {
        Session {
            id: self.id,
            messages,
            created_at: self.created_at,
            updated_at: self.updated_at,
            metadata: self.metadata,
        }
    }

    /// The list item. A file written before projections were stored (empty
    /// title) that still holds its messages is projected from them; any
    /// other file is taken as it is.
    pub fn into_summary(self) -> (r: SessionSummary)
        ensures
            self.title@.len() == 0 && self.messages is Some ==> {
                let s = Session {
                    id: self.id,
                    messages: self.messages->0,
                    created_at: self.created_at,
                    updated_at: self.updated_at,
                    metadata: self.metadata,
                };
                &&& r.id == self.id
                &&& r.title@ == display_title_spec(s)
                &&& r.created_at == self.created_at
                &&& r.updated_at == self.updated_at
                &&& r.metadata == self.metadata
                &&& r.message_count == self.messages->0@.len()
                &&& (match r.summary {
                    Some(x) => summary_from(self.messages->0@) == Some(x@),
                    None => summary_from(self.messages->0@) is None,
                })
                &&& r.meta_tags@.map_values(|t: String| t@) == meta_tags_spec(
                    self.metadata,
                    self.messages->0@.len(),
                )
            },
            !(self.title@.len() == 0 && self.messages is Some) ==> {
                &&& r.id == self.id
                &&& r.title == self.title
                &&& r.created_at == self.created_at
                &&& r.updated_at == self.updated_at
                &&& r.metadata == self.metadata
                &&& r.message_count == self.message_count
                &&& r.summary == self.summary
                &&& r.meta_tags == self.meta_tags
            },
    {
        let projection_missing = self.title.as_str().unicode_len() == 0;
        if projection_missing {
            match self.messages {
                Some(messages) => {
                    let s = Session {
                        id: self.id,
                        messages,
                        created_at: self.created_at,
                        updated_at: self.updated_at,
                        metadata: self.metadata,
                    };
                    return SessionSummary::of(&s);
                },
                None => {
                    return SessionSummary {
                        id: self.id,
                        title: self.title,
                        created_at: self.created_at,
                        updated_at: self.updated_at,
                        metadata: self.metadata,
                        message_count: self.message_count,
                        summary: self.summary,
                        meta_tags: self.meta_tags,
                    };
                },
            }
        }
        SessionSummary {
            id: self.id,
            title: self.title,
            created_at: self.created_at,
            updated_at: self.updated_at,
            metadata: self.metadata,
            message_count: self.message_count,
            summary: self.summary,
            meta_tags: self.meta_tags,
        }
    }
}

/// The transcript of a stored session: the transcript file's messages where
/// that file could be read, else the messages held inline by a metadata file
/// of the older layout, else none.
pub fn stored_messages(from_file: Option<Vec<ChatMessage>>, inline: Option<Vec<ChatMessage>>) -> (r: Vec<ChatMessage>)
    ensures
        from_file is Some ==> r == from_file->0,
        from_file is None && inline is Some ==> r == inline->0,
        from_file is None && inline is None ==> r@.len() == 0,
{
    match from_file {
        Some(ms) => ms,
        None => match inline {
            Some(ms) => ms,
            None => Vec::new(),
        },
    }
}

/// What bringing one stored session directory to the current layout takes.
#[derive(Clone, Copy, PartialEq, Eq, Debug, Structural)]
pub enum MigrationStep {
    /// Already split, projection present, nothing inline: leave it.
    Keep,
    /// The transcript file exists: re-project the metadata file from it
    /// (dropping any inline copy); where it cannot be read, leave it.
    Reproject,
    /// No transcript file: write the inline messages (or none) to one, then
    /// re-project the metadata file.
    Split,
}

/// The step for a directory (see [`migration_step`]).
pub open spec fn migration_step_spec(has_transcript_file: bool, has_inline: bool, title_empty: bool) -> MigrationStep {
    if !has_transcript_file {
        MigrationStep::Split
    } else if !has_inline && !title_empty {
        MigrationStep::Keep
    } else {
        MigrationStep::Reproject
    }
}

/// The step for a directory, from whether its transcript file exists,
/// whether its metadata file still holds messages inline, and whether its
/// stored title is empty (the projection is missing).
pub fn migration_step(has_transcript_file: bool, has_inline: bool, title_empty: bool) -> (m: MigrationStep)
    ensures
        m == migration_step_spec(has_transcript_file, has_inline, title_empty),
        m == MigrationStep::Keep <==> (has_transcript_file && !has_inline && !title_empty),
        m == MigrationStep::Reproject <==> (has_transcript_file && (has_inline || title_empty)),
        m == MigrationStep::Split <==> !has_transcript_file,
{
    if !has_transcript_file {
        MigrationStep::Split
    } else if !has_inline && !title_empty {
        MigrationStep::Keep
    } else {
        MigrationStep::Reproject
    }
}

/// Migration is idempotent: once a directory holds its transcript file and
/// a metadata file projected from its session `s` (which never holds
/// messages inline), the next pass leaves it as it is.
pub proof fn lemma_migration_is_idempotent(s: Session)
    ensures
        migration_step_spec(true, false, display_title_spec(s).len() == 0) == MigrationStep::Keep,
{
    crate::types::lemma_display_title_nonempty(s);
}

} // verus!

verus! {

/// The first position whose update time is earlier than `k`.
pub open spec fn ins_pos_desc(s: Seq<SessionSummary>, k: i64) -> int
    decreases s.len(),
{
    if s.len() == 0 {
        0
    } else if s[0].updated_at < k {
        0
    } else {
        1 + ins_pos_desc(s.drop_first(), k)
    }
}

/// Newest first, by a stable sort: each item, in turn, goes after every
/// item already placed that is not older.
pub open spec fn newest_first(s: Seq<SessionSummary>) -> Seq<SessionSummary>
    decreases s.len(),
{
    if s.len() == 0 {
        s
    } else {
        let r = newest_first(s.drop_last());
        r.insert(ins_pos_desc(r, s.last().updated_at), s.last())
    }
}

/// Descending by update time.
pub open spec fn sorted_newest_first(s: Seq<SessionSummary>) -> bool {
    forall|i: int, j: int| 0 <= i < j < s.len() ==> s[i].updated_at >= s[j].updated_at
}

pub proof fn lemma_ins_pos_desc(s: Seq<SessionSummary>, k: i64)
    ensures
        0 <= ins_pos_desc(s, k) <= s.len(),
        forall|t: int| 0 <= t < ins_pos_desc(s, k) ==> (#[trigger] s[t]).updated_at >= k,
        ins_pos_desc(s, k) < s.len() ==> s[ins_pos_desc(s, k)].updated_at < k,
    decreases s.len(),
{
    if s.len() > 0 && s[0].updated_at >= k {
        lemma_ins_pos_desc(s.drop_first(), k);
        assert forall|t: int| 0 <= t < ins_pos_desc(s, k) implies (#[trigger] s[t]).updated_at
            >= k by {
            if t > 0 {
                assert(s[t] == s.drop_first()[t - 1]);
            }
        }
    }
}

/// Sorting the list keeps every session: the sorted list holds the same
/// items, each as often as before.
pub proof fn lemma_newest_first_keeps_sessions(s: Seq<SessionSummary>)
    ensures
        newest_first(s).to_multiset() == s.to_multiset(),
    decreases s.len(),
{
    if s.len() > 0 {
        let r = newest_first(s.drop_last());
        lemma_newest_first_keeps_sessions(s.drop_last());
        lemma_ins_pos_desc(r, s.last().updated_at);
        vstd::seq_lib::to_multiset_insert(r, ins_pos_desc(r, s.last().updated_at), s.last());
        vstd::seq_lib::to_multiset_build(s.drop_last(), s.last());
        assert(s.drop_last().push(s.last()) =~= s);
    }
}

/// The newest-first order is sorted by update time, descending.
pub proof fn lemma_newest_first_sorted(s: Seq<SessionSummary>)
    ensures
        sorted_newest_first(newest_first(s)),
        newest_first(s).len() == s.len(),
    decreases s.len(),
{
    if s.len() > 0 {
        let r = newest_first(s.drop_last());
        lemma_newest_first_sorted(s.drop_last());
        let k = s.last().updated_at;
        lemma_ins_pos_desc(r, k);
        let p = ins_pos_desc(r, k);
        let o = r.insert(p, s.last());
        assert forall|i: int, j: int| 0 <= i < j < o.len() implies o[i].updated_at
            >= o[j].updated_at by {
            if j < p {
            } else if j == p {
                assert(r[i].updated_at >= k);
            } else if i < p {
                assert(o[j] == r[j - 1]);
                assert(r[i].updated_at >= r[j - 1].updated_at);
            } else if i == p {
                assert(o[j] == r[j - 1]);
                assert(r[p].updated_at < k);
                assert(r[p].updated_at >= r[j - 1].updated_at);
            } else {
                assert(o[i] == r[i - 1]);
                assert(o[j] == r[j - 1]);
            }
        }
    }
}

fn ins_pos_desc_exec(s: &Vec<SessionSummary>, k: i64) -> (p: usize)
    ensures
        p == ins_pos_desc(s@, k),
{
    let mut i: usize = 0;
    assert(s@.skip(0) =~= s@);
    while i < s.len() && s[i].updated_at >= k
        invariant
            i <= s.len(),
            ins_pos_desc(s@, k) == i + ins_pos_desc(s@.skip(i as int), k),
        decreases s.len() - i,
    {
        assert(s@.skip(i as int)[0] == s@[i as int]);
        assert(s@.skip(i as int).drop_first() =~= s@.skip(i + 1 as int));
        i = i + 1;
    }
    if i < s.len() {
        assert(s@.skip(i as int)[0] == s@[i as int]);
    }
    i
}

/// Sorts the list newest first (stable).
pub fn sort_summaries_desc(summaries: Vec<SessionSummary>) -> (r: Vec<SessionSummary>)
    ensures
        r@ == newest_first(summaries@),
        sorted_newest_first(r@),
        r@.to_multiset() == summaries@.to_multiset(),
{
    proof {
        lemma_newest_first_sorted(summaries@);
        lemma_newest_first_keeps_sessions(summaries@);
    }
    let ghost all = summaries@;
    let mut src = summaries;
    let mut out: Vec<SessionSummary> = Vec::new();
    let mut j: usize = 0;
    assert(all.take(0) =~= Seq::<SessionSummary>::empty());
    assert(all.skip(0) =~= all);
    let total = src.len();
    while src.len() > 0
        invariant
            j <= all.len(),
            all.len() == total,
            src@ == all.skip(j as int),
            out@ == newest_first(all.take(j as int)),
        decreases src.len(),
    {
        let x = src.remove(0);
        assert(x == all[j as int]);
        assert(src@ =~= all.skip(j + 1 as int));
        proof {
            lemma_ins_pos_desc(out@, x.updated_at);
        }
        let p = ins_pos_desc_exec(&out, x.updated_at);
        assert(all.take(j + 1 as int).drop_last() =~= all.take(j as int));
        out.insert(p, x);
        j = j + 1;
    }
    assert(all.take(j as int) =~= all);
    out
}

/// Position of the first item with id `id`, or `-1`.
pub open spec fn index_of_id(s: Seq<SessionSummary>, id: Seq<char>) -> int
    decreases s.len(),
{
    if s.len() == 0 {
        -1
    } else if s[0].id@ == id {
        0
    } else {
        let r = index_of_id(s.drop_first(), id);
        if r < 0 {
            -1
        } else {
            r + 1
        }
    }
}

/// A page of the session list: newest first, starting after the item
/// `before` (an unknown cursor gives an empty page), at most `limit` items.
pub open spec fn list_window_spec(all: Seq<SessionSummary>, limit: Option<u32>, before: Option<
    Seq<char>,
>) -> Seq<SessionSummary> {
    let sorted = newest_first(all);
    let start = match before {
        Some(b) => {
            let i = index_of_id(sorted, b);
            if i < 0 {
                sorted.len() as int
            } else {
                i + 1
            }
        },
        None => 0,
    };
    let rest = sorted.skip(start);
    match limit {
        Some(n) => if rest.len() > n {
            rest.take(n as int)
        } else {
            rest
        },
        None => rest,
    }
}

fn index_of_id_exec(s: &Vec<SessionSummary>, id: &str) -> (r: usize)
    ensures
        r <= s@.len(),
        r == s@.len() ==> index_of_id(s@, id@) < 0,
        r < s@.len() ==> index_of_id(s@, id@) == r,
{
    let mut i: usize = 0;
    assert(s@.skip(0) =~= s@);
    while i < s.len()
        invariant
            i <= s.len(),
            index_of_id(s@, id@) == (if index_of_id(s@.skip(i as int), id@) < 0 {
                -1
            } else {
                index_of_id(s@.skip(i as int), id@) + i
            }),
        decreases s.len() - i,
    {
        assert(s@.skip(i as int)[0] == s@[i as int]);
        if crate::json::str_eq(s[i].id.as_str(), id) {
            return i;
        }
        assert(s@.skip(i as int).drop_first() =~= s@.skip(i + 1 as int));
        i = i + 1;
    }
    assert(s@.skip(i as int).len() == 0);
    i
}

/// A page of the session list (see [`list_window_spec`]).
pub fn list_sessions_window(all: Vec<SessionSummary>, limit: Option<u32>, before: Option<&str>) -> (r:
    Vec<SessionSummary>)
    ensures
        r@ == list_window_spec(
            all@,
            limit,
            match before {
                Some(b) => Some(b@),
                None => None,
            },
        ),
{
    let sorted = sort_summaries_desc(all);
    let start: usize = match before {
        Some(b) => {
            let i = index_of_id_exec(&sorted, b);
            if i < sorted.len() {
                i + 1
            } else {
                sorted.len()
            }
        },
        None => 0,
    };
    let ghost sv = sorted@;
    let mut src = sorted;
    let mut skipped: usize = 0;
    while skipped < start
        invariant
            skipped <= start <= sv.len(),
            src@ == sv.skip(skipped as int),
        decreases start - skipped,
    {
        let _ = src.remove(0);
        assert(src@ =~= sv.skip(skipped + 1 as int));
        skipped = skipped + 1;
    }
    match limit {
        Some(n) => {
            let n = n as usize;
            if src.len() > n {
                src.truncate(n);
                assert(src@ =~= sv.skip(start as int).take(n as int));
            }
        },
        None => {},
    }
    src
}

/// No two items share an id.
pub open spec fn ids_distinct(s: Seq<SessionSummary>) -> bool {
    forall|a: int, b: int| 0 <= a < b < s.len() ==> s[a].id@ != s[b].id@
}

/// The first item with a given id is the one that has it, where ids are
/// distinct.
proof fn lemma_index_of_distinct(s: Seq<SessionSummary>, i: int)
    requires
        ids_distinct(s),
        0 <= i < s.len(),
    ensures
        index_of_id(s, s[i].id@) == i,
    decreases s.len(),
{
    if i > 0 {
        assert(s[0].id@ != s[i].id@);
        let t = s.drop_first();
        assert(t[i - 1] == s[i]);
        lemma_index_of_distinct(t, i - 1);
    }
}

/// Ordering the list keeps ids distinct.
proof fn lemma_newest_first_distinct(s: Seq<SessionSummary>)
    requires
        ids_distinct(s),
    ensures
        ids_distinct(newest_first(s)),
    decreases s.len(),
{
    if s.len() > 0 {
        let pre = s.drop_last();
        let x = s.last();
        lemma_newest_first_distinct(pre);
        let r = newest_first(pre);
        lemma_newest_first_keeps_sessions(pre);
        lemma_ins_pos_desc(r, x.updated_at);
        let p = ins_pos_desc(r, x.updated_at);
        assert forall|k: int| 0 <= k < r.len() implies (#[trigger] r[k]).id@ != x.id@ by {
            vstd::seq_lib::to_multiset_contains(r, r[k]);
            vstd::seq_lib::to_multiset_contains(pre, r[k]);
            assert(r.contains(r[k]));
            assert(pre.contains(r[k]));
            let m = choose|m: int| 0 <= m < pre.len() && pre[m] == r[k];
            assert(s[m] == pre[m]);
            assert(s[m].id@ != s[s.len() - 1].id@);
        }
        let o = r.insert(p, x);
        assert forall|a: int, b: int| 0 <= a < b < o.len() implies o[a].id@ != o[b].id@ by {
            if b < p {
                assert(o[a] == r[a] && o[b] == r[b]);
            } else if b == p {
                assert(o[a] == r[a]);
            } else if a < p {
                assert(o[a] == r[a] && o[b] == r[b - 1]);
            } else if a == p {
                assert(o[b] == r[b - 1]);
            } else {
                assert(o[a] == r[a - 1] && o[b] == r[b - 1]);
            }
        }
    }
}

/// Paging continues right after the cursor: where ids are distinct, the
/// page after the item at position `i` of the newest-first list is the
/// items that follow it there, at most `limit` of them. So the last id of
/// one page, given as the cursor, yields the next page.
pub proof fn lemma_page_after_item(all: Seq<SessionSummary>, limit: u32, i: int)
    requires
        ids_distinct(all),
        0 <= i < all.len(),
    ensures
        ({
            let sorted = newest_first(all);
            let rest = sorted.skip(i + 1);
            list_window_spec(all, Some(limit), Some(sorted[i].id@)) == (if rest.len() > limit {
                rest.take(limit as int)
            } else {
                rest
            })
        }),
{
    lemma_newest_first_sorted(all);
    lemma_newest_first_distinct(all);
    lemma_index_of_distinct(newest_first(all), i);
}

/// `a` holds the same session as `b`.
pub open spec fn same_session(a: Session, b: Session) -> bool {
    &&& a.id == b.id
    &&& a.messages@ == b.messages@
    &&& a.created_at == b.created_at
    &&& a.updated_at == b.updated_at
    &&& a.metadata == b.metadata
}

/// `r` is the list projection of `s` (see `SessionSummary::of`).
pub open spec fn projects(r: SessionSummary, s: Session) -> bool {
    &&& r.id == s.id
    &&& r.title@ == display_title_spec(s)
    &&& r.created_at == s.created_at
    &&& r.updated_at == s.updated_at
    &&& r.metadata == s.metadata
    &&& r.message_count == s.messages@.len()
    &&& (match r.summary {
        Some(x) => summary_from(s.messages@) == Some(x@),
        None => summary_from(s.messages@) is None,
    })
    &&& r.meta_tags@.map_values(|t: String| t@) == meta_tags_spec(s.metadata, s.messages@.len())
}

/// Position of the session with id `id`, or `-1`.
pub open spec fn session_position(ss: Seq<Session>, id: Seq<char>) -> int
    decreases ss.len(),
{
    if ss.len() == 0 {
        -1
    } else if ss.last().id@ == id {
        ss.len() - 1
    } else {
        session_position(ss.drop_last(), id)
    }
}

proof fn lemma_session_position(ss: Seq<Session>, id: Seq<char>)
    ensures
        -1 <= session_position(ss, id) < ss.len(),
        session_position(ss, id) >= 0 ==> ss[session_position(ss, id)].id@ == id,
        session_position(ss, id) < 0 ==> forall|i: int| 0 <= i < ss.len() ==> ss[i].id@ != id,
    decreases ss.len(),
{
    if ss.len() > 0 && ss.last().id@ != id {
        lemma_session_position(ss.drop_last(), id);
        assert forall|i: int| 0 <= i < ss.len() - 1 implies ss[i] == ss.drop_last()[i] by {}
    }
}

/// The prefix of a temporary session's id.
pub const EPHEMERAL_PREFIX: &'static str = "_t_";

/// Whether session `id` is temporary (kept in memory only): an empty id or
/// one that starts with [`EPHEMERAL_PREFIX`].
pub fn is_ephemeral_id(id: &str) -> (r: bool)
    ensures
        r == (id@.len() == 0 || (id@.len() >= 3 && id@.take(3) == EPHEMERAL_PREFIX@)),
{
    let v = chars_of(id);
    proof {
        reveal_strlit("_t_");
    }
    if v.len() == 0 {
        return true;
    }
    if v.len() < 3 {
        return false;
    }
    let r = v[0] == '_' && v[1] == 't' && v[2] == '_';
    assert(EPHEMERAL_PREFIX@ == seq!['_', 't', '_']);
    if r {
        assert(v@.take(3) =~= EPHEMERAL_PREFIX@);
    } else {
        assert(v@.take(3)[0] != '_' || v@.take(3)[1] != 't' || v@.take(3)[2] != '_');
    }
    r
}

/// The sessions of a process that keeps them in memory only (temporary
/// sessions): at most one per id, in the order they were first saved.
pub struct InMemorySessionStore {
    sessions: Vec<Session>,
}

impl InMemorySessionStore {
    /// The sessions held, in the order they were first saved.
    pub closed spec fn entries(&self) -> Seq<Session> {
        self.sessions@
    }

    /// Well-formedness: no two sessions share an id.
    pub closed spec fn wf(&self) -> bool {
        forall|a: int, b: int| 0 <= a < b < self.sessions@.len() ==> self.sessions@[a].id@ != self.sessions@[b].id@
    }

    /// Ids are distinct in a well-formed store.
    pub proof fn lemma_ids_distinct(&self)
        requires
            self.wf(),
        ensures
            forall|a: int, b: int| 0 <= a < b < self.entries().len() ==> self.entries()[a].id@ != self.entries()[b].id@,
    {
    }

    /// An empty store.
    pub fn new() -> (s: Self)
        ensures
            s.wf(),
            s.entries() == Seq::<Session>::empty(),
    {
        InMemorySessionStore { sessions: Vec::new() }
    }

    fn position_of(&self, id: &str) -> (r: Option<usize>)
        ensures
            match r {
                Some(i) => session_position(self.entries(), id@) == i as int && i < self.entries().len(),
                None => session_position(self.entries(), id@) < 0,
            },
    {
        proof {
            lemma_session_position(self.entries(), id@);
        }
        let mut n = self.sessions.len();
        assert(self.sessions@.take(n as int) =~= self.sessions@);
        while n > 0
            invariant
                n <= self.sessions@.len(),
                session_position(self.sessions@, id@) == session_position(self.sessions@.take(n as int), id@),
            decreases n,
        {
            let ghost pre = self.sessions@.take(n as int);
            assert(pre.drop_last() =~= self.sessions@.take(n - 1));
            if crate::json::str_eq(self.sessions[n - 1].id.as_str(), id) {
                return Some(n - 1);
            }
            n = n - 1;
        }
        None
    }

    /// The stored session `id`, or `None` when it is not held.
    pub fn load_session_checked(&self, id: &str) -> (r: Option<Session>)
        ensures
            ({
                let p = session_position(self.entries(), id@);
                if p < 0 {
                    r is None
                } else {
                    r matches Some(x) && same_session(x, self.entries()[p])
                }
            }),
    {
        match self.position_of(id) {
            Some(i) => Some(self.sessions[i].copy()),
            None => None,
        }
    }

    /// The stored session `id`; one that is not held is a new empty
    /// session `id` (which is not stored).
    pub fn load_session(&self, id: &str) -> (r: Session)
        ensures
            r.id@ == id@,
            ({
                let p = session_position(self.entries(), id@);
                if p < 0 {
                    r.messages@.len() == 0 && r.created_at == r.updated_at
                } else {
                    same_session(r, self.entries()[p])
                }
            }),
    {
        proof {
            lemma_session_position(self.entries(), id@);
        }
        match self.position_of(id) {
            Some(i) => self.sessions[i].copy(),
            None => Session::new(string_of(chars_of(id).as_slice())),
        }
    }

    /// Saves a session: it replaces the one with its id, in place, or is
    /// added last.
    pub fn save_session(&mut self, session: &Session)
        requires
            old(self).wf(),
        ensures
            final(self).wf(),
            ({
                let o = old(self).entries();
                let f = final(self).entries();
                let p = session_position(o, session.id@);
                if p < 0 {
                    &&& f.len() == o.len() + 1
                    &&& forall|i: int| 0 <= i < o.len() ==> f[i] == o[i]
                    &&& same_session(f[o.len() as int], *session)
                } else {
                    &&& f.len() == o.len()
                    &&& forall|i: int| 0 <= i < o.len() && i != p ==> f[i] == o[i]
                    &&& same_session(f[p], *session)
                }
            }),
    {
        proof {
            lemma_session_position(self.entries(), session.id@);
        }
        let c = session.copy();
        match self.position_of(session.id.as_str()) {
            Some(i) => {
                self.sessions.set(i, c);
                proof {
                    let f = self.sessions@;
                    assert forall|a: int, b: int| 0 <= a < b < f.len() implies f[a].id@ != f[b].id@ by {
                        if a != i as int && b != i as int {
                            assert(f[a] == old(self).sessions@[a]);
                            assert(f[b] == old(self).sessions@[b]);
                        } else if a == i as int {
                            assert(f[b] == old(self).sessions@[b]);
                        } else {
                            assert(f[a] == old(self).sessions@[a]);
                        }
                    }
                }
            },
            None => {
                self.sessions.push(c);
                proof {
                    let f = self.sessions@;
                    let o = old(self).sessions@;
                    assert forall|a: int, b: int| 0 <= a < b < f.len() implies f[a].id@ != f[b].id@ by {
                        assert(f[a] == o[a]);
                        if b < o.len() {
                            assert(f[b] == o[b]);
                        }
                    }
                }
            },
        }
    }

    /// Deletes session `id`; one that is not held is no error.
    pub fn delete_session(&mut self, id: &str)
        requires
            old(self).wf(),
        ensures
            final(self).wf(),
            ({
                let o = old(self).entries();
                let p = session_position(o, id@);
                final(self).entries() == if p < 0 {
                    o
                } else {
                    o.remove(p)
                }
            }),
    {
        proof {
            lemma_session_position(self.entries(), id@);
        }
        match self.position_of(id) {
            Some(i) => {
                let ghost o = self.sessions@;
                let _ = self.sessions.remove(i);
                proof {
                    let f = self.sessions@;
                    assert forall|a: int, b: int| 0 <= a < b < f.len() implies f[a].id@ != f[b].id@ by {
                        let a0 = if a < i { a } else { a + 1 };
                        let b0 = if b < i { b } else { b + 1 };
                        assert(f[a] == o[a0]);
                        assert(f[b] == o[b0]);
                    }
                }
            },
            None => {},
        }
    }

    /// Sessions kept in memory have no directory.
    pub fn session_dir(&self, id: &str) -> (r: Option<String>)
        ensures
            r is None,
    {
        None
    }

    /// The projections of the sessions held, newest first.
    pub fn list_sessions(&self) -> (r: Vec<SessionSummary>)
        ensures
            exists|v: Seq<SessionSummary>|
                #![trigger newest_first(v)]
                v.len() == self.entries().len() && (forall|i: int|
                    0 <= i < v.len() ==> projects(#[trigger] v[i], self.entries()[i])) && r@
                    == newest_first(v),
            sorted_newest_first(r@),
    {
        let mut v: Vec<SessionSummary> = Vec::new();
        let mut i: usize = 0;
        while i < self.sessions.len()
            invariant
                i <= self.sessions@.len(),
                v@.len() == i,
                forall|k: int| 0 <= k < i ==> projects(#[trigger] v@[k], self.sessions@[k]),
            decreases self.sessions@.len() - i,
        {
            let sum = SessionSummary::of(&self.sessions[i]);
            v.push(sum);
            i = i + 1;
        }
        let ghost vs = v@;
        let r = sort_summaries_desc(v);
        assert(r@ == newest_first(vs));
        r
    }
}

} // verus!
