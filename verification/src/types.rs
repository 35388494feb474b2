//! The session entity, its list projection, title and summary derivation,
//! and the heartbeat configuration read from session metadata.
use vstd::prelude::*;
use crate::json::{
    Json, JsonMap, last_lookup, lemma_lookup_inserted, lemma_merge_lookup, merge_into, merge_maps,
};
use crate::message::{
    ChatMessage, MessageContent, MessageRole, content_text, part_texts, copy_messages,
};
use crate::text::{
    chars_of, extend_chars, is_whitespace, is_ws, lines, line_bounds, push_decimal,
    push_str_chars, slice_vec, string_of, trim, trim_end, trim_end_index, trim_indices, dec,
    trim_start, lemma_trim_end_is_prefix, lemma_trim_start_is_suffix,
};

verus! {

/// Maximum characters of a derived title.
pub const SESSION_TITLE_MAX_CHARS: usize = 24;

/// Maximum characters of a derived summary.
pub const SUMMARY_MAX_CHARS: usize = 60;

/// The first line that is not blank once trimmed, trimmed.
pub open spec fn first_nonblank(ls: Seq<Seq<char>>) -> Option<Seq<char>>
    decreases ls.len(),
{
    if ls.len() == 0 {
        None
    } else if trim(ls[0]).len() > 0 {
        Some(trim(ls[0]))
    } else {
        first_nonblank(ls.skip(1))
    }
}

/// Every run of whitespace collapsed to one space.
pub open spec fn squash(s: Seq<char>) -> Seq<char>
    decreases s.len(),
{
    if s.len() == 0 {
        Seq::empty()
    } else {
        let o = squash(s.drop_last());
        let c = s.last();
        if is_ws(c) {
            if o.len() > 0 && o.last() == ' ' {
                o
            } else {
                o.push(' ')
            }
        } else {
            o.push(c)
        }
    }
}

/// A title line: whitespace collapsed, at most 24 characters, an ellipsis
/// when longer.
pub open spec fn clip_title(l: Seq<char>) -> Seq<char> {
    if l.len() > SESSION_TITLE_MAX_CHARS {
        trim_end(squash(l.take(SESSION_TITLE_MAX_CHARS as int))) + seq!['…']
    } else {
        trim_end(squash(l))
    }
}

/// A summary line: whitespace collapsed, at most 60 characters, an
/// ellipsis when longer (the same style as a title).
pub open spec fn clip_summary(l: Seq<char>) -> Seq<char> {
    if l.len() <= SUMMARY_MAX_CHARS {
        trim_end(squash(l))
    } else {
        trim_end(squash(l.take(SUMMARY_MAX_CHARS as int))) + seq!['…']
    }
}

/// Bounds of the first non-blank line of `v`, trimmed.
pub fn first_nonblank_line(v: &Vec<char>) -> (r: Option<(usize, usize)>)
    ensures
        match r {
            None => first_nonblank(lines(v@)) is None,
            Some(p) => p.0 <= p.1 <= v@.len() && first_nonblank(lines(v@)) == Some(
                v@.subrange(p.0 as int, p.1 as int),
            ),
        },
{
    let bounds = line_bounds(v);
    let ghost ls = lines(v@);
    let mut k: usize = 0;
    assert(ls.skip(0) =~= ls);
    while k < bounds.len()
        invariant
            k <= bounds@.len() == ls.len(),
            ls == lines(v@),
            forall|j: int|
                0 <= j < bounds@.len() ==> {
                    &&& (#[trigger] bounds@[j]).0 <= bounds@[j].1 <= v@.len()
                    &&& v@.subrange(bounds@[j].0 as int, bounds@[j].1 as int) == ls[j]
                },
            first_nonblank(ls) == first_nonblank(ls.skip(k as int)),
        decreases bounds.len() - k,
    {
        let (lo, hi) = bounds[k];
        let (b, e) = trim_indices(v, lo, hi);
        assert(ls.skip(k as int)[0] == ls[k as int]);
        if b < e {
            return Some((b, e));
        }
        assert(ls.skip(k as int).skip(1) =~= ls.skip(k + 1 as int));
        k = k + 1;
    }
    assert(ls.skip(k as int).len() == 0);
    None
}

/// Collapses whitespace in `v[b..e]`.
pub fn squash_range(v: &Vec<char>, b: usize, e: usize) -> (out: Vec<char>)
    requires
        b <= e <= v.len(),
    ensures
        out@ == squash(v@.subrange(b as int, e as int)),
{
    let mut out: Vec<char> = Vec::new();
    let mut i = b;
    while i < e
        invariant
            b <= i <= e <= v.len(),
            out@ == squash(v@.subrange(b as int, i as int)),
        decreases e - i,
    {
        assert(v@.subrange(b as int, i + 1 as int).drop_last() =~= v@.subrange(b as int, i as int));
        let c = v[i];
        if is_whitespace(c) {
            let n = out.len();
            if !(n > 0 && out[n - 1] == ' ') {
                out.push(' ');
            }
        } else {
            out.push(c);
        }
        i = i + 1;
    }
    out
}

/// `trim_end(squash(v[b..e]))`.
fn squashed_trimmed(v: &Vec<char>, b: usize, e: usize) -> (out: Vec<char>)
    requires
        b <= e <= v.len(),
    ensures
        out@ == trim_end(squash(v@.subrange(b as int, e as int))),
{
    let s = squash_range(v, b, e);
    let t = trim_end_index(&s, 0, s.len());
    assert(s@.subrange(0, s@.len() as int) =~= s@);
    slice_vec(&s, 0, t)
}

/// The title of the line `v[b..e]` (see [`clip_title`]).
fn title_line(v: &Vec<char>, b: usize, e: usize) -> (out: Vec<char>)
    requires
        b <= e <= v.len(),
    ensures
        out@ == clip_title(v@.subrange(b as int, e as int)),
{
    if e - b > SESSION_TITLE_MAX_CHARS {
        let mut out = squashed_trimmed(v, b, b + SESSION_TITLE_MAX_CHARS);
        assert(v@.subrange(b as int, e as int).take(SESSION_TITLE_MAX_CHARS as int) =~= v@.subrange(
            b as int,
            b + SESSION_TITLE_MAX_CHARS,
        ));
        out.push('…');
        out
    } else {
        squashed_trimmed(v, b, e)
    }
}

/// The summary of the line `v[b..e]` (see [`clip_summary`]).
fn summary_line(v: &Vec<char>, b: usize, e: usize) -> (out: Vec<char>)
    requires
        b <= e <= v.len(),
    ensures
        out@ == clip_summary(v@.subrange(b as int, e as int)),
{
    if e - b <= SUMMARY_MAX_CHARS {
        squashed_trimmed(v, b, e)
    } else {
        let mut out = squashed_trimmed(v, b, b + SUMMARY_MAX_CHARS);
        assert(v@.subrange(b as int, e as int).take(SUMMARY_MAX_CHARS as int) =~= v@.subrange(
            b as int,
            b + SUMMARY_MAX_CHARS,
        ));
        out.push('…');
        out
    }
}

/// The pieces joined by single spaces.
pub open spec fn join_sp(ls: Seq<Seq<char>>) -> Seq<char>
    decreases ls.len(),
{
    if ls.len() == 0 {
        Seq::empty()
    } else if ls.len() == 1 {
        ls[0]
    } else {
        join_sp(ls.drop_last()) + seq![' '] + ls.last()
    }
}

fn join_spaces(pieces: &Vec<Vec<char>>) -> (r: Vec<char>)
    ensures
        r@ == join_sp(pieces.deep_view()),
{
    let mut out: Vec<char> = Vec::new();
    let mut k: usize = 0;
    while k < pieces.len()
        invariant
            k <= pieces.len(),
            out@ == join_sp(pieces.deep_view().take(k as int)),
        decreases pieces.len() - k,
    {
        let ghost s2 = pieces.deep_view().take(k + 1 as int);
        if k > 0 {
            out.push(' ');
        }
        extend_chars(&mut out, &pieces[k]);
        proof {
            assert(s2.drop_last() =~= pieces.deep_view().take(k as int));
            assert(s2.last() == pieces[k as int]@);
            if k == 0 {
                assert(s2.len() == 1);
            }
            assert(out@ =~= join_sp(s2));
        }
        k = k + 1;
    }
    assert(pieces.deep_view().take(pieces.len() as int) =~= pieces.deep_view());
    out
}

/// The text a title is taken from: a text body, or the text parts joined
/// by spaces.
pub open spec fn title_text(c: MessageContent) -> Seq<char> {
    match c {
        MessageContent::Text(s) => s@,
        MessageContent::Parts(p) => join_sp(part_texts(p)),
    }
}

fn title_text_of(c: &MessageContent) -> (r: Vec<char>)
    ensures
        r@ == title_text(*c),
{
    match c {
        MessageContent::Text(s) => chars_of(s.as_str()),
        MessageContent::Parts(p) => {
            let mut pieces: Vec<Vec<char>> = Vec::new();
            p.collect_texts(&mut pieces);
            assert(pieces.deep_view() =~= part_texts(*p));
            join_spaces(&pieces)
        },
    }
}

/// The derived title: the first user message whose body holds text (a
/// non-blank line) decides; that line, clipped. `None` when no user message
/// holds text.
pub open spec fn title_from(ms: Seq<ChatMessage>) -> Option<Seq<char>>
    decreases ms.len(),
{
    if ms.len() == 0 {
        None
    } else if ms[0].role == Some(MessageRole::User) && ms[0].content is Some {
        match first_nonblank(lines(title_text(ms[0].content->0))) {
            Some(l) => Some(clip_title(l)),
            None => title_from(ms.skip(1)),
        }
    } else {
        title_from(ms.skip(1))
    }
}

/// Derives a session title from its messages (see [`title_from`]).
pub fn derive_session_title(messages: &Vec<ChatMessage>) -> (r: Option<String>)
    ensures
        match r {
            Some(s) => title_from(messages@) == Some(s@),
            None => title_from(messages@) is None,
        },
{
    let mut i: usize = 0;
    assert(messages@.skip(0) =~= messages@);
    while i < messages.len()
        invariant
            i <= messages.len(),
            title_from(messages@) == title_from(messages@.skip(i as int)),
        decreases messages.len() - i,
    {
        let m = &messages[i];
        assert(messages@.skip(i as int)[0] == messages@[i as int]);
        let is_user = match m.role {
            Some(MessageRole::User) => true,
            _ => false,
        };
        if is_user {
            match &m.content {
                Some(c) => {
                    let t = title_text_of(c);
                    match first_nonblank_line(&t) {
                        Some((b, e)) => {
                            let out = title_line(&t, b, e);
                            return Some(string_of(out.as_slice()));
                        },
                        None => {},
                    }
                },
                None => {},
            }
        }
        assert(messages@.skip(i as int).skip(1) =~= messages@.skip(i + 1 as int));
        i = i + 1;
    }
    None
}

/// The derived summary: the last assistant reply whose body text is not
/// blank; the first non-blank line of its trimmed text, clipped.
pub open spec fn summary_from(ms: Seq<ChatMessage>) -> Option<Seq<char>>
    decreases ms.len(),
{
    if ms.len() == 0 {
        None
    } else if ms.last().role == Some(MessageRole::Assistant) && ms.last().content is Some && trim(
        content_text(ms.last().content->0),
    ).len() > 0 {
        match first_nonblank(lines(trim(content_text(ms.last().content->0)))) {
            Some(l) => Some(clip_summary(l)),
            None => None,
        }
    } else {
        summary_from(ms.drop_last())
    }
}

/// Derives the one-line summary of a session (see [`summary_from`]).
pub fn derive_session_summary(messages: &Vec<ChatMessage>) -> (r: Option<String>)
    ensures
        match r {
            Some(s) => summary_from(messages@) == Some(s@),
            None => summary_from(messages@) is None,
        },
{
    let mut i: usize = messages.len();
    assert(messages@.take(i as int) =~= messages@);
    while i > 0
        invariant
            i <= messages.len(),
            summary_from(messages@) == summary_from(messages@.take(i as int)),
        decreases i,
    {
        let m = &messages[i - 1];
        let ghost pre = messages@.take(i as int);
        assert(pre.last() == messages@[i - 1]);
        assert(pre.drop_last() =~= messages@.take(i - 1));
        let is_assistant = match m.role {
            Some(MessageRole::Assistant) => true,
            _ => false,
        };
        match &m.content {
            Some(c) if is_assistant => {
                let full = c.text_chars();
                let (b, e) = trim_indices(&full, 0, full.len());
                assert(full@.subrange(0, full@.len() as int) =~= full@);
                if b < e {
                    let t = slice_vec(&full, b, e);
                    return match first_nonblank_line(&t) {
                        Some((lb, le)) => {
                            let out = summary_line(&t, lb, le);
                            Some(string_of(out.as_slice()))
                        },
                        None => None,
                    };
                }
            },
            _ => {},
        }
        i = i - 1;
    }
    assert(messages@.take(0) =~= Seq::<ChatMessage>::empty());
    None
}

} // verus!

verus! {

/// A path separator of either platform.
pub open spec fn is_sep(c: char) -> bool {
    c == '/' || c == '\\'
}

/// `s` without trailing separators.
pub open spec fn strip_seps(s: Seq<char>) -> Seq<char>
    decreases s.len(),
{
    if s.len() > 0 && is_sep(s.last()) {
        strip_seps(s.drop_last())
    } else {
        s
    }
}

/// The part of `s` after its last separator (all of `s` without one).
pub open spec fn last_seg(s: Seq<char>) -> Seq<char>
    decreases s.len(),
{
    if s.len() == 0 {
        s
    } else if is_sep(s.last()) {
        Seq::empty()
    } else {
        last_seg(s.drop_last()).push(s.last())
    }
}

/// The directory tag of a working directory: the last path segment of the
/// trimmed value, trailing separators ignored.
pub open spec fn workdir_tag(wd: Seq<char>) -> Seq<char> {
    last_seg(strip_seps(trim(wd)))
}

/// `<n> 条`.
pub open spec fn count_tag(n: nat) -> Seq<char> {
    dec(n) + " 条"@
}

/// The tags of a session: its working directory's name (when the metadata
/// holds a non-blank `workdir` whose last segment is not empty), then the
/// message count.
pub open spec fn meta_tags_spec(metadata: Json, message_count: nat) -> Seq<Seq<char>> {
    match Json::str_of(metadata.field("workdir"@)) {
        Some(wd) => if trim(wd).len() > 0 && workdir_tag(wd).len() > 0 {
            seq![workdir_tag(wd), count_tag(message_count)]
        } else {
            seq![count_tag(message_count)]
        },
        None => seq![count_tag(message_count)],
    }
}

/// The last segment of `v[b..e]` after trailing separators are dropped.
fn workdir_tag_of(v: &Vec<char>) -> (r: Vec<char>)
    ensures
        r@ == workdir_tag(v@),
{
    let (b, e0) = trim_indices(v, 0, v.len());
    assert(v@.subrange(0, v@.len() as int) =~= v@);
    let mut e = e0;
    while e > b && (v[e - 1] == '/' || v[e - 1] == '\\')
        invariant
            b <= e <= e0 <= v.len(),
            strip_seps(v@.subrange(b as int, e as int)) == strip_seps(trim(v@)),
        decreases e,
    {
        assert(v@.subrange(b as int, e as int).drop_last() =~= v@.subrange(b as int, e - 1 as int));
        e = e - 1;
    }
    assert(strip_seps(v@.subrange(b as int, e as int)) == v@.subrange(b as int, e as int));
    let mut s = e;
    while s > b && !(v[s - 1] == '/' || v[s - 1] == '\\')
        invariant
            b <= s <= e <= v.len(),
            last_seg(v@.subrange(b as int, e as int)) == last_seg(v@.subrange(b as int, s as int))
                + v@.subrange(s as int, e as int),
        decreases s,
    {
        assert(v@.subrange(b as int, s as int).drop_last() =~= v@.subrange(b as int, s - 1 as int));
        assert(v@.subrange(s - 1 as int, e as int) =~= seq![v@[s - 1]] + v@.subrange(
            s as int,
            e as int,
        ));
        assert(last_seg(v@.subrange(b as int, s - 1 as int)).push(v@[s - 1]) + v@.subrange(
            s as int,
            e as int,
        ) =~= last_seg(v@.subrange(b as int, s - 1 as int)) + v@.subrange(s - 1 as int, e as int));
        s = s - 1;
    }
    assert(last_seg(v@.subrange(b as int, s as int)) =~= Seq::<char>::empty());
    assert(Seq::<char>::empty() + v@.subrange(s as int, e as int) =~= v@.subrange(s as int, e as int));
    slice_vec(v, s, e)
}

/// The generic tags of a session (see [`meta_tags_spec`]).
pub fn session_meta_tags(metadata: &Json, message_count: usize) -> (r: Vec<String>)
    ensures
        r@.map_values(|s: String| s@) == meta_tags_spec(*metadata, message_count as nat),
{
    let mut tags: Vec<String> = Vec::new();
    match metadata.get_str("workdir") {
        Some(wd) => {
            let v = chars_of(wd.as_str());
            let (b, e) = trim_indices(&v, 0, v.len());
            assert(v@.subrange(0, v@.len() as int) =~= v@);
            if b < e {
                let base = workdir_tag_of(&v);
                if base.len() > 0 {
                    tags.push(string_of(base.as_slice()));
                }
            }
        },
        None => {},
    }
    let mut c: Vec<char> = Vec::new();
    push_decimal(&mut c, message_count as u64);
    push_str_chars(&mut c, " 条");
    tags.push(string_of(c.as_slice()));
    assert(tags@.map_values(|s: String| s@) =~= meta_tags_spec(*metadata, message_count as nat));
    tags
}

/// Session data.
#[derive(Debug)]
pub struct Session {
    pub id: String,
    pub messages: Vec<ChatMessage>,
    /// Milliseconds since the epoch.
    pub created_at: i64,
    pub updated_at: i64,
    pub metadata: Json,
}

/// The title shown when nothing else names a session.
pub const DEFAULT_TITLE: &'static str = "新对话";

/// The display name: a non-blank `metadata.title`, else the derived title,
/// else the default title.
pub open spec fn display_title_spec(s: Session) -> Seq<char> {
    match Json::str_of(s.metadata.field("title"@)) {
        Some(t) => if trim(t).len() > 0 {
            t
        } else {
            match title_from(s.messages@) {
                Some(x) => x,
                None => DEFAULT_TITLE@,
            }
        },
        None => match title_from(s.messages@) {
            Some(x) => x,
            None => DEFAULT_TITLE@,
        },
    }
}

/// Collapsing whitespace keeps a leading non-space character in front.
proof fn lemma_squash_keeps_first(s: Seq<char>)
    requires
        s.len() > 0,
        !is_ws(s[0]),
    ensures
        squash(s).len() > 0,
        squash(s)[0] == s[0],
    decreases s.len(),
{
    let o = squash(s.drop_last());
    if s.len() > 1 {
        lemma_squash_keeps_first(s.drop_last());
        assert(s.drop_last()[0] == s[0]);
        assert(o.len() > 0 && o[0] == s[0]);
        if is_ws(s.last()) {
            if !(o.len() > 0 && o.last() == ' ') {
                assert(o.push(' ')[0] == o[0]);
            }
        } else {
            assert(o.push(s.last())[0] == o[0]);
        }
    } else {
        assert(s.drop_last().len() == 0);
        assert(o.len() == 0);
        assert(o.push(s.last())[0] == s[0]);
    }
}

/// Trailing whitespace never takes away a leading non-space character.
proof fn lemma_trim_end_keeps_first(t: Seq<char>)
    requires
        t.len() > 0,
        !is_ws(t[0]),
    ensures
        trim_end(t).len() > 0,
{
    lemma_trim_end_is_prefix(t);
    if trim_end(t).len() == 0 {
        assert(is_ws(t[0]));
    }
}

/// Trimming never lengthens.
proof fn lemma_trim_shorter(t: Seq<char>)
    ensures
        trim(t).len() <= t.len(),
        trim(t).len() > 0 ==> !is_ws(trim(t)[0]),
{
    lemma_trim_end_is_prefix(t);
    lemma_trim_start_is_suffix(trim_end(t));
}

/// The first non-blank line starts with a non-space character.
proof fn lemma_first_nonblank_starts(ls: Seq<Seq<char>>)
    ensures
        first_nonblank(ls) matches Some(t) ==> t.len() > 0 && !is_ws(t[0]),
    decreases ls.len(),
{
    if ls.len() > 0 {
        if trim(ls[0]).len() > 0 {
            lemma_trim_shorter(ls[0]);
        } else {
            lemma_first_nonblank_starts(ls.skip(1));
        }
    }
}

/// A derived title is never empty.
proof fn lemma_title_from_nonempty(ms: Seq<ChatMessage>)
    ensures
        title_from(ms) matches Some(x) ==> x.len() > 0,
    decreases ms.len(),
{
    if ms.len() > 0 {
        if ms[0].role == Some(MessageRole::User) && ms[0].content is Some {
            let ls = lines(title_text(ms[0].content->0));
            lemma_first_nonblank_starts(ls);
            if first_nonblank(ls) is None {
                lemma_title_from_nonempty(ms.skip(1));
            }
            if let Some(l) = first_nonblank(ls) {
                if l.len() > SESSION_TITLE_MAX_CHARS {
                    let h = l.take(SESSION_TITLE_MAX_CHARS as int);
                    assert(h[0] == l[0]);
                    lemma_squash_keeps_first(h);
                    lemma_trim_end_keeps_first(squash(h));
                } else {
                    lemma_squash_keeps_first(l);
                    lemma_trim_end_keeps_first(squash(l));
                }
            }
        } else {
            lemma_title_from_nonempty(ms.skip(1));
        }
    }
}

/// Every session has a non-empty display name, so its stored projection
/// always carries a title.
pub proof fn lemma_display_title_nonempty(s: Session)
    ensures
        display_title_spec(s).len() > 0,
{
    lemma_title_from_nonempty(s.messages@);
    reveal_strlit("新对话");
    match Json::str_of(s.metadata.field("title"@)) {
        Some(t) => {
            lemma_trim_shorter(t);
        },
        None => {},
    }
}

/// The parent session: `metadata.parent_session_id`, trimmed, unless it is
/// blank or the session itself.
pub open spec fn parent_spec(s: Session) -> Option<Seq<char>> {
    match Json::str_of(s.metadata.field("parent_session_id"@)) {
        Some(p) => if trim(p).len() > 0 && trim(p) != s.id@ {
            Some(trim(p))
        } else {
            None
        },
        None => None,
    }
}

/// The first instant the `time` crate represents (`UtcDateTime::MIN`,
/// -9999-01-01 00:00 UTC), in nanoseconds since the Unix epoch.
pub const UTC_MIN_NANOS: i128 = -377_705_116_800_000_000_000;

/// The last instant the `time` crate represents (`UtcDateTime::MAX`,
/// 9999-12-31 23:59:59.999999999 UTC), in nanoseconds since the Unix epoch.
pub const UTC_MAX_NANOS: i128 = 253_402_300_799_999_999_999;

/// `OffsetDateTime::now_utc`, the current time, read as nanoseconds since
/// the Unix epoch (`unix_timestamp_nanos`). `now_utc` builds its value from
/// the system clock by `OffsetDateTime`'s checked arithmetic, which panics
/// outside the crate's range, so a value that comes back lies in
/// `UTC_MIN_NANOS..=UTC_MAX_NANOS`; which instant it is depends on the clock
/// and is not claimed.
#[verifier::external_body]
pub(crate) fn now_utc_nanos() -> (n: i128)
    ensures
        UTC_MIN_NANOS <= n <= UTC_MAX_NANOS,
{
    time::OffsetDateTime::now_utc().unix_timestamp_nanos()
}

impl Session {
    /// A new empty session `id`, created and updated now, with `{}` as
    /// metadata.
    pub fn new(id: String) -> (s: Self)
        ensures
            s.id == id,
            s.messages@.len() == 0,
            s.created_at == s.updated_at,
            s.metadata == Json::Obj(crate::json::JsonMap::Nil),
    {
        let nanos = now_utc_nanos();
        let now = (nanos / 1_000_000) as i64;
        Session {
            id,
            messages: Vec::new(),
            created_at: now,
            updated_at: now,
            metadata: Json::empty_object(),
        }
    }

    /// The display name (see [`display_title_spec`]).
    pub fn display_title(&self) -> (r: String)
        ensures
            r@ == display_title_spec(*self),
    {
        match self.metadata.get_str("title") {
            Some(t) => {
                let v = chars_of(t.as_str());
                let (b, e) = trim_indices(&v, 0, v.len());
                assert(v@.subrange(0, v@.len() as int) =~= v@);
                if b < e {
                    return t.clone();
                }
            },
            None => {},
        }
        match derive_session_title(&self.messages) {
            Some(x) => x,
            None => string_of(chars_of(DEFAULT_TITLE).as_slice()),
        }
    }

    /// The parent session id (see [`parent_spec`]).
    pub fn parent_session_id(&self) -> (r: Option<String>)
        ensures
            match r {
                Some(p) => parent_spec(*self) == Some(p@),
                None => parent_spec(*self) is None,
            },
    {
        match self.metadata.get_str("parent_session_id") {
            Some(p) => {
                let v = chars_of(p.as_str());
                let (b, e) = trim_indices(&v, 0, v.len());
                assert(v@.subrange(0, v@.len() as int) =~= v@);
                let t = slice_vec(&v, b, e);
                let tid = string_of(t.as_slice());
                if b < e && !crate::json::str_eq(tid.as_str(), self.id.as_str()) {
                    Some(tid)
                } else {
                    None
                }
            },
            None => None,
        }
    }

    /// A copy of this session.
    pub fn copy(&self) -> (r: Self)
        ensures
            r.id == self.id,
            r.messages@ == self.messages@,
            r.created_at == self.created_at,
            r.updated_at == self.updated_at,
            r.metadata == self.metadata,
    {
        Session {
            id: self.id.clone(),
            messages: copy_messages(&self.messages),
            created_at: self.created_at,
            updated_at: self.updated_at,
            metadata: self.metadata.copy(),
        }
    }
}

/// The metadata after the `metadata` field of a write: an object merges
/// key by key into an object metadata (keys it does not name stay); any
/// other value, or a metadata that is not an object, is replaced wholesale;
/// no such field leaves the metadata as it is.
pub open spec fn merged_meta(meta: Json, body: Json) -> Json {
    match body.field("metadata"@) {
        Some(inc) => match (meta, inc) {
            (Json::Obj(a), Json::Obj(b)) => Json::Obj(merge_into(a, b)),
            _ => inc,
        },
        None => meta,
    }
}

/// `out` is `meta` with the string `title` written into it, when there is
/// one and `meta` is an object; otherwise `meta` itself.
pub open spec fn titled(meta: Json, title: Option<Seq<char>>, out: Json) -> bool {
    match (title, meta) {
        (Some(t), Json::Obj(m)) => out matches Json::Obj(o) && Json::str_of(o.lookup("title"@))
            == Some(t) && forall|q: Seq<char>| q != "title"@ ==> #[trigger] o.lookup(q) == m.lookup(
            q,
        ),
        _ => out == meta,
    }
}

/// A metadata write is shallow: with an object metadata and an object
/// `metadata` field, every key other than the title takes the value the
/// field gives it last, and keeps its value when the field does not name
/// it.
pub proof fn lemma_metadata_write_is_shallow(meta: JsonMap, body: Json, out: Json, q: Seq<char>)
    requires
        body.field("metadata"@) matches Some(Json::Obj(_)),
        titled(merged_meta(Json::Obj(meta), body), Json::str_of(body.field("title"@)), out),
        q != "title"@,
    ensures
        out matches Json::Obj(o) && o.lookup(q) == (match last_lookup(
            body.field("metadata"@)->0->Obj_0,
            q,
        ) {
            Some(v) => Some(v),
            None => meta.lookup(q),
        }),
{
    lemma_merge_lookup(meta, body.field("metadata"@)->0->Obj_0, q);
}

/// A write naming neither `metadata` nor a string `title` leaves the
/// metadata as it was.
pub proof fn lemma_metadata_write_without_fields_is_noop(meta: Json, body: Json, out: Json)
    requires
        body.field("metadata"@) is None,
        Json::str_of(body.field("title"@)) is None,
        titled(merged_meta(meta, body), Json::str_of(body.field("title"@)), out),
    ensures
        out == meta,
{
}

impl Session {
    /// Writes the `metadata` and `title` fields of a write body into the
    /// metadata: the metadata shallowly (see [`merged_meta`]), then a string
    /// `title` verbatim (an empty one too; a title of another type is not
    /// written). Nothing else changes.
    pub fn merge_metadata_object(&mut self, body: &Json)
        ensures
            titled(
                merged_meta(old(self).metadata, *body),
                Json::str_of(body.field("title"@)),
                final(self).metadata,
            ),
            final(self).id == old(self).id,
            final(self).messages == old(self).messages,
            final(self).created_at == old(self).created_at,
            final(self).updated_at == old(self).updated_at,
    {
        match body.get("metadata") {
            Some(inc) => {
                let mut cur = Json::Null;
                std::mem::swap(&mut cur, &mut self.metadata);
                self.metadata = match (cur, inc) {
                    (Json::Obj(a), Json::Obj(b)) => Json::Obj(merge_maps(a, b)),
                    (_, x) => x.copy(),
                };
            },
            None => {},
        }
        let ghost m1 = self.metadata;
        match body.get_str("title") {
            Some(t) => {
                let mut cur = Json::Null;
                std::mem::swap(&mut cur, &mut self.metadata);
                match cur {
                    Json::Obj(m) => {
                        let mut m = m;
                        let ghost m0 = m;
                        let k = string_of(chars_of("title").as_slice());
                        let v = Json::Str(t.clone());
                        m.insert(k, v);
                        proof {
                            lemma_lookup_inserted(m0, k, v, "title"@);
                            assert forall|q: Seq<char>| q != "title"@ implies #[trigger] m.lookup(q)
                                == m0.lookup(q) by {
                                lemma_lookup_inserted(m0, k, v, q);
                            }
                        }
                        self.metadata = Json::Obj(m);
                    },
                    other => {
                        self.metadata = other;
                    },
                }
            },
            None => {},
        }
    }
}

/// A session list item: the projection of a session without its messages.
#[derive(Debug)]
pub struct SessionSummary {
    pub id: String,
    /// The display title when saved.
    pub title: String,
    pub created_at: i64,
    pub updated_at: i64,
    pub metadata: Json,
    pub message_count: usize,
    pub summary: Option<String>,
    pub meta_tags: Vec<String>,
}

impl SessionSummary {
    /// The list projection of a session (the only place it is computed).
    pub fn of(s: &Session) -> (r: Self)
        ensures
            r.id == s.id,
            r.title@ == display_title_spec(*s),
            r.created_at == s.created_at,
            r.updated_at == s.updated_at,
            r.metadata == s.metadata,
            r.message_count == s.messages@.len(),
            match r.summary {
                Some(x) => summary_from(s.messages@) == Some(x@),
                None => summary_from(s.messages@) is None,
            },
            r.meta_tags@.map_values(|t: String| t@) == meta_tags_spec(
                s.metadata,
                s.messages@.len(),
            ),
    {
        SessionSummary {
            id: s.id.clone(),
            title: s.display_title(),
            created_at: s.created_at,
            updated_at: s.updated_at,
            metadata: s.metadata.copy(),
            message_count: s.messages.len(),
            summary: derive_session_summary(&s.messages),
            meta_tags: session_meta_tags(&s.metadata, s.messages.len()),
        }
    }
}

/// The heartbeat task of a session: after the session has been idle for
/// `interval_seconds`, `prompt` is sent as a user message.
pub struct HeartbeatConfig {
    pub enabled: bool,
    pub interval_seconds: u64,
    pub prompt: String,
    /// Whether the heartbeat turn sees the session history.
    pub include_history: bool,
}

/// Default heartbeat interval: five minutes.
pub fn default_heartbeat_interval() -> (r: u64)
    ensures
        r == 300,
{
    300
}

/// Heartbeat turns see the history by default.
pub fn default_heartbeat_include_history() -> (r: bool)
    ensures
        r == true,
{
    true
}

impl Default for HeartbeatConfig {
    fn default() -> (c: Self)
        ensures
            c.enabled == false,
            c.interval_seconds == 300,
            c.prompt@ == Seq::<char>::empty(),
            c.include_history == true,
    {
        HeartbeatConfig {
            enabled: false,
            interval_seconds: default_heartbeat_interval(),
            prompt: String::new(),
            include_history: default_heartbeat_include_history(),
        }
    }
}

impl HeartbeatConfig {
    /// Reads the configuration from `metadata.heartbeat`; a missing or
    /// non-object value gives the default (disabled) configuration, and
    /// each missing field its default.
    pub fn from_metadata(metadata: &Json) -> (c: Self)
        ensures
            match metadata.field("heartbeat"@) {
                Some(Json::Obj(m)) => {
                    let h = Json::Obj(m);
                    &&& c.enabled == (match Json::bool_of(h.field("enabled"@)) {
                        Some(b) => b,
                        None => false,
                    })
                    &&& c.interval_seconds == (match Json::u64_of(h.field("interval_seconds"@)) {
                        Some(n) => n,
                        None => 300,
                    })
                    &&& c.prompt@ == (match Json::str_of(h.field("prompt"@)) {
                        Some(p) => p,
                        None => Seq::<char>::empty(),
                    })
                    &&& c.include_history == (match Json::bool_of(h.field("include_history"@)) {
                        Some(b) => b,
                        None => true,
                    })
                },
                _ => c.enabled == false && c.interval_seconds == 300 && c.prompt@
                    == Seq::<char>::empty() && c.include_history == true,
            },
    {
        match metadata.get("heartbeat") {
            Some(h) => match h {
                Json::Obj(_) => {
                    let enabled = match h.get_bool("enabled") {
                        Some(b) => b,
                        None => false,
                    };
                    let interval_seconds = match h.get_u64("interval_seconds") {
                        Some(n) => n,
                        None => default_heartbeat_interval(),
                    };
                    let prompt = match h.get_str("prompt") {
                        Some(p) => p.clone(),
                        None => String::new(),
                    };
                    let include_history = match h.get_bool("include_history") {
                        Some(b) => b,
                        None => default_heartbeat_include_history(),
                    };
                    HeartbeatConfig { enabled, interval_seconds, prompt, include_history }
                },
                _ => HeartbeatConfig::default(),
            },
            None => HeartbeatConfig::default(),
        }
    }
}

} // verus!
