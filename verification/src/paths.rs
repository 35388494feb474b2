//! Path derivation of the session storage: session id to directory name,
//! and the fixed sub-directories inside a session directory.
//!
//! Every component that writes into a session directory derives its path
//! here, so one id always maps to one directory.
use vstd::prelude::*;
use crate::text::{chars_of, push_str_chars, string_of};

verus! {

/// Sub-directory of a session holding full tool outputs.
pub const TOOL_ARCHIVES_SUBDIR: &'static str = "tool_archives";

/// Sub-directory of a session holding transcripts saved before compaction.
pub const TRANSCRIPTS_SUBDIR: &'static str = "transcripts";

/// The retrieval instruction every archive placeholder carries.
pub const RETRIEVAL_HINT: &'static str = "（取回：vdfs_read 该路径，按 offset/limit 分段读取）";

/// The directory name an empty id maps to.
pub const EMPTY_SEGMENT: &'static str = "_empty_";

/// Characters that cannot stand in a directory name: path separators, the
/// drive colon, the other characters Windows refuses, and control
/// characters.
pub open spec fn unsafe_char(c: char) -> bool {
    ||| c == '/'
    ||| c == '\\'
    ||| c == ':'
    ||| c == '*'
    ||| c == '?'
    ||| c == '"'
    ||| c == '<'
    ||| c == '>'
    ||| c == '|'
    ||| (c as u32) < 0x20
    ||| (c as u32) == 0x7f
}

/// Each unsafe character replaced by `_`.
pub open spec fn replace_unsafe(s: Seq<char>) -> Seq<char> {
    s.map_values(|c: char| if unsafe_char(c) { '_' } else { c })
}

/// The directory name of a session id: unsafe characters become `_`, an
/// empty id becomes `_empty_`, and the special names `.` and `..` become
/// `_` and `__`.
pub open spec fn safe_id_spec(id: Seq<char>) -> Seq<char> {
    if id.len() == 0 {
        EMPTY_SEGMENT@
    } else if id == seq!['.'] {
        seq!['_']
    } else if id == seq!['.', '.'] {
        seq!['_', '_']
    } else {
        replace_unsafe(id)
    }
}

fn is_unsafe_char(c: char) -> (b: bool)
    ensures
        b == unsafe_char(c),
{
    let u = c as u32;
    c == '/' || c == '\\' || c == ':' || c == '*' || c == '?' || c == '"' || c == '<' || c == '>'
        || c == '|' || u < 0x20 || u == 0x7f
}

/// The directory name of a session id (see [`safe_id_spec`]).
pub fn safe_id(session_id: &str) -> (r: String)
    ensures
        r@ == safe_id_spec(session_id@),
{
    let v = chars_of(session_id);
    if v.len() == 0 {
        return string_of(chars_of(EMPTY_SEGMENT).as_slice());
    }
    if v.len() <= 2 && v[0] == '.' && v[v.len() - 1] == '.' {
        if v.len() == 1 {
            assert(v@ =~= seq!['.']);
            let out: Vec<char> = vec!['_'];
            assert(out@ =~= seq!['_']);
            return string_of(out.as_slice());
        } else {
            assert(v@ =~= seq!['.', '.']);
            let out: Vec<char> = vec!['_', '_'];
            assert(out@ =~= seq!['_', '_']);
            return string_of(out.as_slice());
        }
    }
    let mut out: Vec<char> = Vec::new();
    let mut i: usize = 0;
    while i < v.len()
        invariant
            i <= v.len(),
            out@ == replace_unsafe(v@.take(i as int)),
        decreases v.len() - i,
    {
        let c = v[i];
        if is_unsafe_char(c) {
            out.push('_');
        } else {
            out.push(c);
        }
        assert(replace_unsafe(v@.take(i + 1 as int)) =~= replace_unsafe(v@.take(i as int)).push(
            out@.last(),
        ));
        i = i + 1;
    }
    assert(v@.take(v.len() as int) =~= v@);
    proof {
        if v@ == seq!['.'] {
            assert(v@.len() == 1);
        }
        if v@ == seq!['.', '.'] {
            assert(v@[0] == '.' && v@[1] == '.');
        }
    }
    string_of(out.as_slice())
}

/// `<storage>/<safe_id>`.
pub open spec fn session_dir_spec(storage: Seq<char>, session_id: Seq<char>) -> Seq<char> {
    storage + "/"@ + safe_id_spec(session_id)
}

/// The directory of a session under the plugin's storage directory.
pub fn session_dir(storage_dir: &str, session_id: &str) -> (r: String)
    ensures
        r@ == session_dir_spec(storage_dir@, session_id@),
{
    let mut v: Vec<char> = Vec::new();
    push_str_chars(&mut v, storage_dir);
    push_str_chars(&mut v, "/");
    let id = safe_id(session_id);
    push_str_chars(&mut v, id.as_str());
    assert(v@ =~= session_dir_spec(storage_dir@, session_id@));
    string_of(v.as_slice())
}

/// A fixed sub-directory of a session: `<storage>/<safe_id>/<subdir>`.
pub fn session_subdir(storage_dir: &str, session_id: &str, subdir: &str) -> (r: String)
    ensures
        r@ == session_dir_spec(storage_dir@, session_id@) + "/"@ + subdir@,
{
    let d = session_dir(storage_dir, session_id);
    let mut v: Vec<char> = chars_of(d.as_str());
    push_str_chars(&mut v, "/");
    push_str_chars(&mut v, subdir);
    string_of(v.as_slice())
}

} // verus!
