//! Writing a session leaf: a write creates the session (when asked to and
//! it does not exist) or merges the body's `metadata` / `title` into it.
//! The id of a named target is the last segment of its address; a write
//! to the mount root creates a session with a generated id.
use vstd::prelude::*;
use crate::entry::PluginError;
use crate::json::{Json, JsonMap, last_lookup, lemma_lookup_inserted, lemma_merge_lookup, merge_maps};
use crate::nodes::{new_path_id, session_id_from_new_path};
use crate::text::{chars_of, slice_vec, string_of, trim, trim_indices};
use crate::transcript::opt_view;

verus! {

/// What a session write does.
#[derive(Debug)]
pub enum UpsertPlan {
    /// Create a session with this metadata; `id` is `None` for a write to
    /// the mount root (a fresh id is generated and handed back).
    Create { id: Option<String>, metadata: Json },
    /// Merge the body into the existing session `id` (see
    /// [`crate::types::Session::merge_metadata_object`]).
    Merge { id: String },
}

/// The refusal of a body that is not a JSON object.
pub const NOT_OBJECT_TEXT: &'static str = "会话写入需要 JSON 对象";

/// The refusal of an overwrite without a writable field.
pub const NO_FIELDS_TEXT: &'static str = "会话写入支持 metadata / title 字段；消息请走聊天协议";

/// The refusal of an overwrite of the mount root.
pub const ROOT_NEEDS_CREATE_TEXT: &'static str = "写会话挂载根需要 create 意图：目录自身没有可覆盖的目标";

/// The origin recorded on a session created by a write.
pub const CREATED_VIA_VDFS: &'static str = "vdfs";

/// The value the body's `metadata` object gives key `q` (its last entry
/// named `q`); nothing when the body has no metadata object.
pub open spec fn given_meta(body: Json, q: Seq<char>) -> Option<Json> {
    match body.field("metadata"@) {
        Some(Json::Obj(b)) => last_lookup(b, q),
        _ => None,
    }
}

/// The explicit title of a body: its string `title`, trimmed, when not
/// blank.
pub open spec fn given_title(body: Json) -> Option<Seq<char>> {
    match Json::str_of(body.field("title"@)) {
        Some(t) => if trim(t).len() > 0 {
            Some(trim(t))
        } else {
            None
        },
        None => None,
    }
}

/// The metadata of a session created by a write: the body's metadata
/// object key by key, the explicit title over its `title`, and
/// `created_via = vdfs` unless the metadata names an origin.
pub open spec fn initial_meta_ok(body: Json, out: Json) -> bool {
    out matches Json::Obj(o) && {
        &&& forall|q: Seq<char>|
            q != "title"@ && q != "created_via"@ ==> #[trigger] o.lookup(q) == given_meta(body, q)
        &&& match given_title(body) {
            Some(t) => Json::str_of(o.lookup("title"@)) == Some(t),
            None => o.lookup("title"@) == given_meta(body, "title"@),
        }
        &&& if given_meta(body, "created_via"@) is Some {
            o.lookup("created_via"@) == given_meta(body, "created_via"@)
        } else {
            Json::str_of(o.lookup("created_via"@)) == Some(CREATED_VIA_VDFS@)
        }
    }
}

fn key(s: &str) -> (k: String)
    ensures
        k@ == s@,
{
    string_of(chars_of(s).as_slice())
}

/// The metadata of a session created by the write `body` (see
/// [`initial_meta_ok`]).
pub fn initial_metadata(body: &Json) -> (r: Json)
    ensures
        initial_meta_ok(*body, r),
{
    let mut m = match body.get("metadata") {
        Some(Json::Obj(b)) => merge_maps(JsonMap::Nil, b),
        _ => JsonMap::Nil,
    };
    proof {
        assert forall|q: Seq<char>| #[trigger] m.lookup(q) == given_meta(*body, q) by {
            match body.field("metadata"@) {
                Some(Json::Obj(b)) => lemma_merge_lookup(JsonMap::Nil, b, q),
                _ => {},
            }
        }
    }
    let ghost m0 = m;
    match body.get_str("title") {
        Some(t) => {
            let v = chars_of(t.as_str());
            let (b, e) = trim_indices(&v, 0, v.len());
            assert(v@.subrange(0, v@.len() as int) =~= v@);
            if b < e {
                let k = key("title");
                let val = Json::Str(string_of(slice_vec(&v, b, e).as_slice()));
                m.insert(k, val);
                proof {
                    assert forall|q: Seq<char>| #[trigger] m.lookup(q) == (if q == "title"@ {
                        Some(val)
                    } else {
                        m0.lookup(q)
                    }) by {
                        lemma_lookup_inserted(m0, k, val, q);
                    }
                }
            }
        },
        None => {},
    }
    let ghost m1 = m;
    proof {
        reveal_strlit("title");
        reveal_strlit("created_via");
        assert("title"@.len() == 5);
        assert("created_via"@.len() == 11);
        assert(m1.lookup("created_via"@) == m0.lookup("created_via"@));
    }
    if m.get("created_via").is_none() {
        let k = key("created_via");
        let val = Json::Str(key(CREATED_VIA_VDFS));
        m.insert(k, val);
        proof {
            assert forall|q: Seq<char>| #[trigger] m.lookup(q) == (if q == "created_via"@ {
                Some(val)
            } else {
                m1.lookup(q)
            }) by {
                lemma_lookup_inserted(m1, k, val, q);
            }
        }
    }
    Json::Obj(m)
}

/// Whether the body has a field `k` (of any type).
pub open spec fn has_field(body: Json, k: Seq<char>) -> bool {
    body.field(k) is Some
}

/// How a write of `body` to the session address `path` is carried out.
/// `exists` tells whether the session the path names exists (it is not
/// read for the mount root). A body that is not an object is refused. A
/// write with the `create` intent to a target that does not exist creates
/// it: a named target under its name, the mount root under a fresh id.
/// Otherwise the write overwrites: it needs a `title` or `metadata` field
/// and a named target.
pub fn plan_session_upsert(path: &str, body: &Json, exists: bool, create: bool) -> (r: Result<
    UpsertPlan,
    PluginError,
>)
    ensures
        !(body is Obj) ==> (r matches Err(PluginError::ValidationError(t)) && t@
            == NOT_OBJECT_TEXT@),
        body is Obj && create && !(new_path_id(path@) is Some && exists) ==> (r matches Ok(
            UpsertPlan::Create { id, metadata },
        ) && opt_view(id) == new_path_id(path@) && initial_meta_ok(*body, metadata)),
        body is Obj && !(create && !(new_path_id(path@) is Some && exists)) ==> {
            if !has_field(*body, "title"@) && !has_field(*body, "metadata"@) {
                r matches Err(PluginError::ValidationError(t)) && t@ == NO_FIELDS_TEXT@
            } else if new_path_id(path@) is None {
                r matches Err(PluginError::ValidationError(t)) && t@ == ROOT_NEEDS_CREATE_TEXT@
            } else {
                r matches Ok(UpsertPlan::Merge { id }) && Some(id@) == new_path_id(path@)
            }
        },
{
    if !matches!(body, Json::Obj(_)) {
        return Err(PluginError::ValidationError(key(NOT_OBJECT_TEXT)));
    }
    let named = session_id_from_new_path(path);
    let existing = named.is_some() && exists;
    if !existing && create {
        return Ok(UpsertPlan::Create { id: named, metadata: initial_metadata(body) });
    }
    if body.get("title").is_none() && body.get("metadata").is_none() {
        return Err(PluginError::ValidationError(key(NO_FIELDS_TEXT)));
    }
    match named {
        Some(id) => Ok(UpsertPlan::Merge { id }),
        None => Err(PluginError::ValidationError(key(ROOT_NEEDS_CREATE_TEXT))),
    }
}

} // verus!
