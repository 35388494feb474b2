//! A JSON value as plain data: session metadata, message `meta` and tool
//! payloads are free-form JSON, and the logic here reads fields out of them.
//!
//! Arrays and objects are linked lists so that a copy is equal to its source
//! as a value. An object maps each key to the value of its **first** entry
//! (objects built by the library never hold a key twice).
use vstd::prelude::*;
use crate::text::chars_of;

verus! {

/// A JSON number.
#[derive(Debug)]
pub enum JsonNumber {
    /// A non-negative integer.
    PosInt(u64),
    /// A negative integer.
    NegInt(i64),
    /// Any other number, as its decimal text.
    Float(String),
}

/// A JSON value.
#[derive(Debug)]
pub enum Json {
    Null,
    Bool(bool),
    Num(JsonNumber),
    Str(String),
    Arr(JsonList),
    Obj(JsonMap),
}

/// The items of a JSON array, in order.
#[derive(Debug)]
pub enum JsonList {
    Nil,
    Cons(Box<Json>, Box<JsonList>),
}

/// The entries of a JSON object, in order.
#[derive(Debug)]
pub enum JsonMap {
    Nil,
    Entry(String, Box<Json>, Box<JsonMap>),
}

impl JsonNumber {
    pub fn copy(&self) -> (r: Self)
        ensures
            r == *self,
    {
        match self {
            JsonNumber::PosInt(u) => JsonNumber::PosInt(*u),
            JsonNumber::NegInt(i) => JsonNumber::NegInt(*i),
            JsonNumber::Float(s) => JsonNumber::Float(s.clone()),
        }
    }
}

impl Json {
    /// A value equal to this one.
    pub fn copy(&self) -> (r: Self)
        ensures
            r == *self,
        decreases self,
    {
        match self {
            Json::Null => Json::Null,
            Json::Bool(b) => Json::Bool(*b),
            Json::Num(n) => Json::Num(n.copy()),
            Json::Str(s) => Json::Str(s.clone()),
            Json::Arr(items) => Json::Arr(items.copy()),
            Json::Obj(entries) => Json::Obj(entries.copy()),
        }
    }
}

impl JsonList {
    pub fn copy(&self) -> (r: Self)
        ensures
            r == *self,
        decreases self,
    {
        match self {
            JsonList::Nil => JsonList::Nil,
            JsonList::Cons(h, t) => JsonList::Cons(Box::new((**h).copy()), Box::new((**t).copy())),
        }
    }
}

impl JsonMap {
    pub fn copy(&self) -> (r: Self)
        ensures
            r == *self,
        decreases self,
    {
        match self {
            JsonMap::Nil => JsonMap::Nil,
            JsonMap::Entry(k, v, rest) => JsonMap::Entry(
                k.clone(),
                Box::new((**v).copy()),
                Box::new((**rest).copy()),
            ),
        }
    }

    /// The value of the first entry named `key`.
    pub open spec fn lookup(self, key: Seq<char>) -> Option<Json>
        decreases self,
    {
        match self {
            JsonMap::Nil => None,
            JsonMap::Entry(k, v, rest) => if k@ == key {
                Some(*v)
            } else {
                rest.lookup(key)
            },
        }
    }

    /// The entries in order, each key by its characters.
    pub open spec fn entries(self) -> Seq<(Seq<char>, Json)>
        decreases self,
    {
        match self {
            JsonMap::Nil => Seq::empty(),
            JsonMap::Entry(k, v, rest) => seq![(k@, *v)] + rest.entries(),
        }
    }

    /// Number of entries.
    pub open spec fn size(self) -> nat
        decreases self,
    {
        match self {
            JsonMap::Nil => 0,
            JsonMap::Entry(_, _, rest) => 1 + rest.size(),
        }
    }

    /// The map with `key` set to `v`: the first entry named `key` is
    /// overwritten in place; otherwise a new entry is appended.
    pub open spec fn inserted(self, key: String, v: Json) -> JsonMap
        decreases self,
    {
        match self {
            JsonMap::Nil => JsonMap::Entry(key, Box::new(v), Box::new(JsonMap::Nil)),
            JsonMap::Entry(k, old, rest) => if k@ == key@ {
                JsonMap::Entry(k, Box::new(v), rest)
            } else {
                JsonMap::Entry(k, old, Box::new(rest.inserted(key, v)))
            },
        }
    }

    /// `map.get(key)`.
    pub fn get(&self, key: &str) -> (r: Option<&Json>)
        ensures
            match r {
                Some(v) => self.lookup(key@) == Some(*v),
                None => self.lookup(key@) is None,
            },
        decreases self,
    {
        match self {
            JsonMap::Nil => None,
            JsonMap::Entry(k, v, rest) => {
                if str_eq(k.as_str(), key) {
                    Some(&**v)
                } else {
                    rest.get(key)
                }
            },
        }
    }

    /// `map.insert(key, v)`.
    pub fn insert(&mut self, key: String, v: Json)
        ensures
            *final(self) == old(self).inserted(key, v),
        decreases old(self),
    {
        let mut cur = JsonMap::Nil;
        std::mem::swap(&mut cur, self);
        *self = Self::insert_into(cur, key, v);
    }

    fn insert_into(m: JsonMap, key: String, v: Json) -> (r: JsonMap)
        ensures
            r == m.inserted(key, v),
        decreases m,
    {
        match m {
            JsonMap::Nil => JsonMap::Entry(key, Box::new(v), Box::new(JsonMap::Nil)),
            JsonMap::Entry(k, old, rest) => {
                if str_eq(k.as_str(), key.as_str()) {
                    JsonMap::Entry(k, Box::new(v), rest)
                } else {
                    let r = Self::insert_into(*rest, key, v);
                    JsonMap::Entry(k, old, Box::new(r))
                }
            },
        }
    }
}

/// Looking a key up after an insertion sees the inserted value for that
/// key and the earlier value for every other key.
pub proof fn lemma_lookup_inserted(m: JsonMap, key: String, v: Json, q: Seq<char>)
    ensures
        m.inserted(key, v).lookup(q) == (if key@ == q {
            Some(v)
        } else {
            m.lookup(q)
        }),
    decreases m,
{
    match m {
        JsonMap::Nil => {},
        JsonMap::Entry(k, old, rest) => {
            if k@ != key@ {
                lemma_lookup_inserted(*rest, key, v, q);
            }
        },
    }
}

/// `m` with every entry of `extra` set, in order.
pub open spec fn merge_into(m: JsonMap, extra: JsonMap) -> JsonMap
    decreases extra,
{
    match extra {
        JsonMap::Nil => m,
        JsonMap::Entry(k, v, rest) => merge_into(m.inserted(k, *v), *rest),
    }
}

/// `m` with every entry of `extra` set, in order (see [`merge_into`]).
pub fn merge_maps(m: JsonMap, extra: &JsonMap) -> (r: JsonMap)
    ensures
        r == merge_into(m, *extra),
    decreases extra,
{
    match extra {
        JsonMap::Nil => m,
        JsonMap::Entry(k, v, rest) => {
            let mut m = m;
            m.insert(k.clone(), (**v).copy());
            merge_maps(m, rest)
        },
    }
}

/// The value of the last entry named `q`.
pub open spec fn last_lookup(e: JsonMap, q: Seq<char>) -> Option<Json>
    decreases e,
{
    match e {
        JsonMap::Nil => None,
        JsonMap::Entry(k, v, rest) => match last_lookup(*rest, q) {
            Some(x) => Some(x),
            None => if k@ == q {
                Some(*v)
            } else {
                None
            },
        },
    }
}

/// A key of the merged map takes the last value `extra` gives it, or
/// keeps the value of `m`.
pub proof fn lemma_merge_lookup(m: JsonMap, extra: JsonMap, q: Seq<char>)
    ensures
        merge_into(m, extra).lookup(q) == (match last_lookup(extra, q) {
            Some(v) => Some(v),
            None => m.lookup(q),
        }),
    decreases extra,
{
    match extra {
        JsonMap::Nil => {},
        JsonMap::Entry(k, v, rest) => {
            lemma_merge_lookup(m.inserted(k, *v), *rest, q);
            lemma_lookup_inserted(m, k, *v, q);
        },
    }
}

/// A JSON array of strings.
pub open spec fn string_list(ss: Seq<String>) -> JsonList
    decreases ss.len(),
{
    if ss.len() == 0 {
        JsonList::Nil
    } else {
        JsonList::Cons(Box::new(Json::Str(ss[0])), Box::new(string_list(ss.drop_first())))
    }
}

/// The strings as a JSON array, in order.
pub fn strings_to_json(ss: &Vec<String>) -> (r: Json)
    ensures
        r == Json::Arr(string_list(ss@)),
{
    let mut l = JsonList::Nil;
    let mut i = ss.len();
    assert(ss@.skip(i as int) =~= Seq::<String>::empty());
    while i > 0
        invariant
            i <= ss@.len(),
            l == string_list(ss@.skip(i as int)),
        decreases i,
    {
        assert(ss@.skip(i - 1 as int).drop_first() =~= ss@.skip(i as int));
        l = JsonList::Cons(Box::new(Json::Str(ss[i - 1].clone())), Box::new(l));
        i = i - 1;
    }
    assert(ss@.skip(0) =~= ss@);
    Json::Arr(l)
}

impl Json {
    /// `value.get(key)`: the field of an object; `None` for a missing field
    /// or a value that is not an object.
    pub open spec fn field(self, key: Seq<char>) -> Option<Json> {
        match self {
            Json::Obj(m) => m.lookup(key),
            _ => None,
        }
    }

    /// The characters of a string value.
    pub open spec fn str_of(v: Option<Json>) -> Option<Seq<char>> {
        match v {
            Some(Json::Str(s)) => Some(s@),
            _ => None,
        }
    }

    /// The value of a boolean value.
    pub open spec fn bool_of(v: Option<Json>) -> Option<bool> {
        match v {
            Some(Json::Bool(b)) => Some(b),
            _ => None,
        }
    }

    /// The value of a non-negative integer (`as_u64`).
    pub open spec fn u64_of(v: Option<Json>) -> Option<u64> {
        match v {
            Some(Json::Num(JsonNumber::PosInt(u))) => Some(u),
            _ => None,
        }
    }

    /// `{}`.
    pub fn empty_object() -> (r: Json)
        ensures
            r == Json::Obj(JsonMap::Nil),
    {
        Json::Obj(JsonMap::Nil)
    }

    /// `value.get(key)`.
    pub fn get(&self, key: &str) -> (r: Option<&Json>)
        ensures
            match r {
                Some(v) => self.field(key@) == Some(*v),
                None => self.field(key@) is None,
            },
    {
        match self {
            Json::Obj(m) => m.get(key),
            _ => None,
        }
    }

    /// `value.get(key).and_then(|v| v.as_str())`.
    pub fn get_str(&self, key: &str) -> (r: Option<&String>)
        ensures
            match r {
                Some(s) => Json::str_of(self.field(key@)) == Some(s@),
                None => Json::str_of(self.field(key@)) is None,
            },
    {
        match self.get(key) {
            Some(Json::Str(s)) => Some(s),
            _ => None,
        }
    }

    /// `value.get(key).and_then(|v| v.as_bool())`.
    pub fn get_bool(&self, key: &str) -> (r: Option<bool>)
        ensures
            r == Json::bool_of(self.field(key@)),
    {
        match self.get(key) {
            Some(Json::Bool(b)) => Some(*b),
            _ => None,
        }
    }

    /// `value.get(key).and_then(|v| v.as_u64())`.
    pub fn get_u64(&self, key: &str) -> (r: Option<u64>)
        ensures
            r == Json::u64_of(self.field(key@)),
    {
        match self.get(key) {
            Some(Json::Num(JsonNumber::PosInt(u))) => Some(*u),
            _ => None,
        }
    }
}

/// String equality by content.
pub fn str_eq(a: &str, b: &str) -> (r: bool)
    ensures
        r == (a@ == b@),
{
    let va = chars_of(a);
    let vb = chars_of(b);
    if va.len() != vb.len() {
        assert(va@.len() != vb@.len());
        return false;
    }
    let mut i: usize = 0;
    while i < va.len()
        invariant
            va.len() == vb.len(),
            va@ == a@,
            vb@ == b@,
            i <= va.len(),
            forall|j: int| 0 <= j < i ==> va@[j] == vb@[j],
        decreases va.len() - i,
    {
        if va[i] != vb[i] {
            assert(va@[i as int] != vb@[i as int]);
            return false;
        }
        i = i + 1;
    }
    assert(va@ =~= vb@);
    true
}

} // verus!
