//! A JSON document model: values as the library holds them, with a structural view.

use vstd::prelude::*;

verus! {

broadcast use vstd::std_specs::vec::group_vec_axioms;

/// A JSON number, kept as the reader produced it: a non-negative integer, a negative
/// integer, or the text of any other number.
#[derive(Clone, Debug)]
pub enum JsonNumber {
    PosInt(u64),
    NegInt(i64),
    Float(String),
}

/// A JSON value. An object holds its members in order; each key occurs once in
/// objects built by this library's constructors and by readers of JSON text.
#[derive(Debug)]
pub enum Json {
    Null,
    Bool(bool),
    Number(JsonNumber),
    Str(String),
    Array(Vec<Json>),
    Object(Vec<(String, Json)>),
}

/// The mathematical form of a JSON number.
pub enum NumberV {
    PosInt(u64),
    NegInt(i64),
    Float(Seq<char>),
}

/// The mathematical form of a JSON value.
pub enum JsonV {
    Null,
    Bool(bool),
    Number(NumberV),
    Str(Seq<char>),
    Array(Seq<JsonV>),
    Object(Seq<(Seq<char>, JsonV)>),
}

impl View for JsonNumber {
    type V = NumberV;

    open spec fn view(&self) -> NumberV {
        match self {
            JsonNumber::PosInt(n) => NumberV::PosInt(*n),
            JsonNumber::NegInt(n) => NumberV::NegInt(*n),
            JsonNumber::Float(t) => NumberV::Float(t@),
        }
    }
}

impl View for Json {
    type V = JsonV;

    open spec fn view(&self) -> JsonV
        decreases self,
    {
        match self {
            Json::Null => JsonV::Null,
            Json::Bool(b) => JsonV::Bool(*b),
            Json::Number(n) => JsonV::Number(n@),
            Json::Str(s) => JsonV::Str(s@),
            Json::Array(v) => JsonV::Array(items_view(v@)),
            Json::Object(m) => JsonV::Object(members_view(m@)),
        }
    }
}

/// The elements of an array, each taken by its view.
pub open spec fn items_view(v: Seq<Json>) -> Seq<JsonV>
    decreases v,
{
    if v.len() == 0 {
        Seq::empty()
    } else {
        items_view(v.drop_last()).push(v.last().view())
    }
}

/// The members of an object, each key and value taken by its view.
pub open spec fn members_view(m: Seq<(String, Json)>) -> Seq<(Seq<char>, JsonV)>
    decreases m,
{
    if m.len() == 0 {
        Seq::empty()
    } else {
        members_view(m.drop_last()).push((m.last().0@, m.last().1.view()))
    }
}

/// The view of an object's members, member by member.
pub broadcast proof fn lemma_members_view(m: Seq<(String, Json)>)
    ensures
        #[trigger] members_view(m).len() == m.len(),
        forall|i: int| 0 <= i < m.len() ==> #[trigger] members_view(m)[i] == (m[i].0@, m[i].1@),
    decreases m.len(),
{
    if m.len() > 0 {
        let d = m.drop_last();
        lemma_members_view(d);
        assert(members_view(m) == members_view(d).push((m.last().0@, m.last().1@)));
        assert(forall|i: int| 0 <= i < m.len() - 1 ==> d[i] == m[i]);
    }
}

/// The view of an array's items, item by item.
pub broadcast proof fn lemma_items_view(v: Seq<Json>)
    ensures
        #[trigger] items_view(v).len() == v.len(),
        forall|i: int| 0 <= i < v.len() ==> #[trigger] items_view(v)[i] == v[i]@,
    decreases v.len(),
{
    if v.len() > 0 {
        let d = v.drop_last();
        lemma_items_view(d);
        assert(items_view(v) == items_view(d).push(v.last()@));
        assert(forall|i: int| 0 <= i < v.len() - 1 ==> d[i] == v[i]);
    }
}

pub broadcast group group_json_view {
    lemma_members_view,
    lemma_items_view,
}

/// Position of the first member with key `k`, or -1 when there is none.
pub open spec fn key_pos(m: Seq<(Seq<char>, JsonV)>, k: Seq<char>) -> int
    decreases m.len(),
{
    if m.len() == 0 {
        -1
    } else {
        let p = key_pos(m.drop_last(), k);
        if p >= 0 {
            p
        } else if m.last().0 == k {
            m.len() - 1
        } else {
            -1
        }
    }
}

/// `key_pos` finds the first member with the key, or shows there is none.
pub proof fn lemma_key_pos(m: Seq<(Seq<char>, JsonV)>, k: Seq<char>)
    ensures
        -1 <= key_pos(m, k) < m.len(),
        key_pos(m, k) >= 0 ==> m[key_pos(m, k)].0 == k,
        forall|j: int| 0 <= j < key_pos(m, k) ==> m[j].0 != k,
        key_pos(m, k) < 0 ==> forall|j: int| 0 <= j < m.len() ==> m[j].0 != k,
    decreases m.len(),
{
    if m.len() > 0 {
        let d = m.drop_last();
        lemma_key_pos(d, k);
        assert(forall|j: int| 0 <= j < d.len() ==> d[j] == m[j]);
    }
}

/// `i` is the first position of key `k`.
pub proof fn lemma_key_pos_at(m: Seq<(Seq<char>, JsonV)>, k: Seq<char>, i: int)
    requires
        0 <= i < m.len(),
        m[i].0 == k,
        forall|j: int| 0 <= j < i ==> m[j].0 != k,
    ensures
        key_pos(m, k) == i,
{
    lemma_key_pos(m, k);
}

/// The value of member `k` of an object (absent for non-objects), as `serde_json`'s `get`.
pub open spec fn member(v: JsonV, k: Seq<char>) -> Option<JsonV> {
    match v {
        JsonV::Object(m) => if key_pos(m, k) >= 0 {
            Some(m[key_pos(m, k)].1)
        } else {
            None
        },
        _ => None,
    }
}

/// Position of the first member of `m` whose key is `key`.
pub fn find_member(m: &Vec<(String, Json)>, key: &str) -> (r: Option<usize>)
    ensures
        match r {
            Some(i) => i as int == key_pos(members_view(m@), key@) && i < m@.len(),
            None => key_pos(members_view(m@), key@) < 0,
        },
{
    let ghost mv = members_view(m@);
    proof {
        lemma_members_view(m@);
    }
    let mut i: usize = 0;
    while i < m.len()
        invariant
            i <= m@.len(),
            mv == members_view(m@),
            mv.len() == m@.len(),
            forall|j: int| 0 <= j < m@.len() ==> mv[j] == (m@[j].0@, m@[j].1@),
            forall|j: int| 0 <= j < i ==> mv[j].0 != key@,
        decreases m@.len() - i,
    {
        if crate::text::str_eq(m[i].0.as_str(), key) {
            proof {
                lemma_key_pos_at(mv, key@, i as int);
            }
            return Some(i);
        }
        i = i + 1;
    }
    proof {
        lemma_key_pos(mv, key@);
    }
    None
}

/// An optional reference to a value, taken by its view.
pub open spec fn opt_view(v: Option<&Json>) -> Option<JsonV> {
    match v {
        Some(x) => Some(x@),
        None => None,
    }
}

/// The text of a value, when it is a string (`serde_json`'s `as_str`).
pub open spec fn text_of(v: Option<JsonV>) -> Option<Seq<char>> {
    match v {
        Some(JsonV::Str(s)) => Some(s),
        _ => None,
    }
}

/// The value as an `i64`, when it is an integer in range (`serde_json`'s `as_i64`).
pub open spec fn i64_of(v: Option<JsonV>) -> Option<i64> {
    match v {
        Some(JsonV::Number(NumberV::PosInt(n))) => if n <= i64::MAX as u64 {
            Some(n as i64)
        } else {
            None
        },
        Some(JsonV::Number(NumberV::NegInt(n))) => Some(n),
        _ => None,
    }
}

/// The value of member `key` of `v`, when `v` is an object that has one.
pub fn get_member<'a>(v: &'a Json, key: &str) -> (r: Option<&'a Json>)
    ensures
        match r {
            Some(x) => member(v@, key@) == Some(x@),
            None => member(v@, key@) is None,
        },
{
    match v {
        Json::Object(m) => {
            proof {
                lemma_members_view(m@);
                lemma_key_pos(members_view(m@), key@);
            }
            match find_member(m, key) {
                Some(i) => Some(&m[i].1),
                None => None,
            }
        },
        _ => None,
    }
}

/// The text of a value that is a string.
pub fn as_text(v: Option<&Json>) -> (r: Option<&str>)
    ensures
        match r {
            Some(s) => text_of(opt_view(v)) == Some(s@),
            None => text_of(opt_view(v)) is None,
        },
{
    match v {
        Some(Json::Str(s)) => Some(s.as_str()),
        _ => None,
    }
}

/// The value as an `i64`, when it is an integer in range.
pub fn as_i64(v: Option<&Json>) -> (r: Option<i64>)
    ensures
        r == i64_of(opt_view(v)),
{
    match v {
        Some(Json::Number(JsonNumber::PosInt(n))) => if *n <= 9223372036854775807u64 {
            Some(*n as i64)
        } else {
            None
        },
        Some(Json::Number(JsonNumber::NegInt(n))) => Some(*n),
        _ => None,
    }
}

impl Json {
    /// A copy of the value.
    pub fn deep_clone(&self) -> (r: Json)
        ensures
            r@ == self@,
        decreases self,
    {
        match self {
            Json::Null => Json::Null,
            Json::Bool(b) => Json::Bool(*b),
            Json::Number(JsonNumber::PosInt(n)) => Json::Number(JsonNumber::PosInt(*n)),
            Json::Number(JsonNumber::NegInt(n)) => Json::Number(JsonNumber::NegInt(*n)),
            Json::Number(JsonNumber::Float(t)) => Json::Number(JsonNumber::Float(t.clone())),
            Json::Str(s) => Json::Str(s.clone()),
            Json::Array(v) => Json::Array(clone_items(v)),
            Json::Object(m) => Json::Object(clone_members(m)),
        }
    }
}

/// Copies of the members of an object.
pub fn clone_members(m: &Vec<(String, Json)>) -> (r: Vec<(String, Json)>)
    ensures
        members_view(r@) == members_view(m@),
    decreases m@,
{
    let mut out: Vec<(String, Json)> = Vec::new();
    let mut i: usize = 0;
    while i < m.len()
        invariant
            i <= m@.len(),
            out@.len() == i,
            forall|j: int| 0 <= j < i ==> (#[trigger] out@[j]).0@ == m@[j].0@ && out@[j].1@ == m@[j].1@,
        decreases m@.len() - i,
    {
        proof {
            let e = m@[i as int];
            assert(decreases_to!(m@ => e));
            assert(decreases_to!(e => e.1));
        }
        let v = m[i].1.deep_clone();
        out.push((m[i].0.clone(), v));
        i = i + 1;
    }
    proof {
        lemma_members_view(out@);
        lemma_members_view(m@);
        assert(members_view(out@) =~= members_view(m@));
    }
    out
}

/// Copies of the values of an array.
pub fn clone_items(v: &Vec<Json>) -> (r: Vec<Json>)
    ensures
        items_view(r@) == items_view(v@),
    decreases v@,
{
    let mut out: Vec<Json> = Vec::new();
    let mut i: usize = 0;
    while i < v.len()
        invariant
            i <= v@.len(),
            out@.len() == i,
            forall|j: int| 0 <= j < i ==> (#[trigger] out@[j])@ == v@[j]@,
        decreases v@.len() - i,
    {
        assert(decreases_to!(v@ => v@[i as int]));
        out.push(v[i].deep_clone());
        i = i + 1;
    }
    proof {
        lemma_items_view(out@);
        lemma_items_view(v@);
        assert(items_view(out@) =~= items_view(v@));
    }
    out
}

} // verus!
