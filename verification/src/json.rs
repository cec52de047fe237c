//! A JSON value as the library builds it, and its mathematical model.
//!
//! Configuration for the core is produced as a tree of these; the program
//! around the library turns the tree into text. Contracts speak of `model`,
//! where strings are character sequences and objects are ordered lists of
//! members.
use vstd::prelude::*;

verus! {

#[derive(Debug)]
pub enum Json {
    Null,
    Bool(bool),
    Num(i64),
    Str(String),
    Arr(Vec<Json>),
    Obj(Vec<(String, Json)>),
}

pub enum JsonModel {
    Null,
    Bool(bool),
    Num(int),
    Text(Seq<char>),
    List(Seq<JsonModel>),
    Object(Seq<(Seq<char>, JsonModel)>),
}

impl Json {
    pub open spec fn model(self) -> JsonModel
        decreases self,
    {
        match self {
            Json::Null => JsonModel::Null,
            Json::Bool(b) => JsonModel::Bool(b),
            Json::Num(n) => JsonModel::Num(n as int),
            Json::Str(s) => JsonModel::Text(s@),
            Json::Arr(items) => JsonModel::List(
                Seq::new(
                    items@.len(),
                    |i: int|
                        if 0 <= i < items@.len() {
                            items@[i].model()
                        } else {
                            JsonModel::Null
                        },
                ),
            ),
            Json::Obj(members) => JsonModel::Object(
                Seq::new(
                    members@.len(),
                    |i: int|
                        if 0 <= i < members@.len() {
                            (members@[i].0@, members@[i].1.model())
                        } else {
                            (Seq::empty(), JsonModel::Null)
                        },
                ),
            ),
        }
    }
}

/// The models of a list's items, in order.
pub open spec fn items_model(items: Seq<Json>) -> Seq<JsonModel> {
    Seq::new(items.len(), |i: int| items[i].model())
}

/// The models of an object's members, in order.
pub open spec fn members_model(members: Seq<(String, Json)>) -> Seq<(Seq<char>, JsonModel)> {
    Seq::new(members.len(), |i: int| (members[i].0@, members[i].1.model()))
}

/// One member, as a sequence to concatenate.
pub open spec fn member(key: Seq<char>, value: JsonModel) -> Seq<(Seq<char>, JsonModel)> {
    seq![(key, value)]
}

/// One member when `present`, none otherwise.
pub open spec fn member_if(present: bool, key: Seq<char>, value: JsonModel) -> Seq<
    (Seq<char>, JsonModel),
> {
    if present {
        seq![(key, value)]
    } else {
        Seq::empty()
    }
}

/// The characters of an optional string.
pub open spec fn opt_chars(value: Option<String>) -> Option<Seq<char>> {
    match value {
        Some(s) => Some(s@),
        None => None,
    }
}

/// The value of the first member of an object named `key`.
pub open spec fn find_member(ms: Seq<(Seq<char>, JsonModel)>, key: Seq<char>) -> Option<JsonModel>
    decreases ms.len(),
{
    if ms.len() == 0 {
        None
    } else if ms[0].0 == key {
        Some(ms[0].1)
    } else {
        find_member(ms.drop_first(), key)
    }
}

/// The value of member `key` of an object; `None` when absent or when `m`
/// is no object.
pub open spec fn field(m: JsonModel, key: Seq<char>) -> Option<JsonModel> {
    match m {
        JsonModel::Object(ms) => find_member(ms, key),
        _ => None,
    }
}

/// Looking a key up in two concatenated member lists finds it in the first
/// when it is there, else in the second.
pub proof fn lemma_find_member_concat(
    a: Seq<(Seq<char>, JsonModel)>,
    b: Seq<(Seq<char>, JsonModel)>,
    key: Seq<char>,
)
    ensures
        find_member(a + b, key) == (match find_member(a, key) {
            Some(v) => Some(v),
            None => find_member(b, key),
        }),
    decreases a.len(),
{
    if a.len() > 0 {
        assert((a + b).drop_first() =~= a.drop_first() + b);
        lemma_find_member_concat(a.drop_first(), b, key);
    } else {
        assert(a + b =~= b);
    }
}

/// A string value.
pub fn text(s: &str) -> (j: Json)
    ensures
        j.model() == JsonModel::Text(s@),
{
    Json::Str(s.to_owned())
}

/// A string value, copied from `s`.
pub fn text_of(s: &String) -> (j: Json)
    ensures
        j.model() == JsonModel::Text(s@),
{
    Json::Str(s.clone())
}

/// A list value holding `items` in order.
pub fn list(items: Vec<Json>) -> (j: Json)
    ensures
        j.model() == JsonModel::List(items_model(items@)),
{
    let ghost m = items_model(items@);
    let j = Json::Arr(items);
    assert(j.model() == JsonModel::List(m)) by {
        if let JsonModel::List(l) = j.model() {
            assert(l =~= m);
        }
    }
    j
}

/// A list of string values copied from `v`.
pub fn texts(v: &Vec<String>) -> (j: Json)
    ensures
        j.model() == JsonModel::List(Seq::new(v@.len(), |i: int| JsonModel::Text(v@[i]@))),
{
    let mut items: Vec<Json> = Vec::new();
    let mut i: usize = 0;
    while i < v.len()
        invariant
            i <= v@.len(),
            items@.len() == i,
            items_model(items@) =~= Seq::new(i as nat, |k: int| JsonModel::Text(v@[k]@)),
        decreases v.len() - i,
    {
        let t = text_of(&v[i]);
        let ghost before = items@;
        items.push(t);
        assert(items@[i as int] == t);
        assert(items_model(items@) =~= items_model(before).push(JsonModel::Text(v@[i as int]@)));
        i = i + 1;
    }
    list(items)
}

/// An object value holding `members` in order.
pub fn obj(members: Vec<(String, Json)>) -> (j: Json)
    ensures
        j.model() == JsonModel::Object(members_model(members@)),
{
    let ghost m = members_model(members@);
    let j = Json::Obj(members);
    assert(j.model() == JsonModel::Object(m)) by {
        if let JsonModel::Object(o) = j.model() {
            assert(o =~= m);
        }
    }
    j
}

/// Appends the member `key: value`.
pub fn put(members: &mut Vec<(String, Json)>, key: &str, value: Json)
    ensures
        members_model(final(members)@) == members_model(old(members)@).push((key@, value.model())),
{
    let ghost vm = value.model();
    members.push((key.to_owned(), value));
    assert(members_model(members@) =~= members_model(old(members)@).push((key@, vm)));
}

} // verus!
