//! A JSON document as the library reads it: the protocol's messages and replies.

use vstd::prelude::*;
use crate::text::chars_of;

verus! {

/// A JSON number: its value where it is an integer that fits `i64` or `u64`, and its text.
pub struct JsonNumber {
    pub as_i64: Option<i64>,
    pub as_u64: Option<u64>,
    pub text: String,
}

/// A JSON value. An object lists its members in order; the library reads the first
/// member of a key, and a document parsed from text holds each key once.
pub enum Json {
    Null,
    Bool(bool),
    Number(JsonNumber),
    Str(String),
    Array(Vec<Json>),
    Object(Vec<(String, Json)>),
}

/// The value of the first member of `members` whose key is `key`.
pub open spec fn member(members: Seq<(String, Json)>, key: Seq<char>) -> Option<Json>
    decreases members.len(),
{
    if members.len() == 0 {
        None
    } else if members[0].0@ == key {
        Some(members[0].1)
    } else {
        member(members.drop_first(), key)
    }
}

impl Json {
    /// The member `key` of an object; nothing for a missing key or a value that is no object.
    pub open spec fn field(self, key: Seq<char>) -> Option<Json> {
        match self {
            Json::Object(members) => member(members@, key),
            _ => None,
        }
    }

    /// The text of a string value.
    pub open spec fn text(self) -> Option<Seq<char>> {
        match self {
            Json::Str(s) => Some(s@),
            _ => None,
        }
    }

    /// The elements of an array value.
    pub open spec fn elements(self) -> Option<Seq<Json>> {
        match self {
            Json::Array(v) => Some(v@),
            _ => None,
        }
    }

    /// The value of a number that is an integer within `i64`.
    pub open spec fn integer(self) -> Option<i64> {
        match self {
            Json::Number(n) => n.as_i64,
            _ => None,
        }
    }

    /// The value of a number that is an integer within `u64`.
    pub open spec fn unsigned(self) -> Option<u64> {
        match self {
            Json::Number(n) => n.as_u64,
            _ => None,
        }
    }

    /// The member `key` of an object.
    pub fn get(&self, key: &str) -> (r: Option<&Json>)
        ensures
            match r {
                Some(v) => self.field(key@) == Some(*v),
                None => self.field(key@) is None,
            },
    {
        match self {
            Json::Object(members) => {
                let k = chars_of(key);
                let mut i: usize = 0;
                proof {
                    assert(members@.skip(0) == members@);
                }
                while i < members.len()
                    invariant
                        i <= members@.len(),
                        k@ == key@,
                        self.field(key@) == member(members@, key@),
                        member(members@, key@) == member(members@.skip(i as int), key@),
                    decreases members@.len() - i,
                {
                    proof {
                        assert(members@.skip(i as int)[0] == members@[i as int]);
                        assert(members@.skip(i as int).drop_first() == members@.skip(i + 1));
                    }
                    let name = chars_of(members[i].0.as_str());
                    if chars_equal(&name, &k) {
                        return Some(&members[i].1);
                    }
                    i = i + 1;
                }
                None
            },
            _ => None,
        }
    }

    /// The text of a string value.
    pub fn as_str(&self) -> (r: Option<&String>)
        ensures
            match r {
                Some(s) => self.text() == Some(s@),
                None => self.text() is None,
            },
    {
        match self {
            Json::Str(s) => Some(s),
            _ => None,
        }
    }

    /// The elements of an array value.
    pub fn as_array(&self) -> (r: Option<&Vec<Json>>)
        ensures
            match r {
                Some(v) => self.elements() == Some(v@),
                None => self.elements() is None,
            },
    {
        match self {
            Json::Array(v) => Some(v),
            _ => None,
        }
    }

    /// The value of a number that is an integer within `i64`.
    pub fn as_i64(&self) -> (r: Option<i64>)
        ensures
            r == self.integer(),
    {
        match self {
            Json::Number(n) => n.as_i64,
            _ => None,
        }
    }

    /// The value of a number that is an integer within `u64`.
    pub fn as_u64(&self) -> (r: Option<u64>)
        ensures
            r == self.unsigned(),
    {
        match self {
            Json::Number(n) => n.as_u64,
            _ => None,
        }
    }
}

/// Whether two character vectors are equal.
pub fn chars_equal(a: &Vec<char>, b: &Vec<char>) -> (r: bool)
    ensures
        r == (a@ == b@),
{
    if a.len() != b.len() {
        return false;
    }
    let mut i: usize = 0;
    while i < a.len()
        invariant
            i <= a@.len(),
            a@.len() == b@.len(),
            forall|k: int| 0 <= k < i ==> a@[k] == b@[k],
        decreases a@.len() - i,
    {
        if a[i] != b[i] {
            return false;
        }
        i = i + 1;
    }
    proof {
        assert(a@ =~= b@);
    }
    true
}


/// A JSON value with its texts as characters.
pub enum JsonV {
    Null,
    Bool(bool),
    /// A number: its `i64` value, its `u64` value, and its text.
    Number(Option<i64>, Option<u64>, Seq<char>),
    Str(Seq<char>),
    Array(Seq<JsonV>),
    Object(Seq<(Seq<char>, JsonV)>),
}

/// The characters-level form of a JSON value.
pub open spec fn json_view(j: Json) -> JsonV
    decreases j, 0int,
{
    match j {
        Json::Null => JsonV::Null,
        Json::Bool(b) => JsonV::Bool(b),
        Json::Number(n) => JsonV::Number(n.as_i64, n.as_u64, n.text@),
        Json::Str(s) => JsonV::Str(s@),
        Json::Array(v) => JsonV::Array(elements_view(v@)),
        Json::Object(m) => JsonV::Object(members_view(m@)),
    }
}

/// The forms of the elements.
pub open spec fn elements_view(items: Seq<Json>) -> Seq<JsonV>
    decreases items, 1int,
{
    if items.len() == 0 {
        Seq::empty()
    } else {
        elements_view(items.drop_last()).push(json_view(items.last()))
    }
}

/// The forms of the members.
pub open spec fn members_view(members: Seq<(String, Json)>) -> Seq<(Seq<char>, JsonV)>
    decreases members, 1int,
{
    if members.len() == 0 {
        Seq::empty()
    } else {
        members_view(members.drop_last()).push((members.last().0@, json_view(members.last().1)))
    }
}

/// The forms of the elements, one by one.
pub proof fn lemma_elements_view(items: Seq<Json>)
    ensures
        elements_view(items) == Seq::new(items.len(), |i: int| json_view(items[i])),
    decreases items.len(),
{
    if items.len() > 0 {
        lemma_elements_view(items.drop_last());
        assert(elements_view(items) =~= Seq::new(items.len(), |i: int| json_view(items[i])));
    } else {
        assert(elements_view(items) =~= Seq::new(items.len(), |i: int| json_view(items[i])));
    }
}

/// The forms of the members, one by one.
pub proof fn lemma_members_view(members: Seq<(String, Json)>)
    ensures
        members_view(members) == Seq::new(members.len(), |i: int| (members[i].0@, json_view(members[i].1))),
    decreases members.len(),
{
    if members.len() > 0 {
        lemma_members_view(members.drop_last());
    }
    assert(members_view(members) =~= Seq::new(members.len(), |i: int| (members[i].0@, json_view(members[i].1))));
}

impl View for Json {
    type V = JsonV;

    open spec fn view(&self) -> JsonV {
        json_view(*self)
    }
}

/// The text that `serde_json::to_string` writes for the value.
pub uninterp spec fn compact_text(j: JsonV) -> Seq<char>;

/// The text that `serde_json::to_string_pretty` writes for the value.
pub uninterp spec fn pretty_text(j: JsonV) -> Seq<char>;

/// `serde_json::Value`, the value that `serde_json` serializes.
#[verifier::external_type_specification]
#[verifier::external_body]
pub struct ExJsonValue(serde_json::Value);

/// The `serde_json::Value` of a value: one arm per variant; a number is read back from
/// its text, which `serde_json` wrote and reads exactly (feature `float_roundtrip`).
#[verifier::external_body]
fn json_value(j: &Json) -> serde_json::Value {
    match j {
        Json::Null => serde_json::Value::Null,
        Json::Bool(b) => serde_json::Value::Bool(*b),
        Json::Number(n) => n.text.parse::<serde_json::Number>().map_or(serde_json::Value::Null, serde_json::Value::Number),
        Json::Str(s) => serde_json::Value::String(s.clone()),
        Json::Array(v) => serde_json::Value::Array(v.iter().map(json_value).collect()),
        Json::Object(m) => serde_json::Value::Object(m.iter().map(|(k, x)| (k.clone(), json_value(x))).collect()),
    }
}

/// `serde_json::to_string` of the value: its compact JSON text, named `compact_text`.
/// serde_json documents that it fails only for a failing `Serialize` impl or a map with
/// keys that are not strings, neither of which a `serde_json::Value` has.
#[verifier::external_body]
pub(crate) fn compact_json(j: &Json) -> (s: String)
    ensures
        s@ == compact_text(j@),
{
    serde_json::to_string(&json_value(j)).unwrap_or_default()
}

/// `serde_json::to_string_pretty` of the value: its pretty-printed JSON text, named
/// `pretty_text`. It cannot fail on a `serde_json::Value`, as for `compact_json`.
#[verifier::external_body]
pub fn pretty_json(j: &Json) -> (s: String)
    ensures
        s@ == pretty_text(j@),
{
    serde_json::to_string_pretty(&json_value(j)).unwrap_or_default()
}

} // verus!
