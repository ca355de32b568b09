//! The JSON documents the registries answer with, and the onboarding body
//! this contract sends, as a value type of the library's own.
//!
//! Parsing is `serde_json`'s work; everything that reads a document after
//! that works on [`Json`] and is verified.
use vstd::prelude::*;
use crate::text::copy_str;

verus! {

/// `serde_json::Value`, opaque: only the parser's own conversion reads it.
#[verifier::external_type_specification]
#[verifier::external_body]
pub struct ExSerdeJsonValue(serde_json::Value);

/// A JSON value. Numbers are kept as the text `serde_json` prints for them;
/// an object keeps its members in the order the parser produced them.
#[derive(Debug, PartialEq)]
pub enum Json {
    Null,
    Bool(bool),
    Number(String),
    Str(String),
    Array(Vec<Json>),
    Object(Vec<(String, Json)>),
}

/// The value of the first member named `key`, if any.
pub open spec fn member(entries: Seq<(String, Json)>, key: Seq<char>) -> Option<Json>
    decreases entries.len(),
{
    if entries.len() == 0 {
        None
    } else if entries[0].0@ == key {
        Some(entries[0].1)
    } else {
        member(entries.drop_first(), key)
    }
}

/// `value[key]` as `serde_json` indexes by a string: the member's value, or
/// `null` when there is none or `value` is not an object.
pub open spec fn field(value: Json, key: Seq<char>) -> Json {
    match value {
        Json::Object(entries) => match member(entries@, key) {
            Some(v) => v,
            None => Json::Null,
        },
        _ => Json::Null,
    }
}

/// A reference that may be missing, read as `serde_json` reads a missing
/// member: `null`.
pub open spec fn or_null(value: Option<&Json>) -> Json {
    match value {
        Some(v) => *v,
        None => Json::Null,
    }
}

/// `Value::as_str`.
pub open spec fn str_of(value: Json) -> Option<Seq<char>> {
    match value {
        Json::Str(s) => Some(s@),
        _ => None,
    }
}

/// `Value::as_bool`.
pub open spec fn bool_of(value: Json) -> Option<bool> {
    match value {
        Json::Bool(b) => Some(b),
        _ => None,
    }
}

/// `Value::as_array`.
pub open spec fn array_of(value: Json) -> Option<Seq<Json>> {
    match value {
        Json::Array(items) => Some(items@),
        _ => None,
    }
}

/// `value.as_str().unwrap_or("")`.
pub open spec fn text_of(value: Json) -> Seq<char> {
    match str_of(value) {
        Some(s) => s,
        None => Seq::empty(),
    }
}

pub open spec fn opt_str_view(s: Option<&str>) -> Option<Seq<char>> {
    match s {
        Some(v) => Some(v@),
        None => None,
    }
}

/// The first member named `key` decides the lookup.
pub proof fn lemma_member_at(entries: Seq<(String, Json)>, key: Seq<char>, i: int)
    requires
        0 <= i < entries.len(),
        entries[i].0@ == key,
        forall|j: int| 0 <= j < i ==> entries[j].0@ != key,
    ensures
        member(entries, key) == Some(entries[i].1),
    decreases i,
{
    if i > 0 {
        assert forall|j: int| 0 <= j < i - 1 implies entries.drop_first()[j].0@ != key by {
            assert(entries.drop_first()[j] == entries[j + 1]);
        }
        lemma_member_at(entries.drop_first(), key, i - 1);
    }
}

proof fn lemma_member_skip(entries: Seq<(String, Json)>, key: Seq<char>, i: int)
    requires
        0 <= i < entries.len(),
        entries[i].0@ != key,
    ensures
        member(entries.skip(i), key) == member(entries.skip(i + 1), key),
{
    assert(entries.skip(i).drop_first() =~= entries.skip(i + 1));
}

impl Json {
    /// `self[key]`: `None` stands for the `null` that `serde_json` answers
    /// for a missing member.
    pub fn get(&self, key: &str) -> (r: Option<&Json>)
        ensures
            or_null(r) == field(*self, key@),
    {
        match self {
            Json::Object(entries) => {
                let wanted = copy_str(key);
                let n = entries.len();
                assert(entries@.skip(0) =~= entries@);
                let mut i: usize = 0;
                while i < n
                    invariant
                        n == entries@.len(),
                        i <= n,
                        wanted@ == key@,
                        *self == Json::Object(*entries),
                        member(entries@, key@) == member(entries@.skip(i as int), key@),
                    decreases n - i,
                {
                    if entries[i].0 == wanted {
                        assert(entries@.skip(i as int)[0] == entries@[i as int]);
                        return Some(&entries[i].1);
                    }
                    proof {
                        lemma_member_skip(entries@, key@, i as int);
                    }
                    i = i + 1;
                }
                assert(entries@.skip(n as int).len() == 0);
                None
            },
            _ => None,
        }
    }

    /// `Value::as_str`.
    pub fn as_str(&self) -> (r: Option<&str>)
        ensures
            opt_str_view(r) == str_of(*self),
    {
        match self {
            Json::Str(s) => Some(s.as_str()),
            _ => None,
        }
    }

    /// `Value::as_bool`.
    pub fn as_bool(&self) -> (r: Option<bool>)
        ensures
            r == bool_of(*self),
    {
        match self {
            Json::Bool(b) => Some(*b),
            _ => None,
        }
    }

    /// `Value::as_array`.
    pub fn as_array(&self) -> (r: Option<&Vec<Json>>)
        ensures
            match r {
                Some(items) => array_of(*self) == Some(items@),
                None => array_of(*self) is None,
            },
    {
        match self {
            Json::Array(items) => Some(items),
            _ => None,
        }
    }

    /// `Value::as_object`: the members, in order.
    pub fn as_object(&self) -> (r: Option<&Vec<(String, Json)>>)
        ensures
            match r {
                Some(entries) => *self == Json::Object(*entries),
                None => !(*self is Object),
            },
    {
        match self {
            Json::Object(entries) => Some(entries),
            _ => None,
        }
    }

    /// The text of a number, as `serde_json` prints it.
    pub fn as_number(&self) -> (r: Option<&str>)
        ensures
            match r {
                Some(t) => *self matches Json::Number(n) && n@ == t@,
                None => !(*self is Number),
            },
    {
        match self {
            Json::Number(n) => Some(n.as_str()),
            _ => None,
        }
    }

}

/// Moves one key down, `null` staying `null`: `value[key]`.
pub fn child<'a>(value: Option<&'a Json>, key: &str) -> (r: Option<&'a Json>)
    ensures
        or_null(r) == field(or_null(value), key@),
{
    match value {
        Some(v) => v.get(key),
        None => None,
    }
}

/// `value.as_str()`, `null` included.
pub fn str_in<'a>(value: Option<&'a Json>) -> (r: Option<&'a str>)
    ensures
        opt_str_view(r) == str_of(or_null(value)),
{
    match value {
        Some(v) => v.as_str(),
        None => None,
    }
}

/// `value.as_str().unwrap_or("")`, as a fresh string.
pub fn text_in(value: Option<&Json>) -> (r: String)
    ensures
        r@ == text_of(or_null(value)),
{
    match str_in(value) {
        Some(s) => copy_str(s),
        None => String::new(),
    }
}

// ---------------------------------------------------------------------------
// Parsing, by serde_json
// ---------------------------------------------------------------------------

/// What `serde_json::from_slice::<serde_json::Value>` makes of `bytes`: the
/// document, or the text of the parse error.
pub uninterp spec fn json_decode(bytes: Seq<u8>) -> Result<Json, Seq<char>>;

/// Parses `bytes` with `serde_json::from_slice` into a `serde_json::Value`
/// and carries it over into a [`Json`]; a parse error comes back as its
/// `Display` text. The contract ties the outcome to the bytes only, through
/// `json_decode`; which bytes parse, and to what, is `serde_json`'s and is
/// not stated here.
#[verifier::external_body]
pub(crate) fn decode_json(bytes: &[u8]) -> (r: Result<Json, String>)
    ensures
        match r {
            Ok(doc) => json_decode(bytes@) == Ok::<Json, Seq<char>>(doc),
            Err(e) => json_decode(bytes@) == Err::<Json, Seq<char>>(e@),
        },
{
    match serde_json::from_slice::<serde_json::Value>(bytes) {
        Ok(value) => Ok(json_from_value(value)),
        Err(e) => Err(e.to_string()),
    }
}

/// Carries a `serde_json::Value` over into a [`Json`], variant for variant:
/// a number as its `Display` text, an object's members in the map's order.
/// It is the second half of [`decode_json`]'s body, a function of its own
/// only because the conversion recurses; nothing is stated of it, and what
/// [`decode_json`] states covers both halves.
#[verifier::external_body]
fn json_from_value(value: serde_json::Value) -> Json {
    match value {
        serde_json::Value::Null => Json::Null,
        serde_json::Value::Bool(b) => Json::Bool(b),
        serde_json::Value::Number(n) => Json::Number(n.to_string()),
        serde_json::Value::String(s) => Json::Str(s),
        serde_json::Value::Array(items) => Json::Array(items.into_iter().map(json_from_value).collect()),
        serde_json::Value::Object(map) => Json::Object(map.into_iter().map(|(k, v)| (k, json_from_value(v))).collect()),
    }
}

} // verus!
