//! A JSON document as the library reads it: the value tree a JSON parser
//! produced, with each node's compact text, and the accessors the rest of the
//! library uses (`v["key"]`, `v[i]`, `as_str`, `as_u64`, ...). A missing key,
//! an index out of range or an access on the wrong kind of node reads as
//! `null`, as with `serde_json::Value`.

use vstd::prelude::*;

verus! {

/// A JSON number.
#[derive(Debug, Clone)]
pub enum JsonNumber {
    /// A non-negative integer.
    PosInt(u64),
    /// A negative integer.
    NegInt(i64),
    /// Any other number, kept as its text.
    Float(String),
}

/// The kind and content of a JSON node.
#[derive(Debug)]
pub enum JsonKind {
    Null,
    Bool(bool),
    Number(JsonNumber),
    Str(String),
    Array(Vec<JsonValue>),
    Object(Vec<(String, JsonValue)>),
}

/// A JSON node and its compact text (what displaying it prints).
#[derive(Debug)]
pub struct JsonValue {
    pub kind: JsonKind,
    pub text: String,
}

// ───────────────────────── specifications ─────────────────────────

/// The member `k` of an object's entries, the first match winning.
pub open spec fn member(entries: Seq<(String, JsonValue)>, k: Seq<char>) -> Option<JsonValue>
    decreases entries.len(),
{
    if entries.len() == 0 {
        None
    } else if entries[0].0@ == k {
        Some(entries[0].1)
    } else {
        member(entries.drop_first(), k)
    }
}

/// `v[k]`: the member `k` of an object; `None` stands for `null`.
pub open spec fn at_key(v: Option<JsonValue>, k: Seq<char>) -> Option<JsonValue> {
    match v {
        Some(x) => match x.kind {
            JsonKind::Object(es) => member(es@, k),
            _ => None,
        },
        None => None,
    }
}

/// `v[i]`: the element `i` of an array; `None` stands for `null`.
pub open spec fn at_index(v: Option<JsonValue>, i: int) -> Option<JsonValue> {
    match v {
        Some(x) => match x.kind {
            JsonKind::Array(items) => if 0 <= i < items@.len() {
                Some(items@[i])
            } else {
                None
            },
            _ => None,
        },
        None => None,
    }
}

/// `v.as_str()`.
pub open spec fn as_str(v: Option<JsonValue>) -> Option<Seq<char>> {
    match v {
        Some(x) => match x.kind {
            JsonKind::Str(s) => Some(s@),
            _ => None,
        },
        None => None,
    }
}

/// `v.as_u64()`.
pub open spec fn as_u64(v: Option<JsonValue>) -> Option<u64> {
    match v {
        Some(x) => match x.kind {
            JsonKind::Number(JsonNumber::PosInt(n)) => Some(n),
            _ => None,
        },
        None => None,
    }
}

/// `v.as_array()`.
pub open spec fn as_array(v: Option<JsonValue>) -> Option<Seq<JsonValue>> {
    match v {
        Some(x) => match x.kind {
            JsonKind::Array(items) => Some(items@),
            _ => None,
        },
        None => None,
    }
}

/// `v.is_object()`.
pub open spec fn is_object(v: Option<JsonValue>) -> bool {
    match v {
        Some(x) => x.kind is Object,
        None => false,
    }
}

/// `v.is_null()`.
pub open spec fn is_null(v: Option<JsonValue>) -> bool {
    match v {
        Some(x) => x.kind is Null,
        None => true,
    }
}

/// What displaying `v` prints (`null` for a missing value).
pub open spec fn display(v: Option<JsonValue>) -> Seq<char> {
    match v {
        Some(x) => x.text@,
        None => "null"@,
    }
}

/// `v[k].as_str()` or the default.
pub open spec fn str_or(v: Option<JsonValue>, k: Seq<char>, d: Seq<char>) -> Seq<char> {
    match as_str(at_key(v, k)) {
        Some(s) => s,
        None => d,
    }
}

/// `v[k].as_u64()` or the default.
pub open spec fn u64_or(v: Option<JsonValue>, k: Seq<char>, d: u64) -> u64 {
    match as_u64(at_key(v, k)) {
        Some(n) => n,
        None => d,
    }
}

/// A borrowed optional node as a value.
pub open spec fn opt(v: Option<&JsonValue>) -> Option<JsonValue> {
    match v {
        Some(x) => Some(*x),
        None => None,
    }
}

/// A borrowed optional string as characters.
pub open spec fn opt_str(v: Option<&str>) -> Option<Seq<char>> {
    match v {
        Some(x) => Some(x@),
        None => None,
    }
}

/// A borrowed optional array as its elements.
pub open spec fn opt_items(v: Option<&Vec<JsonValue>>) -> Option<Seq<JsonValue>> {
    match v {
        Some(x) => Some(x@),
        None => None,
    }
}

// ───────────────────────── executable ─────────────────────────

/// `v[key]`.
pub fn get<'a>(v: Option<&'a JsonValue>, key: &str) -> (r: Option<&'a JsonValue>)
    ensures
        opt(r) == at_key(opt(v), key@),
{
    match v {
        None => None,
        Some(x) => match &x.kind {
            JsonKind::Object(es) => {
                let k = key.to_owned();
                let n = es.len();
                let ghost all = es@;
                assert(all.skip(0) =~= all);
                assert(at_key(opt(v), key@) == member(all, key@));
                for i in 0..n
                    invariant
                        n == es@.len(),
                        all == es@,
                        at_key(opt(v), key@) == member(all, key@),
                        k@ == key@,
                        member(all, key@) == member(all.skip(i as int), key@),
                {
                    assert(all.skip(i as int).drop_first() =~= all.skip(i + 1));
                    if es[i].0 == k {
                        return Some(&es[i].1);
                    }
                }
                assert(all.skip(n as int) =~= Seq::<(String, JsonValue)>::empty());
                None
            },
            _ => None,
        },
    }
}

/// `v[i]`.
pub fn index<'a>(v: Option<&'a JsonValue>, i: usize) -> (r: Option<&'a JsonValue>)
    ensures
        opt(r) == at_index(opt(v), i as int),
{
    match v {
        None => None,
        Some(x) => match &x.kind {
            JsonKind::Array(items) => if i < items.len() {
                Some(&items[i])
            } else {
                None
            },
            _ => None,
        },
    }
}

/// `v.as_str()`.
pub fn get_str<'a>(v: Option<&'a JsonValue>) -> (r: Option<&'a str>)
    ensures
        opt_str(r) == as_str(opt(v)),
{
    match v {
        Some(x) => match &x.kind {
            JsonKind::Str(s) => Some(s.as_str()),
            _ => None,
        },
        None => None,
    }
}

/// `v.as_u64()`.
pub fn get_u64(v: Option<&JsonValue>) -> (r: Option<u64>)
    ensures
        r == as_u64(opt(v)),
{
    match v {
        Some(x) => match &x.kind {
            JsonKind::Number(JsonNumber::PosInt(n)) => Some(*n),
            _ => None,
        },
        None => None,
    }
}

/// `v.as_array()`.
pub fn get_array<'a>(v: Option<&'a JsonValue>) -> (r: Option<&'a Vec<JsonValue>>)
    ensures
        opt_items(r) == as_array(opt(v)),
{
    match v {
        Some(x) => match &x.kind {
            JsonKind::Array(items) => Some(items),
            _ => None,
        },
        None => None,
    }
}

/// `v.is_object()`.
pub fn check_object(v: Option<&JsonValue>) -> (b: bool)
    ensures
        b == is_object(opt(v)),
{
    match v {
        Some(x) => match &x.kind {
            JsonKind::Object(_) => true,
            _ => false,
        },
        None => false,
    }
}

/// `v.is_null()`.
pub fn check_null(v: Option<&JsonValue>) -> (b: bool)
    ensures
        b == is_null(opt(v)),
{
    match v {
        Some(x) => match &x.kind {
            JsonKind::Null => true,
            _ => false,
        },
        None => true,
    }
}

/// What displaying `v` prints.
pub fn display_text(v: Option<&JsonValue>) -> (r: String)
    ensures
        r@ == display(opt(v)),
{
    match v {
        Some(x) => x.text.clone(),
        None => "null".to_owned(),
    }
}

/// `v[key].as_str()`, or `default` when it is not a string.
pub fn get_str_or<'a>(v: Option<&'a JsonValue>, key: &str, default: &'a str) -> (r: &'a str)
    ensures
        r@ == str_or(opt(v), key@, default@),
{
    match get_str(get(v, key)) {
        Some(s) => s,
        None => default,
    }
}

/// `v[key].as_u64()`, or `default` when it is not a non-negative integer.
pub fn get_u64_or(v: Option<&JsonValue>, key: &str, default: u64) -> (r: u64)
    ensures
        r == u64_or(opt(v), key@, default),
{
    match get_u64(get(v, key)) {
        Some(n) => n,
        None => default,
    }
}

} // verus!
