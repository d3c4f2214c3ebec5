//! The library's JSON document model and its trusted boundary with
//! `serde_json`.
//!
//! A JSON text is parsed once, behind the boundary, into the [`Json`] tree
//! below; everything that reads a document (the IDENTIFY reply, the AUTH
//! reply, the lookup records) is verified code over that tree. The one
//! named fact is [`json_doc_of`]: which tree a given text parses to, a
//! function of the text alone.

use vstd::prelude::*;

verus! {

#[verifier::external_type_specification]
#[verifier::external_body]
pub struct ExValue(serde_json::Value);

/// A JSON document, owned by the library.
///
/// Numbers keep serde_json's reading: `Int` where the value fits `i64`,
/// `UInt` where it fits only `u64`, and `NonInteger` for any other number.
/// The protocol never sends non-integer numbers, so their value is not
/// carried. An object's entries come in the parser's iteration order, keys
/// unique.
#[derive(Debug, PartialEq, Eq)]
pub enum Json {
    Null,
    Bool(bool),
    Int(i64),
    UInt(u64),
    NonInteger,
    Str(String),
    Arr(Vec<Json>),
    Obj(Vec<(String, Json)>),
}

/// The document a text parses to, if it is valid JSON. Names the result of
/// `serde_json::from_str::<Value>` followed by the variant-for-variant
/// conversion below, which depends on the text alone.
pub uninterp spec fn json_doc_of(s: Seq<char>) -> Option<Json>;

/// Relies on serde_json::Value's public variants: mirrors one parsed value
/// into the library's tree, variant for variant.
#[verifier::external_body]
fn value_to_json(v: &serde_json::Value) -> Json {
    match v {
        serde_json::Value::Null => Json::Null,
        serde_json::Value::Bool(b) => Json::Bool(*b),
        serde_json::Value::Number(n) => match (n.as_i64(), n.as_u64()) {
            (Some(i), _) => Json::Int(i),
            (None, Some(u)) => Json::UInt(u),
            (None, None) => Json::NonInteger,
        },
        serde_json::Value::String(s) => Json::Str(s.clone()),
        serde_json::Value::Array(a) => Json::Arr(a.iter().map(value_to_json).collect()),
        serde_json::Value::Object(m) => Json::Obj(
            m.iter().map(|(k, f)| (k.clone(), value_to_json(f))).collect(),
        ),
    }
}

/// Relies on serde_json::from_str::<Value>: parses any valid JSON text,
/// deterministically, and hands the document back as the library's tree.
#[verifier::external_body]
pub(crate) fn parse_json_doc(s: &str) -> (r: Option<Json>)
    ensures
        r == json_doc_of(s@),
{
    match serde_json::from_str::<serde_json::Value>(s) {
        Ok(v) => Some(value_to_json(&v)),
        Err(_) => None,
    }
}

/// Relies on serde_json::from_str::<Value>: whether a text is valid JSON,
/// without building the tree.
#[verifier::external_body]
pub(crate) fn json_ok(s: &str) -> (r: bool)
    ensures
        r == (json_doc_of(s@) is Some),
{
    serde_json::from_str::<serde_json::Value>(s).is_ok()
}

/// The first entry of an object's pairs under a key.
pub open spec fn spec_obj_get(pairs: Seq<(String, Json)>, key: Seq<char>) -> Option<Json>
    decreases pairs.len(),
{
    if pairs.len() == 0 {
        Option::None
    } else if pairs[0].0@ == key {
        Option::Some(pairs[0].1)
    } else {
        spec_obj_get(pairs.drop_first(), key)
    }
}

/// The field of a document under a key: only objects have fields.
pub open spec fn spec_field(j: Json, key: Seq<char>) -> Option<Json> {
    match j {
        Json::Obj(pairs) => spec_obj_get(pairs@, key),
        _ => Option::None,
    }
}

/// A boolean field.
pub open spec fn spec_bool_field(j: Json, key: Seq<char>) -> Option<bool> {
    match spec_field(j, key) {
        Option::Some(Json::Bool(b)) => Option::Some(b),
        _ => Option::None,
    }
}

/// An unsigned field: any integer that is not negative.
pub open spec fn spec_u64_field(j: Json, key: Seq<char>) -> Option<u64> {
    match spec_field(j, key) {
        Option::Some(Json::Int(n)) => if n >= 0 {
            Option::Some(n as u64)
        } else {
            Option::None
        },
        Option::Some(Json::UInt(n)) => Option::Some(n),
        _ => Option::None,
    }
}

/// A signed field: any integer that fits `i64`.
pub open spec fn spec_i64_field(j: Json, key: Seq<char>) -> Option<i64> {
    match spec_field(j, key) {
        Option::Some(Json::Int(n)) => Option::Some(n),
        _ => Option::None,
    }
}

/// A string field.
pub open spec fn spec_string_field(j: Json, key: Seq<char>) -> Option<String> {
    match spec_field(j, key) {
        Option::Some(Json::Str(s)) => Option::Some(s),
        _ => Option::None,
    }
}

/// An array field's elements.
pub open spec fn spec_array_field(j: Json, key: Seq<char>) -> Option<Seq<Json>> {
    match spec_field(j, key) {
        Option::Some(Json::Arr(items)) => Option::Some(items@),
        _ => Option::None,
    }
}

/// The lookup skips no matching key: if nothing matches in a prefix, the
/// answer is decided by the rest.
proof fn lemma_obj_get_skip(pairs: Seq<(String, Json)>, key: Seq<char>, i: int)
    requires
        0 <= i <= pairs.len(),
        forall|k: int| 0 <= k < i ==> pairs[k].0@ != key,
    ensures
        spec_obj_get(pairs, key) == spec_obj_get(pairs.skip(i), key),
    decreases i,
{
    if i > 0 {
        lemma_obj_get_skip(pairs, key, i - 1);
        assert(pairs.skip(i - 1).drop_first() =~= pairs.skip(i));
        assert(pairs.skip(i - 1)[0] == pairs[i - 1]);
    } else {
        assert(pairs.skip(0) =~= pairs);
    }
}

/// Looks a key up in a document; `None` on anything but an object with
/// that key.
#[verifier::loop_isolation(false)]
pub fn get_field<'a>(j: &'a Json, key: &str) -> (r: Option<&'a Json>)
    ensures
        match r {
            Option::Some(f) => spec_field(*j, key@) == Option::Some(*f),
            Option::None => spec_field(*j, key@) is None,
        },
{
    match j {
        Json::Obj(pairs) => {
            let n = pairs.len();
            let mut i: usize = 0;
            while i < n
                invariant
                    0 <= i <= n,
                    n == pairs@.len(),
                    forall|k: int| 0 <= k < i ==> pairs@[k].0@ != key@,
                decreases n - i,
            {
                if pairs[i].0 == key.to_owned() {
                    proof {
                        lemma_obj_get_skip(pairs@, key@, i as int);
                        assert(pairs@.skip(i as int)[0] == pairs@[i as int]);
                        assert(pairs@.skip(i as int).len() > 0);
                        assert(spec_obj_get(pairs@.skip(i as int), key@) == Option::Some(
                            pairs@[i as int].1,
                        ));
                    }
                    return Option::Some(&pairs[i].1);
                }
                i = i + 1;
            }
            proof {
                lemma_obj_get_skip(pairs@, key@, n as int);
                assert(pairs@.skip(n as int) =~= Seq::<(String, Json)>::empty());
            }
            Option::None
        },
        _ => Option::None,
    }
}

/// Reads a boolean field.
pub fn get_bool_field(j: &Json, key: &str) -> (r: Option<bool>)
    ensures
        r == spec_bool_field(*j, key@),
{
    match get_field(j, key) {
        Option::Some(Json::Bool(b)) => Option::Some(*b),
        _ => Option::None,
    }
}

/// Reads an unsigned field.
pub fn get_u64_field(j: &Json, key: &str) -> (r: Option<u64>)
    ensures
        r == spec_u64_field(*j, key@),
{
    match get_field(j, key) {
        Option::Some(Json::Int(n)) => {
            if *n >= 0 {
                Option::Some(*n as u64)
            } else {
                Option::None
            }
        },
        Option::Some(Json::UInt(n)) => Option::Some(*n),
        _ => Option::None,
    }
}

/// Reads a signed field.
pub fn get_i64_field(j: &Json, key: &str) -> (r: Option<i64>)
    ensures
        r == spec_i64_field(*j, key@),
{
    match get_field(j, key) {
        Option::Some(Json::Int(n)) => Option::Some(*n),
        _ => Option::None,
    }
}

/// Reads a string field, cloning the text out.
pub fn get_string_field(j: &Json, key: &str) -> (r: Option<String>)
    ensures
        r == spec_string_field(*j, key@),
{
    match get_field(j, key) {
        Option::Some(Json::Str(s)) => Option::Some(s.clone()),
        _ => Option::None,
    }
}

/// Reads an array field.
pub fn get_array_field<'a>(j: &'a Json, key: &str) -> (r: Option<&'a Vec<Json>>)
    ensures
        match r {
            Option::Some(items) => spec_array_field(*j, key@) == Option::Some(items@),
            Option::None => spec_array_field(*j, key@) is None,
        },
{
    match get_field(j, key) {
        Option::Some(Json::Arr(items)) => Option::Some(items),
        _ => Option::None,
    }
}

} // verus!
