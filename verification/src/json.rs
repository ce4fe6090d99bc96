//! The boundary to `serde_json`: the manifest document is kept as a
//! `serde_json::Value` tree so that fields the library does not model
//! round-trip through load and write unchanged.  Every call into the crate
//! goes through one of the trusted items below; everything the library
//! proves about a document rests on their contracts.

use vstd::prelude::*;

verus! {

#[verifier::external_type_specification]
#[verifier::external_body]
pub struct ExValue(serde_json::Value);

#[verifier::external_type_specification]
#[verifier::external_body]
pub struct ExJsonError(serde_json::Error);

/// What `serde_json::from_str::<Value>` yields on a text: `Some` of the parsed
/// tree when the text is well-formed JSON, `None` otherwise.  Parsing depends
/// on the text alone.
pub uninterp spec fn parsed_json(s: Seq<char>) -> Option<serde_json::Value>;

/// The text `serde_json::to_string_pretty` renders a tree to; a function of
/// the tree alone.
pub uninterp spec fn json_text(v: serde_json::Value) -> Seq<char>;

/// What `Value::get` returns for a string key: `Some` exactly when the value
/// is an object containing that key.
pub uninterp spec fn field_of(v: serde_json::Value, key: Seq<char>) -> Option<serde_json::Value>;

/// What `Value::as_str` returns: `Some` of the characters exactly when the
/// value is a JSON string.
pub uninterp spec fn str_of(v: serde_json::Value) -> Option<Seq<char>>;

/// The contents of a JSON object, as its key/value pairs in stored order;
/// `None` when the value is not an object.
pub uninterp spec fn obj_entries(v: serde_json::Value) -> Option<
    Seq<(Seq<char>, serde_json::Value)>,
>;

/// The pairs of `es` whose key is `k`.
pub open spec fn obj_has_key(es: Seq<(Seq<char>, serde_json::Value)>, k: Seq<char>) -> bool {
    exists|i: int| 0 <= i < es.len() && es[i].0 == k
}

/// The contents of an object all of whose values are JSON strings, as
/// key/text pairs in stored order; `None` for any other value.
pub open spec fn string_entries_of(v: serde_json::Value) -> Option<Seq<(Seq<char>, Seq<char>)>> {
    match obj_entries(v) {
        None => None,
        Some(es) => if forall|i: int| 0 <= i < es.len() ==> str_of(#[trigger] es[i].1) is Some {
            Some(es.map_values(|p: (Seq<char>, serde_json::Value)| (p.0, str_of(p.1).unwrap())))
        } else {
            None
        },
    }
}

/// Relies on `serde_json::from_str::<Value>` to parse a manifest text.
#[verifier::external_body]
pub fn parse_json(s: &str) -> (r: Result<serde_json::Value, serde_json::Error>)
    ensures
        match r {
            Ok(v) => parsed_json(s@) == Some(v),
            Err(_) => parsed_json(s@) is None,
        },
{
    serde_json::from_str(s)
}

/// Relies on `serde_json::to_string_pretty`: rendering a `Value` never fails
/// (its `Serialize` impl does not error and its maps have string keys), and
/// parsing the rendered text yields an equal tree back.
#[verifier::external_body]
pub fn to_pretty(v: &serde_json::Value) -> (r: String)
    ensures
        r@ == json_text(*v),
        parsed_json(r@) == Some(*v),
{
    serde_json::to_string_pretty(v).unwrap()
}

/// Relies on `Value::get` with a string index.
#[verifier::external_body]
pub fn get_field<'a>(v: &'a serde_json::Value, key: &str) -> (r: Option<&'a serde_json::Value>)
    ensures
        match r {
            Some(f) => field_of(*v, key@) == Some(*f),
            None => field_of(*v, key@) is None,
        },
{
    v.get(key)
}

/// Relies on `Value::as_str`.
#[verifier::external_body]
pub fn get_str(v: &serde_json::Value) -> (r: Option<String>)
    ensures
        match r {
            Some(s) => str_of(*v) == Some(s@),
            None => str_of(*v) is None,
        },
{
    v.as_str().map(|s| s.to_owned())
}

/// Relies on `Value::as_object` and `Map` iteration (with `preserve_order`):
/// the entries come out in stored order, their keys are pairwise distinct,
/// and each entry is what `Value::get` returns for its key.
#[verifier::external_body]
pub fn get_entries(v: &serde_json::Value) -> (r: Option<Vec<(String, serde_json::Value)>>)
    ensures
        match r {
            Some(es) => {
                &&& obj_entries(*v) == Some(raw_entries_view(es@))
                &&& forall|i: int, j: int|
                    0 <= i < j < es@.len() ==> es@[i].0@ != es@[j].0@
                &&& forall|i: int|
                    0 <= i < es@.len() ==> field_of(*v, #[trigger] es@[i].0@) == Some(es@[i].1)
            },
            None => obj_entries(*v) is None,
        },
{
    Some(v.as_object()?.iter().map(|(k, w)| (k.clone(), w.clone())).collect())
}

/// The view of a vector of raw entries.
pub open spec fn raw_entries_view(es: Seq<(String, serde_json::Value)>) -> Seq<
    (Seq<char>, serde_json::Value),
> {
    es.map_values(|p: (String, serde_json::Value)| (p.0@, p.1))
}

/// Relies on `Value::get_mut`, `Value::as_object_mut` and `Map::get_mut`
/// (with `preserve_order`): replaces, in place, the value of one existing key
/// of one object-valued field with a JSON string, and touches nothing else —
/// every other field keeps its value, and both the root object and the
/// section object keep their keys and their order.
#[verifier::external_body]
pub fn set_entry_string(v: &mut serde_json::Value, section: &str, key: &str, val: &str) -> (ok:
    bool)
    ensures
        ({
            let sect0 = field_of(*old(v), section@);
            match sect0 {
                None => !ok && *final(v) == *old(v),
                Some(f0) => match obj_entries(f0) {
                    None => !ok && *final(v) == *old(v),
                    Some(es0) => {
                        &&& ok == obj_has_key(es0, key@)
                        &&& !ok ==> *final(v) == *old(v)
                        &&& ok ==> {
                            &&& field_of(*final(v), section@) matches Some(f1)
                                && obj_entries(f1) matches Some(es1) && {
                                &&& es1.len() == es0.len()
                                &&& forall|i: int| 0 <= i < es0.len() ==> (#[trigger] es1[i]).0 == es0[i].0
                                &&& forall|i: int|
                                    0 <= i < es0.len() && es0[i].0 != key@ ==> (#[trigger] es1[i]).1 == es0[i].1
                                &&& forall|i: int|
                                    0 <= i < es0.len() && es0[i].0 == key@ ==> str_of(
                                        (#[trigger] es1[i]).1,
                                    ) == Some(val@)
                            }
                            &&& forall|k: Seq<char>|
                                k != section@ ==> #[trigger] field_of(*final(v), k) == field_of(
                                    *old(v),
                                    k,
                                )
                            &&& match obj_entries(*old(v)) {
                                Some(r0) => obj_entries(*final(v)) matches Some(r1) && {
                                    &&& r1.len() == r0.len()
                                    &&& forall|i: int| 0 <= i < r0.len() ==> (#[trigger] r1[i]).0 == r0[i].0
                                    &&& forall|i: int|
                                        0 <= i < r0.len() && r0[i].0 != section@ ==> (
                                        #[trigger] r1[i]).1 == r0[i].1
                                },
                                None => true,
                            }
                        }
                    },
                },
            }
        }),
{
    match v.get_mut(section).and_then(|f| f.as_object_mut()) {
        Some(m) => match m.get_mut(key) {
            Some(slot) => {
                *slot = serde_json::Value::String(val.to_string());
                true
            },
            None => false,
        },
        None => false,
    }
}

} // verus!
