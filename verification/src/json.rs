//! JSON serialization of a form-like (string-keyed) body through
//! `serde_json`, and the policy that an empty-object body is omitted.

use vstd::prelude::*;
use crate::params::{map_of, pair_views};

verus! {

#[verifier::external_type_specification]
#[verifier::external_body]
pub struct ExSerdeJsonError(serde_json::Error);

/// What `serde_json` returns for an object whose members are the given
/// string-to-string map. The backing map type is ordered by key, so the text
/// is a function of the key/value map alone.
pub uninterp spec fn json_object_of(m: Map<Seq<char>, Seq<char>>) -> Seq<char>;

/// Relies on `serde_json::to_string` applied to a `serde_json::Value::Object`
/// collected from the pairs (a later pair wins on a repeated key, as map
/// insertion does): the object map is a `BTreeMap`, so the produced text
/// depends only on the key/value map; the serializer writes the empty object
/// as exactly `{}` and opens a non-empty object with `{"`, so the text equals
/// `{}` exactly when the map is empty. The call always succeeds: the
/// serializer errors only on a map with non-string keys or a failing writer,
/// and here every key is a `String` and the writer is an in-memory vector.
#[verifier::external_body]
pub(crate) fn json_object_text(pairs: &Vec<(String, String)>) -> (r: Result<
    String,
    serde_json::Error,
>)
    ensures
        r is Ok,
        r->Ok_0@ == json_object_of(map_of(pair_views(pairs@))),
        (r->Ok_0@ == "{}"@) <==> map_of(pair_views(pairs@)).dom() =~= Set::<Seq<char>>::empty(),
{
    let mut obj = serde_json::Map::new();
    for p in pairs.iter() {
        obj.insert(p.0.clone(), serde_json::Value::String(p.1.clone()));
    }
    serde_json::to_string(&serde_json::Value::Object(obj))
}

} // verus!
