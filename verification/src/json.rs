//! JSON as far as the analyzer reads and writes it, by `serde_json`.

use crate::text::same_text;
use vstd::prelude::*;

verus! {

/// The members of the JSON object that a text holds, as key and compact JSON
/// text of the value, in the order of the keys; `None` for a text that is not
/// a JSON object.
pub uninterp spec fn json_members(text: Seq<char>) -> Option<Seq<(Seq<char>, Seq<char>)>>;

/// The string that a JSON text denotes; `None` for a text that is not a JSON string.
pub uninterp spec fn json_string(text: Seq<char>) -> Option<Seq<char>>;

/// The compact JSON text (object keys sorted) of the value that a text holds;
/// `None` for a text that is not JSON.
pub uninterp spec fn json_compact(text: Seq<char>) -> Option<Seq<char>>;

/// The compact JSON text of the object with these members, all of them strings.
pub uninterp spec fn json_object_text(members: Seq<(Seq<char>, Seq<char>)>) -> Seq<char>;

/// The members of an object, by key and text.
pub open spec fn members_view(v: Seq<(String, String)>) -> Seq<(Seq<char>, Seq<char>)> {
    Seq::new(v.len(), |i: int| (v[i].0@, v[i].1@))
}

/// A JSON value of `serde_json`.
#[verifier::external_type_specification]
#[verifier::external_body]
pub struct ExValue(serde_json::Value);

/// A JSON object of `serde_json`.
#[verifier::external_type_specification]
#[verifier::external_body]
#[verifier::reject_recursive_types(K)]
#[verifier::reject_recursive_types(V)]
pub struct ExMap<K, V>(serde_json::Map<K, V>);

/// What an object holds: its members as key and compact JSON text of the
/// value, in the order of the keys. The text tells the value.
pub uninterp spec fn object_members(
    object: serde_json::Map<String, serde_json::Value>,
) -> Seq<(Seq<char>, Seq<char>)>;

/// The members of the object whose compact text is `text`; `None` for the
/// text of a value that is no object.
pub uninterp spec fn value_members(text: Seq<char>) -> Option<Seq<(Seq<char>, Seq<char>)>>;

/// Whether `serde_json` takes the objects with these members for equal.
pub uninterp spec fn json_same(
    a: Seq<(Seq<char>, Seq<char>)>,
    b: Seq<(Seq<char>, Seq<char>)>,
) -> bool;

/// Whether a text comes before another one: at the first place where they
/// differ it has the lower character, or it ends there.
pub open spec fn comes_first(a: Seq<char>, b: Seq<char>) -> bool {
    exists|k: int|
        0 <= k <= a.len() && k < b.len() && #[trigger] a.take(k) == b.take(k) && (k == a.len()
            || a[k] < b[k])
}

/// Whether the keys of members ascend; then none stands there twice.
pub open spec fn keys_ascend(members: Seq<(Seq<char>, Seq<char>)>) -> bool {
    forall|i: int, j: int|
        0 <= i < j < members.len() ==> comes_first(
            (#[trigger] members[i]).0,
            (#[trigger] members[j]).0,
        )
}

/// `serde_json::from_str` into `serde_json::Map`: a function of the text
/// alone, whose result is named. The map keeps its keys in order.
#[verifier::external_body]
pub(crate) fn parse_object(text: &str) -> (r: Option<serde_json::Map<String, serde_json::Value>>)
    ensures
        match r {
            Some(m) => json_members(text@) == Some(object_members(m)) && keys_ascend(
                object_members(m),
            ),
            None => json_members(text@) is None,
        },
{
    serde_json::from_str::<serde_json::Map<String, serde_json::Value>>(text).ok()
}

/// The entries of a `serde_json::Map`, each value written by
/// `Value::to_string`: what the map holds.
#[verifier::external_body]
pub(crate) fn object_entries(object: &serde_json::Map<String, serde_json::Value>) -> (r: Vec<
    (String, String),
>)
    ensures
        members_view(r@) == object_members(*object),
{
    object.iter().map(|e| (e.0.clone(), e.1.to_string())).collect()
}

/// `serde_json::Map::get`, where the value is an object: it is a function of
/// the compact text of the value, and named.
#[verifier::external_body]
pub(crate) fn object_in(
    object: &serde_json::Map<String, serde_json::Value>,
    key: &str,
) -> (r: Option<serde_json::Map<String, serde_json::Value>>)
    ensures
        match (member(object_members(*object), key@), r) {
            (Some(text), Some(m)) => value_members(text) == Some(object_members(m)) && keys_ascend(
                object_members(m),
            ),
            (Some(text), None) => value_members(text) is None,
            (None, m) => m is None,
        },
{
    object.get(key).and_then(|v| v.as_object()).cloned()
}

/// `==` of two `serde_json::Map`s: a function of what they hold, whose result
/// is named. Objects with the same members are equal.
#[verifier::external_body]
pub(crate) fn same_objects(
    a: &serde_json::Map<String, serde_json::Value>,
    b: &serde_json::Map<String, serde_json::Value>,
) -> (r: bool)
    ensures
        r == json_same(object_members(*a), object_members(*b)),
        object_members(*a) == object_members(*b) ==> r,
{
    a == b
}

/// The members of the JSON object that a text holds.
pub(crate) fn parse_members(text: &str) -> (r: Option<Vec<(String, String)>>)
    ensures
        match r {
            Some(v) => json_members(text@) == Some(members_view(v@)),
            None => json_members(text@) is None,
        },
{
    match parse_object(text) {
        Some(m) => Some(object_entries(&m)),
        None => None,
    }
}

/// `serde_json::from_str` into `String`: a function of the text alone, whose
/// result is named.
#[verifier::external_body]
pub(crate) fn parse_string(text: &str) -> (r: Option<String>)
    ensures
        match r {
            Some(s) => json_string(text@) == Some(s@),
            None => json_string(text@) is None,
        },
{
    serde_json::from_str::<String>(text).ok()
}

/// `serde_json::from_str` into `serde_json::Value` and `Value::to_string`: a
/// function of the text alone, whose result is named.
#[verifier::external_body]
pub(crate) fn compact(text: &str) -> (r: Option<String>)
    ensures
        match r {
            Some(s) => json_compact(text@) == Some(s@),
            None => json_compact(text@) is None,
        },
{
    serde_json::from_str::<serde_json::Value>(text).ok().map(|v| v.to_string())
}

/// `Value::to_string` of a `serde_json::Map` of strings: a function of the
/// members alone, whose result is named.
#[verifier::external_body]
pub(crate) fn object_text(members: Vec<(String, String)>) -> (r: String)
    ensures
        r@ == json_object_text(members_view(members@)),
{
    let map: serde_json::Map<String, serde_json::Value> = members.into_iter().map(
        |e| (e.0, serde_json::Value::String(e.1)),
    ).collect();
    serde_json::Value::Object(map).to_string()
}

/// The text of the first member named `key`.
pub open spec fn member(members: Seq<(Seq<char>, Seq<char>)>, key: Seq<char>) -> Option<Seq<char>>
    decreases members.len(),
{
    if members.len() == 0 {
        None
    } else if members[0].0 == key {
        Some(members[0].1)
    } else {
        member(members.skip(1), key)
    }
}

/// Finds a member by key.
pub(crate) fn find_member<'a>(members: &'a Vec<(String, String)>, key: &str) -> (r: Option<&'a str>)
    ensures
        match r {
            Some(s) => member(members_view(members@), key@) == Some(s@),
            None => member(members_view(members@), key@) is None,
        },
{
    let ghost all = members_view(members@);
    let mut i: usize = 0;
    assert(all.skip(0) =~= all);
    while i < members.len()
        invariant
            i <= members.len(),
            all == members_view(members@),
            member(all, key@) == member(all.skip(i as int), key@),
        decreases members.len() - i,
    {
        assert(all.skip(i as int)[0] == all[i as int]);
        if same_text(members[i].0.as_str(), key) {
            return Some(members[i].1.as_str());
        }
        assert(all.skip(i as int).skip(1) =~= all.skip(i + 1));
        i += 1;
    }
    None
}

} // verus!
