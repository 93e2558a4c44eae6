//! JSON: what the library has from `serde_json`, and the small texts it writes itself.

use vstd::prelude::*;
use vstd::map::*;

use crate::rows::{opt_text, views};
use crate::text::{i64_text, int_text, owned};

verus! {

// --- objects --------------------------------------------------------------------------

/// The JSON value type of `serde_json`, carried through unread.
#[verifier::external_type_specification]
#[verifier::external_body]
pub struct ExValue(serde_json::Value);

/// The JSON object type of `serde_json`.
#[verifier::external_type_specification]
#[verifier::external_body]
#[verifier::reject_recursive_types(K)]
#[verifier::reject_recursive_types(V)]
pub struct ExMap<K, V>(serde_json::Map<K, V>);

/// The members of a JSON object: the JSON text of each key's value.
pub uninterp spec fn object_members(
    object: serde_json::Map<String, serde_json::Value>,
) -> Map<Seq<char>, Seq<char>>;

/// The members of the object that a text spells; `None` where it spells no JSON object.
pub uninterp spec fn parsed_object(text: Seq<char>) -> Option<Map<Seq<char>, Seq<char>>>;

/// The JSON text of a string.
pub uninterp spec fn json_string(s: Seq<char>) -> Seq<char>;

/// The JSON text of an object with the given members.
pub uninterp spec fn object_text(members: Map<Seq<char>, Seq<char>>) -> Seq<char>;

/// Reads a JSON object with `serde_json::from_str`. Whether there is one, and which members
/// it has, depends on the text alone.
#[verifier::external_body]
fn parse_object(text: &str) -> (r: Option<serde_json::Map<String, serde_json::Value>>)
    ensures
        match r {
            Some(object) => parsed_object(text@) == Some(object_members(object)),
            None => parsed_object(text@) is None,
        },
{
    match serde_json::from_str::<serde_json::Value>(text) {
        Ok(serde_json::Value::Object(object)) => Some(object),
        _ => None,
    }
}

/// The members of an empty object.
pub open spec fn no_members() -> Map<Seq<char>, Seq<char>> {
    Map::empty()
}

/// Makes an empty object with `serde_json::Map::new`.
#[verifier::external_body]
fn new_object() -> (r: serde_json::Map<String, serde_json::Value>)
    ensures
        object_members(r) == no_members(),
{
    serde_json::Map::new()
}

/// Sets a string member with `serde_json::Map::insert`, which replaces a value the key had.
#[verifier::external_body]
fn insert_string(
    object: &mut serde_json::Map<String, serde_json::Value>,
    key: &str,
    value: &str,
)
    ensures
        object_members(*final(object)) == object_members(*old(object)).insert(
            key@,
            json_string(value@),
        ),
{
    object.insert(key.to_string(), serde_json::Value::String(value.to_string()));
}

/// Writes an object with the `Display` formatting of `serde_json::Value`, which depends on
/// the members alone.
#[verifier::external_body]
fn write_object(object: serde_json::Map<String, serde_json::Value>) -> (r: String)
    ensures
        r@ == object_text(object_members(object)),
{
    serde_json::Value::Object(object).to_string()
}

/// The members of the object that a text spells; none where it spells no object.
pub open spec fn members_or_none(text: Option<Seq<char>>) -> Map<Seq<char>, Seq<char>> {
    match text {
        Some(t) => match parsed_object(t) {
            Some(members) => members,
            None => no_members(),
        },
        None => no_members(),
    }
}

/// The metadata of a memory with the reason for archiving it added.
pub open spec fn with_archive_reason(existing: Option<Seq<char>>, reason: Seq<char>) -> Seq<char> {
    object_text(members_or_none(existing).insert("archive_reason"@, json_string(reason)))
}

/// Adds the reason for archiving a memory to its metadata.
pub fn merge_archive_reason(existing: Option<&str>, reason: &str) -> (r: String)
    ensures
        r@ == with_archive_reason(opt_text(existing), reason@),
{
    let parsed = match existing {
        Some(text) => parse_object(text),
        None => None,
    };
    let mut object = match parsed {
        Some(object) => object,
        None => new_object(),
    };
    insert_string(&mut object, "archive_reason", reason);
    write_object(object)
}

// --- lists ----------------------------------------------------------------------------

/// The elements of the JSON array that a text spells, each as an integer where it is one;
/// `None` where the text spells no array.
pub uninterp spec fn parsed_ints(text: Seq<char>) -> Option<Seq<Option<i64>>>;

/// Reads a JSON array with `serde_json::from_str` and each element with
/// `serde_json::Value::as_i64`. The result depends on the text alone.
#[verifier::external_body]
pub(crate) fn parse_int_array(text: &str) -> (r: Option<Vec<Option<i64>>>)
    ensures
        match r {
            Some(ints) => parsed_ints(text@) == Some(ints@),
            None => parsed_ints(text@) is None,
        },
{
    match serde_json::from_str::<serde_json::Value>(text) {
        Ok(serde_json::Value::Array(values)) => Some(values.iter().map(|v| v.as_i64()).collect()),
        _ => None,
    }
}

/// The strings of the JSON array of strings that a text spells.
pub uninterp spec fn parsed_strings(text: Seq<char>) -> Option<Seq<Seq<char>>>;

/// The JSON text of a list of strings.
pub uninterp spec fn strings_text(list: Seq<Seq<char>>) -> Seq<char>;

/// Reads a JSON array of strings with `serde_json::from_str`. The result depends on the
/// text alone.
#[verifier::external_body]
pub(crate) fn parse_strings(text: &str) -> (r: Option<Vec<String>>)
    ensures
        match r {
            Some(list) => parsed_strings(text@) == Some(views(list@)),
            None => parsed_strings(text@) is None,
        },
{
    serde_json::from_str::<Vec<String>>(text).ok()
}

/// Writes a list of strings as JSON with `serde_json::to_string`. The text depends on the
/// strings alone, and reading it gives them back.
#[verifier::external_body]
pub(crate) fn write_strings(list: &Vec<String>) -> (r: String)
    ensures
        r@ == strings_text(views(list@)),
        parsed_strings(r@) == Some(views(list@)),
{
    serde_json::to_string(list).unwrap_or_default()
}

/// The numbers with a comma between them.
pub open spec fn comma_separated(ids: Seq<i64>) -> Seq<char>
    decreases ids.len(),
{
    if ids.len() == 0 {
        Seq::empty()
    } else if ids.len() == 1 {
        int_text(ids[0] as int)
    } else {
        comma_separated(ids.drop_last()) + ","@ + int_text(ids.last() as int)
    }
}

/// The JSON text of a list of numbers.
pub open spec fn ids_text(ids: Seq<i64>) -> Seq<char> {
    "["@ + comma_separated(ids) + "]"@
}

/// Writes a list of numbers as JSON.
pub fn write_ids(ids: &Vec<i64>) -> (r: String)
    ensures
        r@ == ids_text(ids@),
{
    let mut body = String::new();
    let mut i: usize = 0;
    while i < ids.len()
        invariant
            i <= ids.len(),
            body@ == comma_separated(ids@.take(i as int)),
        decreases ids.len() - i,
    {
        assert(ids@.take(i + 1).drop_last() =~= ids@.take(i as int));
        let number = i64_text(ids[i]);
        if i == 0 {
            body = number;
        } else {
            body.append(",");
            body.append(&number);
        }
        i += 1;
    }
    assert(ids@.take(ids@.len() as int) =~= ids@);
    let mut r = owned("[");
    r.append(&body);
    r.append("]");
    r
}

/// Lists of numbers are written one behind the other with a comma between them.
pub proof fn lists_of_numbers_are_written_in_turn(a: Seq<i64>, b: Seq<i64>, n: i64)
    ensures
        a.len() > 0 && b.len() > 0 ==> comma_separated(a + b) == comma_separated(a) + ","@
            + comma_separated(b),
        comma_separated(seq![n]) == int_text(n as int),
        comma_separated(Seq::empty()).len() == 0,
        ids_text(a) == "["@ + comma_separated(a) + "]"@,
    decreases b.len(),
{
    if a.len() > 0 && b.len() > 1 {
        let less = b.drop_last();
        lists_of_numbers_are_written_in_turn(a, less, n);
        assert((a + b).drop_last() =~= a + less);
        assert(comma_separated(a + b) =~= comma_separated(a) + ","@ + comma_separated(b));
    } else if a.len() > 0 && b.len() == 1 {
        assert((a + b).drop_last() =~= a);
        assert(comma_separated(b) == int_text(b[0] as int));
        assert(comma_separated(a + b) =~= comma_separated(a) + ","@ + comma_separated(b));
    }
}

} // verus!
