//! JSON values as trees.

use vstd::prelude::*;

use crate::rows::opt_view;
use crate::text::{parse_i64, parsed_i64, same_text};

verus! {

/// A number, as far as it is an integer.
#[derive(Debug, Clone, Copy, PartialEq, Eq, Structural)]
pub struct JsonNumber {
    pub signed: Option<i64>,
    pub unsigned: Option<u64>,
}

/// A JSON value.
#[derive(Debug, PartialEq, Eq)]
pub enum Json {
    Null,
    Bool(bool),
    Number(JsonNumber),
    Text(String),
    List(Vec<Json>),
    Object(Vec<JsonMember>),
}

/// A member of a JSON object.
#[derive(Debug, PartialEq, Eq)]
pub struct JsonMember {
    pub key: String,
    pub value: Json,
}

/// What a [`Json`] holds.
pub enum JsonTree {
    Null,
    Bool(bool),
    Number(JsonNumber),
    Text(Seq<char>),
    List(Seq<JsonTree>),
    Object(Seq<(Seq<char>, JsonTree)>),
}

/// The tree of a value.
pub open spec fn tree(j: Json) -> JsonTree
    decreases j,
{
    match j {
        Json::Null => JsonTree::Null,
        Json::Bool(b) => JsonTree::Bool(b),
        Json::Number(n) => JsonTree::Number(n),
        Json::Text(t) => JsonTree::Text(t@),
        Json::List(items) => JsonTree::List(
            Seq::new(
                items@.len(),
                |i: int|
                    if 0 <= i < items@.len() {
                        tree(items@[i])
                    } else {
                        JsonTree::Null
                    },
            ),
        ),
        Json::Object(members) => JsonTree::Object(
            Seq::new(
                members@.len(),
                |i: int|
                    if 0 <= i < members@.len() {
                        (members@[i].key@, tree(members@[i].value))
                    } else {
                        (Seq::empty(), JsonTree::Null)
                    },
            ),
        ),
    }
}

impl View for Json {
    type V = JsonTree;

    open spec fn view(&self) -> JsonTree {
        tree(*self)
    }
}

/// The tree of an optional value.
pub open spec fn opt_tree(j: Option<Json>) -> Option<JsonTree> {
    match j {
        Some(j) => Some(tree(j)),
        None => None,
    }
}

/// The tree of an optional borrowed value.
pub open spec fn ref_tree(j: Option<&Json>) -> Option<JsonTree> {
    match j {
        Some(j) => Some(tree(*j)),
        None => None,
    }
}

// --- parsing --------------------------------------------------------------------------

/// What a value of `serde_json` holds.
pub uninterp spec fn json_tree(value: serde_json::Value) -> JsonTree;

/// The JSON value that a text spells, if it spells one.
pub uninterp spec fn parsed_json(text: Seq<char>) -> Option<JsonTree>;

/// Copies a `serde_json::Value` member for member; a number is kept as far as its `as_i64`
/// and `as_u64` give it.
#[verifier::external_body]
fn json_of(value: &serde_json::Value) -> (r: Json)
    ensures
        tree(r) == json_tree(*value),
{
    match value {
        serde_json::Value::Null => Json::Null,
        serde_json::Value::Bool(b) => Json::Bool(*b),
        serde_json::Value::Number(n) => {
            Json::Number(JsonNumber { signed: n.as_i64(), unsigned: n.as_u64() })
        },
        serde_json::Value::String(s) => Json::Text(s.clone()),
        serde_json::Value::Array(list) => Json::List(list.iter().map(json_of).collect()),
        serde_json::Value::Object(map) => Json::Object(
            map.iter().map(|(k, v)| JsonMember { key: k.clone(), value: json_of(v) }).collect(),
        ),
    }
}

/// Parses a text with `serde_json::from_str`. The result depends on the text alone.
#[verifier::external_body]
fn parse_value(text: &str) -> (r: Option<serde_json::Value>)
    ensures
        match r {
            Some(v) => parsed_json(text@) == Some(json_tree(v)),
            None => parsed_json(text@) is None,
        },
{
    serde_json::from_str(text).ok()
}

/// Parses a line of a transcript.
pub fn parse_json_line(line: &str) -> (r: Option<Json>)
    ensures
        opt_tree(r) == parsed_json(line@),
{
    match parse_value(line) {
        Some(v) => Some(json_of(&v)),
        None => None,
    }
}

// --- reading --------------------------------------------------------------------------

/// The member of an object with a key.
pub open spec fn member(j: JsonTree, key: Seq<char>) -> Option<JsonTree> {
    match j {
        JsonTree::Object(ms) => match crate::rows::find_where(
            ms,
            |m: (Seq<char>, JsonTree)| m.0 == key,
        ) {
            Some(m) => Some(m.1),
            None => None,
        },
        _ => None,
    }
}

/// The member of an optional object with a key.
pub open spec fn opt_member(j: Option<JsonTree>, key: Seq<char>) -> Option<JsonTree> {
    match j {
        Some(j) => member(j, key),
        None => None,
    }
}

/// The text of a value that is one.
pub open spec fn text_of(j: Option<JsonTree>) -> Option<Seq<char>> {
    match j {
        Some(JsonTree::Text(t)) => Some(t),
        _ => None,
    }
}

/// The number that a count beyond the signed range wraps round to.
pub open spec fn wrapped(n: u64) -> i64 {
    if n > i64::MAX {
        (n - 0x1_0000_0000_0000_0000) as i64
    } else {
        n as i64
    }
}

/// The integer of a value that is one.
pub open spec fn int_of(j: Option<JsonTree>) -> Option<i64> {
    match j {
        Some(JsonTree::Number(n)) => match n.signed {
            Some(i) => Some(i),
            None => match n.unsigned {
                Some(u) => Some(wrapped(u)),
                None => None,
            },
        },
        _ => None,
    }
}

/// Finds the member of an object with a key.
pub fn get_member<'a>(j: &'a Json, key: &str) -> (r: Option<&'a Json>)
    ensures
        ref_tree(r) == member(tree(*j), key@),
{
    match j {
        Json::Object(members) => {
            let ghost ms = tree(*j)->Object_0;
            let ghost p = |m: (Seq<char>, JsonTree)| m.0 == key@;
            let mut i: usize = 0;
            while i < members.len()
                invariant
                    i <= members.len(),
                    tree(*j) == JsonTree::Object(ms),
                    *j == Json::Object(*members),
                    ms.len() == members@.len(),
                    p == (|m: (Seq<char>, JsonTree)| m.0 == key@),
                    forall|k: int| 0 <= k < i ==> !p(#[trigger] ms[k]),
                decreases members.len() - i,
            {
                assert(ms[i as int] == (
                    members@[i as int].key@,
                    tree(members@[i as int].value),
                ));
                if same_text(&members[i].key, key) {
                    proof {
                        crate::rows::first_where_is(ms, p, i as int);
                    }
                    return Some(&members[i].value);
                }
                i += 1;
            }
            proof {
                crate::rows::first_where_first(ms, p);
            }
            None
        },
        _ => None,
    }
}

/// Reads the member of an object with a key as a text.
pub fn get_optional_string(value: &Json, key: &str) -> (r: Option<String>)
    ensures
        opt_view(r) == text_of(member(tree(*value), key@)),
{
    match get_member(value, key) {
        Some(Json::Text(t)) => Some(t.clone()),
        _ => None,
    }
}

/// The texts of some borrowed strings.
pub open spec fn texts(keys: Seq<&str>) -> Seq<Seq<char>> {
    keys.map_values(|k: &str| k@)
}

/// The first of some members that is a text.
pub open spec fn any_text(j: JsonTree, keys: Seq<Seq<char>>) -> Option<Seq<char>>
    decreases keys.len(),
{
    if keys.len() == 0 {
        None
    } else {
        match text_of(member(j, keys[0])) {
            Some(t) => Some(t),
            None => any_text(j, keys.drop_first()),
        }
    }
}

/// The first of some members that is an integer.
pub open spec fn any_int(j: JsonTree, keys: Seq<Seq<char>>) -> Option<i64>
    decreases keys.len(),
{
    if keys.len() == 0 {
        None
    } else {
        match int_of(member(j, keys[0])) {
            Some(n) => Some(n),
            None => any_int(j, keys.drop_first()),
        }
    }
}

/// Reads the first of some members that is a text.
pub fn get_optional_string_any(value: &Json, keys: &[&str]) -> (r: Option<String>)
    ensures
        opt_view(r) == any_text(tree(*value), texts(keys@)),
{
    let ghost all = texts(keys@);
    let mut i: usize = 0;
    assert(all.skip(0) =~= all);
    while i < keys.len()
        invariant
            i <= keys.len(),
            all == texts(keys@),
            any_text(tree(*value), all) == any_text(tree(*value), all.skip(i as int)),
        decreases keys.len() - i,
    {
        assert(all.skip(i as int)[0] == keys@[i as int]@);
        assert(all.skip(i as int).drop_first() =~= all.skip(i + 1));
        match get_optional_string(value, keys[i]) {
            Some(t) => {
                return Some(t);
            },
            None => {},
        }
        i += 1;
    }
    None
}

fn get_int(value: &Json, key: &str) -> (r: Option<i64>)
    ensures
        r == int_of(member(tree(*value), key@)),
{
    match get_member(value, key) {
        Some(Json::Number(n)) => match n.signed {
            Some(i) => Some(i),
            None => match n.unsigned {
                Some(u) => Some(
                    if u > 0x7fff_ffff_ffff_ffff {
                        ((u as i128) - 0x1_0000_0000_0000_0000) as i64
                    } else {
                        u as i64
                    },
                ),
                None => None,
            },
        },
        _ => None,
    }
}

/// Reads the first of some members that is an integer.
pub fn get_i64_any_optional(value: &Json, keys: &[&str]) -> (r: Option<i64>)
    ensures
        r == any_int(tree(*value), texts(keys@)),
{
    let ghost all = texts(keys@);
    let mut i: usize = 0;
    assert(all.skip(0) =~= all);
    while i < keys.len()
        invariant
            i <= keys.len(),
            all == texts(keys@),
            any_int(tree(*value), all) == any_int(tree(*value), all.skip(i as int)),
        decreases keys.len() - i,
    {
        assert(all.skip(i as int)[0] == keys@[i as int]@);
        assert(all.skip(i as int).drop_first() =~= all.skip(i + 1));
        match get_int(value, keys[i]) {
            Some(n) => {
                return Some(n);
            },
            None => {},
        }
        i += 1;
    }
    None
}

/// The first of some members that is an integer, zero where none is.
pub open spec fn int_or_zero(j: JsonTree, keys: Seq<Seq<char>>) -> i64 {
    match any_int(j, keys) {
        Some(n) => n,
        None => 0,
    }
}

/// Reads the first of some members that is an integer, zero where none is.
pub fn get_i64_any(value: &Json, keys: &[&str]) -> (r: i64)
    ensures
        r == int_or_zero(tree(*value), texts(keys@)),
{
    match get_i64_any_optional(value, keys) {
        Some(n) => n,
        None => 0,
    }
}

// --- times ----------------------------------------------------------------------------

/// The milliseconds since the epoch of the time that an RFC 3339 text names.
pub uninterp spec fn rfc3339_millis(text: Seq<char>) -> Option<i64>;

/// Reads a time with `chrono::DateTime::parse_from_rfc3339` and gives its
/// `timestamp_millis`. The result depends on the text alone.
#[verifier::external_body]
fn parse_rfc3339(text: &str) -> (r: Option<i64>)
    ensures
        r == rfc3339_millis(text@),
{
    chrono::DateTime::parse_from_rfc3339(text).ok().map(|time| time.timestamp_millis())
}

/// The time of a text: that which its RFC 3339 reading names, or else its number.
pub open spec fn text_time(rfc3339: Option<i64>, text: Seq<char>) -> Option<i64> {
    match rfc3339 {
        Some(ms) => Some(ms),
        None => parsed_i64(text),
    }
}

/// Finds the time of a text whose RFC 3339 reading is known.
pub fn text_timestamp(rfc3339: Option<i64>, text: &str) -> (r: Option<i64>)
    ensures
        r == text_time(rfc3339, text@),
{
    match rfc3339 {
        Some(ms) => Some(ms),
        None => parse_i64(text),
    }
}

/// The time that a value names.
pub open spec fn time_of(j: Option<JsonTree>) -> Option<i64> {
    match j {
        Some(JsonTree::Number(n)) => n.signed,
        Some(JsonTree::Text(t)) => text_time(rfc3339_millis(t), t),
        _ => None,
    }
}

/// Reads the time that a value names.
pub fn parse_ts_ms(value: Option<&Json>) -> (r: Option<i64>)
    ensures
        r == time_of(ref_tree(value)),
{
    match value {
        Some(Json::Number(n)) => n.signed,
        Some(Json::Text(t)) => text_timestamp(parse_rfc3339(t), t),
        _ => None,
    }
}

} // verus!
