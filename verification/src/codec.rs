//! Reading and writing JSON text, which `serde_json` does.
//!
//! Five functions of this file hand values to `serde_json` and take its
//! answers back: `parse_value`, `open_value`, `close_value`, `render_value`
//! and `error_text`. Their contracts say what is assumed of `serde_json`.
//! Everything else is proved from those contracts.

use crate::error::JsonError;
use crate::json::{
    Json, JsonValue, items_view, last_index, lemma_items_view, lemma_last_index,
    lemma_last_index_is, lemma_members_map, lemma_pairs_view, members_map, pairs_view,
};
use serde_json::Value;
use vstd::prelude::*;

verus! {

#[verifier::external_type_specification]
#[verifier::external_body]
pub struct ExValue(Value);

#[verifier::external_type_specification]
#[verifier::external_body]
pub struct ExError(serde_json::Error);

/// The document that a `serde_json::Value` holds: an integer number as
/// `Int`, any other number as `Real` in the notation that `serde_json` prints
/// it in, an object as the map of its members.
pub uninterp spec fn value_json(v: Value) -> JsonValue;

/// What `serde_json::from_slice` reads from a body: the document, or `None`
/// where it reports an error.
pub uninterp spec fn document_of(bytes: Seq<u8>) -> Option<JsonValue>;

/// The bytes that `serde_json::to_vec` writes for a document.
pub uninterp spec fn rendering_of(doc: JsonValue) -> Seq<u8>;

/// What `serde_json` makes of a number's notation when it parses it as a
/// `serde_json::Number`: the number it read, or `Null` where it read none.
pub uninterp spec fn number_of(notation: Seq<char>) -> JsonValue;

/// A document as `serde_json` takes it over: every number that is held by its
/// notation is read anew, everything else stays.
pub open spec fn settled(doc: JsonValue) -> JsonValue
    decreases doc,
{
    match doc {
        JsonValue::Real(notation) => number_of(notation),
        JsonValue::Array(items) => JsonValue::Array(
            Seq::new(
                items.len(),
                |i: int| if 0 <= i < items.len() { settled(items[i]) } else { JsonValue::Null },
            ),
        ),
        JsonValue::Object(members) => JsonValue::Object(
            Map::new(
                |name: Seq<char>| members.dom().contains(name),
                |name: Seq<char>| if members.dom().contains(name) {
                    settled(members[name])
                } else {
                    JsonValue::Null
                },
            ),
        ),
        _ => doc,
    }
}

/// One level of a JSON value: what kind of value it is, with the values
/// inside an array or an object still as `serde_json` holds them.
enum Node {
    Null,
    Bool(bool),
    Int(i64),
    UInt(u64),
    Real(String),
    Str(String),
    Array(Vec<Value>),
    Object(Vec<(String, Value)>),
}

/// The documents that a list of values holds, one by one.
spec fn parts_json(items: Seq<Value>) -> Seq<JsonValue> {
    Seq::new(items.len(), |i: int| value_json(items[i]))
}

/// The members that a list of named values holds, one by one.
spec fn named_json(members: Seq<(String, Value)>) -> Seq<(Seq<char>, JsonValue)> {
    Seq::new(members.len(), |i: int| (members[i].0@, value_json(members[i].1)))
}

/// Whether no name occurs twice in a list of named values.
spec fn names_differ(members: Seq<(String, Value)>) -> bool {
    forall|i: int, j: int|
        0 <= i < j < members.len() ==> (#[trigger] members[i]).0@ != (#[trigger] members[j]).0@
}

/// The document that one level of a value stands for.
spec fn node_json(node: Node) -> JsonValue {
    match node {
        Node::Null => JsonValue::Null,
        Node::Bool(b) => JsonValue::Bool(b),
        Node::Int(i) => JsonValue::Int(i as int),
        Node::UInt(u) => JsonValue::Int(u as int),
        Node::Real(notation) => JsonValue::Real(notation@),
        Node::Str(text) => JsonValue::Str(text@),
        Node::Array(items) => JsonValue::Array(parts_json(items@)),
        Node::Object(members) => JsonValue::Object(members_map(named_json(members@))),
    }
}

/// Calls `serde_json::from_slice` for a `serde_json::Value`. Assumed: what it
/// returns depends on the bytes alone.
#[verifier::external_body]
fn parse_value(bytes: &[u8]) -> (parsed: Result<Value, serde_json::Error>)
    ensures
        match parsed {
            Ok(v) => document_of(bytes@) == Some(value_json(v)),
            Err(_) => document_of(bytes@) is None,
        },
{
    serde_json::from_slice::<Value>(bytes)
}

/// Takes a `serde_json::Value` apart by one level, variant by variant. A
/// number becomes `Int` where `as_i64` gives it, `UInt` where only `as_u64`
/// does, and else `Real` with the text of its `to_string`; an object gives
/// the entries of its `serde_json::Map`. Assumed: the document that the value
/// holds is made of the documents that its parts hold, and a map has no name
/// twice.
#[verifier::external_body]
fn open_value(v: Value) -> (node: Node)
    ensures
        node_json(node) == value_json(v),
        node matches Node::Object(members) ==> names_differ(members@),
{
    match v {
        Value::Null => Node::Null,
        Value::Bool(b) => Node::Bool(b),
        Value::Number(n) => match (n.as_i64(), n.as_u64()) {
            (Some(i), _) => Node::Int(i),
            (_, Some(u)) => Node::UInt(u),
            _ => Node::Real(n.to_string()),
        },
        Value::String(s) => Node::Str(s),
        Value::Array(a) => Node::Array(a),
        Value::Object(m) => Node::Object(m.into_iter().collect()),
    }
}

/// Makes a `serde_json::Value` of one level, variant by variant. The
/// notation of a `Real` is parsed as a `serde_json::Number`, and gives `Null`
/// where that fails. The members of an object enter a `serde_json::Map` in
/// their order through `insert`, which lets a later member replace an earlier
/// one of the same name. Assumed: the value holds the document that is made
/// of the documents of the parts.
#[verifier::external_body]
fn close_value(node: Node) -> (v: Value)
    ensures
        node matches Node::Real(notation) ==> value_json(v) == number_of(notation@),
        !(node is Real) ==> value_json(v) == node_json(node),
{
    match node {
        Node::Null => Value::Null,
        Node::Bool(b) => Value::Bool(b),
        Node::Int(i) => Value::from(i),
        Node::UInt(u) => Value::from(u),
        Node::Real(t) => t.parse().map_or(Value::Null, Value::Number),
        Node::Str(s) => Value::String(s),
        Node::Array(a) => Value::Array(a),
        Node::Object(m) => {
            let mut o = serde_json::Map::new();
            m.into_iter().for_each(|(k, x)| { o.insert(k, x); });
            Value::Object(o)
        },
    }
}

/// Calls `serde_json::to_vec` on a `serde_json::Value`, for which it reports
/// no error. It writes compact text, the members of an object in the order of
/// their names. Assumed: the bytes depend on the document alone.
#[verifier::external_body]
fn render_value(v: &Value) -> (bytes: Vec<u8>)
    ensures
        bytes@ == rendering_of(value_json(*v)),
{
    serde_json::to_vec(v).unwrap_or_default()
}

/// Calls `to_string` on a `serde_json::Error`: its account of what is wrong
/// with a body. Nothing is assumed of the text.
#[verifier::external_body]
fn error_text(e: &serde_json::Error) -> (text: String) {
    e.to_string()
}

/// The same values in the opposite order.
fn turned<T>(values: Vec<T>) -> (back: Vec<T>)
    ensures
        back.len() == values.len(),
        forall|k: int| 0 <= k < back.len() ==> back@[k] == values@[values.len() - 1 - k],
{
    let ghost whole = values@;
    let mut rest = values;
    let mut back: Vec<T> = Vec::new();
    while rest.len() > 0
        invariant
            rest.len() <= whole.len(),
            rest@ =~= whole.take(rest.len() as int),
            back.len() == whole.len() - rest.len(),
            forall|k: int| 0 <= k < back.len() ==> back@[k] == whole[whole.len() - 1 - k],
        decreases rest.len(),
    {
        let last = rest.pop().unwrap();
        back.push(last);
    }
    back
}

/// The map of a list of members is finite.
proof fn lemma_members_map_finite(members: Seq<(Seq<char>, JsonValue)>)
    ensures
        members_map(members).dom().finite(),
    decreases members.len(),
{
    if members.len() > 0 {
        lemma_members_map_finite(members.drop_last());
    }
}

/// In a list without a name twice, every member is the member of its name in
/// the map.
proof fn lemma_named_member(members: Seq<(String, Value)>, at: int)
    requires
        names_differ(members),
        0 <= at < members.len(),
    ensures
        members_map(named_json(members)).dom().contains(members[at].0@),
        members_map(named_json(members))[members[at].0@] == value_json(members[at].1),
        members_map(named_json(members)).dom().finite(),
{
    let named = named_json(members);
    assert forall|j: int| at < j < named.len() implies (#[trigger] named[j]).0 != members[at].0@ by {
        assert(members[at].0@ != members[j].0@);
    }
    lemma_last_index_is(named, members[at].0@, at);
    lemma_members_map(named, members[at].0@);
    lemma_members_map_finite(named);
}

/// The tree for a `serde_json::Value`.
fn lift(v: Value) -> (j: Json)
    ensures
        j@ == value_json(v),
    decreases value_json(v), 1nat,
{
    match open_value(v) {
        Node::Null => Json::Null,
        Node::Bool(b) => Json::Bool(b),
        Node::Int(i) => Json::Int(i),
        Node::UInt(u) => Json::UInt(u),
        Node::Real(notation) => Json::Real(notation),
        Node::Str(text) => Json::Str(text),
        Node::Array(items) => Json::Array(lift_items(items)),
        Node::Object(members) => Json::Object(lift_members(members)),
    }
}

/// The trees for a list of values.
fn lift_items(items: Vec<Value>) -> (out: Vec<Json>)
    ensures
        items_view(out@) == parts_json(items@),
    decreases JsonValue::Array(parts_json(items@)), 0nat,
{
    let ghost whole = items@;
    let mut rest = turned(items);
    let mut out: Vec<Json> = Vec::new();
    while rest.len() > 0
        invariant
            rest.len() <= whole.len(),
            out.len() == whole.len() - rest.len(),
            whole == items@,
            forall|k: int| 0 <= k < rest.len() ==> rest@[k] == whole[whole.len() - 1 - k],
            forall|k: int| 0 <= k < out.len() ==> out@[k]@ == value_json(whole[k]),
        decreases rest.len(),
    {
        let ghost at = out.len() as int;
        let child = rest.pop().unwrap();
        proof {
            assert(child == whole[at]);
            let doc = JsonValue::Array(parts_json(whole));
            assert(doc->Array_0[at] == value_json(child));
            vstd::seq::axiom_seq_index_decreases(doc->Array_0, at);
            assert(decreases_to!(doc => value_json(child)));
        }
        out.push(lift(child));
    }
    proof {
        lemma_items_view(out@);
        assert(items_view(out@) =~= parts_json(whole));
    }
    out
}

/// The named trees for a list of named values.
fn lift_members(members: Vec<(String, Value)>) -> (out: Vec<(String, Json)>)
    requires
        names_differ(members@),
    ensures
        pairs_view(out@) == named_json(members@),
    decreases JsonValue::Object(members_map(named_json(members@))), 0nat,
{
    let ghost whole = members@;
    let mut rest = turned(members);
    let mut out: Vec<(String, Json)> = Vec::new();
    while rest.len() > 0
        invariant
            rest.len() <= whole.len(),
            out.len() == whole.len() - rest.len(),
            whole == members@,
            names_differ(whole),
            forall|k: int| 0 <= k < rest.len() ==> rest@[k] == whole[whole.len() - 1 - k],
            forall|k: int|
                0 <= k < out.len() ==> out@[k].0@ == whole[k].0@ && out@[k].1@ == value_json(
                    whole[k].1,
                ),
        decreases rest.len(),
    {
        let ghost at = out.len() as int;
        let member = rest.pop().unwrap();
        proof {
            assert(member == whole[at]);
            lemma_named_member(whole, at);
            let doc = JsonValue::Object(members_map(named_json(whole)));
            vstd::map::axiom_map_index_decreases_finite(doc->Object_0, whole[at].0@);
            assert(decreases_to!(doc => value_json(member.1)));
        }
        let name = member.0;
        let value = lift(member.1);
        out.push((name, value));
    }
    proof {
        lemma_pairs_view(out@);
        assert(pairs_view(out@) =~= named_json(whole));
    }
    out
}

/// Reading the numbers anew changes no name, so the last member of a name
/// stays where it is.
proof fn lemma_last_index_of_names(
    left: Seq<(Seq<char>, JsonValue)>,
    right: Seq<(Seq<char>, JsonValue)>,
    name: Seq<char>,
)
    requires
        left.len() == right.len(),
        forall|i: int| 0 <= i < left.len() ==> (#[trigger] left[i]).0 == (#[trigger] right[i]).0,
    ensures
        last_index(left, name) == last_index(right, name),
    decreases left.len(),
{
    if left.len() > 0 {
        assert(left.last().0 == right.last().0);
        lemma_last_index_of_names(left.drop_last(), right.drop_last(), name);
    }
}

/// The `serde_json::Value` for a tree.
fn lower(j: &Json) -> (v: Value)
    ensures
        value_json(v) == settled(j@),
    decreases j,
{
    match j {
        Json::Null => close_value(Node::Null),
        Json::Bool(b) => close_value(Node::Bool(*b)),
        Json::Int(i) => close_value(Node::Int(*i)),
        Json::UInt(u) => close_value(Node::UInt(*u)),
        Json::Real(notation) => close_value(Node::Real(notation.clone())),
        Json::Str(text) => close_value(Node::Str(text.clone())),
        Json::Array(items) => {
            let mut parts: Vec<Value> = Vec::new();
            let mut i: usize = 0;
            proof {
                lemma_items_view(items@);
            }
            while i < items.len()
                invariant
                    i <= items.len(),
                    parts.len() == i,
                    j is Array && j->Array_0 == *items,
                    items_view(items@).len() == items.len(),
                    forall|k: int|
                        0 <= k < items.len() ==> #[trigger] items_view(items@)[k] == items@[k]@,
                    forall|k: int| 0 <= k < i ==> value_json(parts@[k]) == settled(items@[k]@),
                decreases items.len() - i,
            {
                proof {
                    vstd::std_specs::vec::axiom_vec_index_decreases(*items, i as int);
                }
                parts.push(lower(&items[i]));
                i += 1;
            }
            proof {
                assert(settled(j@) is Array);
                assert(settled(j@)->Array_0 =~= parts_json(parts@));
            }
            close_value(Node::Array(parts))
        },
        Json::Object(members) => {
            let mut parts: Vec<(String, Value)> = Vec::new();
            let mut i: usize = 0;
            proof {
                lemma_pairs_view(members@);
            }
            while i < members.len()
                invariant
                    i <= members.len(),
                    parts.len() == i,
                    j is Object && j->Object_0 == *members,
                    forall|k: int|
                        0 <= k < i ==> parts@[k].0@ == members@[k].0@ && value_json(parts@[k].1)
                            == settled(members@[k].1@),
                decreases members.len() - i,
            {
                proof {
                    vstd::std_specs::vec::axiom_vec_index_decreases(*members, i as int);
                }
                parts.push((members[i].0.clone(), lower(&members[i].1)));
                i += 1;
            }
            proof {
                let before = pairs_view(members@);
                let after = named_json(parts@);
                let was = members_map(before);
                let now = members_map(after);
                assert(settled(j@) is Object);
                assert forall|name: Seq<char>|
                    #![trigger was.dom().contains(name)]
                    #![trigger now.dom().contains(name)]
                    was.dom().contains(name) == now.dom().contains(name) && (was.dom().contains(
                        name,
                    ) ==> now[name] == settled(was[name])) by {
                    lemma_last_index_of_names(before, after, name);
                    lemma_last_index(before, name);
                    lemma_members_map(before, name);
                    lemma_members_map(after, name);
                }
                assert(settled(j@)->Object_0 =~= now);
            }
            close_value(Node::Object(parts))
        },
    }
}

impl Json {
    /// Reads a body as one JSON document. Succeeds exactly where
    /// `serde_json` reads the body, and then with the document it read; a
    /// body that it refuses gives a syntax error.
    pub fn parse(bytes: &[u8]) -> (parsed: Result<Json, JsonError>)
        ensures
            match parsed {
                Ok(j) => document_of(bytes@) == Some(j@),
                Err(e) => document_of(bytes@) is None && e@ is Syntax,
            },
    {
        match parse_value(bytes) {
            Ok(v) => Ok(lift(v)),
            Err(e) => Err(JsonError::Syntax { detail: error_text(&e) }),
        }
    }

    /// Writes the document as compact JSON text.
    pub fn render(&self) -> (bytes: Vec<u8>)
        ensures
            bytes@ == rendering_of(settled(self@)),
    {
        let v = lower(self);
        render_value(&v)
    }
}

} // verus!
