//! JSON documents as plain trees.
//!
//! Reading the text of a document is left to `serde_json`. What it reads is
//! copied into a tree of this crate, [`Json`], so that everything the crate
//! decides about a document is decided on plain values.

use serde_json::Value;
use vstd::prelude::*;

verus! {

/// A JSON document.
#[derive(Debug, PartialEq, Eq)]
pub enum Json {
    Null,
    Bool(bool),
    /// A whole number that fits in `i64`.
    Int(i64),
    /// A whole number above the range of `i64`.
    UInt(u64),
    /// Any other number, as its decimal text.
    Decimal(String),
    Text(String),
    Array(Vec<Json>),
    /// The members of an object, each a name and a value.
    Object(Vec<(String, Json)>),
}

/// What a [`Json`] tree stands for: the same tree over mathematical
/// sequences and integers. `Int(5)` and `UInt(5)` stand for the same number.
pub enum JsonView {
    Null,
    Bool(bool),
    Integer(int),
    Decimal(Seq<char>),
    Text(Seq<char>),
    Array(Seq<JsonView>),
    Object(Seq<(Seq<char>, JsonView)>),
}

impl View for Json {
    type V = JsonView;

    open spec fn view(&self) -> JsonView {
        tree_view(*self)
    }
}

/// What `tree` stands for.
pub open spec fn tree_view(tree: Json) -> JsonView
    decreases tree,
{
    match tree {
        Json::Null => JsonView::Null,
        Json::Bool(b) => JsonView::Bool(b),
        Json::Int(i) => JsonView::Integer(i as int),
        Json::UInt(u) => JsonView::Integer(u as int),
        Json::Decimal(text) => JsonView::Decimal(text@),
        Json::Text(text) => JsonView::Text(text@),
        Json::Array(items) => JsonView::Array(item_views(items@)),
        Json::Object(members) => JsonView::Object(member_views(members@)),
    }
}

/// The views of the items of an array, in order.
pub open spec fn item_views(items: Seq<Json>) -> Seq<JsonView>
    decreases items,
{
    if items.len() == 0 {
        Seq::empty()
    } else {
        item_views(items.drop_last()).push(tree_view(items.last()))
    }
}

/// The views of the members of an object, in order.
pub open spec fn member_views(members: Seq<(String, Json)>) -> Seq<(Seq<char>, JsonView)>
    decreases members,
{
    if members.len() == 0 {
        Seq::empty()
    } else {
        member_views(members.drop_last()).push((members.last().0@, tree_view(members.last().1)))
    }
}

/// The views of the items stand at the places of the items.
pub proof fn lemma_item_views(items: Seq<Json>)
    ensures
        item_views(items).len() == items.len(),
        forall|i: int| 0 <= i < items.len() ==> (#[trigger] item_views(items)[i]) == items[i]@,
    decreases items.len(),
{
    if items.len() > 0 {
        lemma_item_views(items.drop_last());
    }
}

/// The views of the members stand at the places of the members.
pub proof fn lemma_member_views(members: Seq<(String, Json)>)
    ensures
        member_views(members).len() == members.len(),
        forall|i: int|
            0 <= i < members.len() ==> (#[trigger] member_views(members)[i]) == (
                members[i].0@,
                members[i].1@,
            ),
    decreases members.len(),
{
    if members.len() > 0 {
        lemma_member_views(members.drop_last());
    }
}

/// `serde_json::Value`, carried through as it is.
#[verifier::external_type_specification]
#[verifier::external_body]
pub struct ExValue(serde_json::Value);

/// The document that a JSON text denotes, or `None` where the bytes are not
/// one JSON text.
pub uninterp spec fn parsed_json(bytes: Seq<u8>) -> Option<JsonView>;

/// The tree that a value of `serde_json` holds.
pub uninterp spec fn value_tree(value: Value) -> JsonView;

/// `serde_json::from_slice`, reading the bytes as one `serde_json::Value`.
/// The contract claims only that what is read depends on the bytes alone:
/// it is the tree named `parsed_json`, and a failure is a failure for these
/// bytes whenever they are read. Nothing is claimed of the error's text.
#[verifier::external_body]
fn read_value(bytes: &[u8]) -> (read: Result<Value, String>)
    ensures
        match read {
            Ok(value) => parsed_json(bytes@) == Some(value_tree(value)),
            Err(_) => parsed_json(bytes@) is None,
        },
{
    serde_json::from_slice::<Value>(bytes).map_err(|e| e.to_string())
}

/// Copies a `serde_json::Value` into a tree of this crate, variant by
/// variant. A number becomes `Int` where `Number::as_i64` gives one, `UInt`
/// where only `Number::as_u64` does, and otherwise `Decimal` with the text
/// that `serde_json` prints for it. The contract names the result: it is
/// the tree that the value holds.
#[verifier::external_body]
fn tree_of(value: &Value) -> (tree: Json)
    ensures
        tree@ == value_tree(*value),
{
    match value {
        Value::Null => Json::Null,
        Value::Bool(b) => Json::Bool(*b),
        Value::Number(n) => match (n.as_i64(), n.as_u64()) {
            (Some(i), _) => Json::Int(i),
            (None, Some(u)) => Json::UInt(u),
            (None, None) => Json::Decimal(n.to_string()),
        },
        Value::String(s) => Json::Text(s.clone()),
        Value::Array(items) => Json::Array(items.iter().map(tree_of).collect()),
        Value::Object(members) => Json::Object(
            members.iter().map(|(name, member)| (name.clone(), tree_of(member))).collect(),
        ),
    }
}

/// The JSON text that a value of `serde_json` is written as.
pub uninterp spec fn value_text(value: Value) -> Seq<u8>;

/// The JSON text that a document is written as.
pub uninterp spec fn json_text(tree: JsonView) -> Seq<u8>;

/// Copies a tree of this crate into a `serde_json::Value`, variant by
/// variant. The text of a `Decimal` is read by `serde_json` as a number,
/// and stands as `null` where it is none. The members of an object go into
/// a `serde_json::Map`, which keeps one value for each name. The contract
/// claims that the text the value is written as depends on what the tree
/// stands for alone.
#[verifier::external_body]
fn value_of(tree: &Json) -> (value: Value)
    ensures
        value_text(value) == json_text(tree@),
{
    match tree {
        Json::Null => Value::Null,
        Json::Bool(b) => Value::Bool(*b),
        Json::Int(i) => Value::from(*i),
        Json::UInt(u) => Value::from(*u),
        Json::Decimal(text) => serde_json::from_str(text).map_or(Value::Null, Value::Number),
        Json::Text(text) => Value::String(text.clone()),
        Json::Array(items) => Value::Array(items.iter().map(value_of).collect()),
        Json::Object(members) => Value::Object(
            members.iter().map(|(name, member)| (name.clone(), value_of(member))).collect(),
        ),
    }
}

/// `serde_json::to_vec` on a `serde_json::Value`: the value as JSON text,
/// without spaces between the parts. Writing a `Value` does not fail.
#[verifier::external_body]
fn write_value(value: &Value) -> (bytes: Vec<u8>)
    ensures
        bytes@ == value_text(*value),
{
    serde_json::to_vec(value).unwrap_or_default()
}

impl Json {
    /// The document as JSON text.
    pub fn print(&self) -> (bytes: Vec<u8>)
        ensures
            bytes@ == json_text(self@),
    {
        let value = value_of(self);
        write_value(&value)
    }

    /// A tree with the same content.
    pub fn copy(&self) -> (same: Json)
        ensures
            same@ == self@,
        decreases self,
    {
        match self {
            Json::Null => Json::Null,
            Json::Bool(b) => Json::Bool(*b),
            Json::Int(i) => Json::Int(*i),
            Json::UInt(u) => Json::UInt(*u),
            Json::Decimal(text) => Json::Decimal(text.clone()),
            Json::Text(text) => Json::Text(text.clone()),
            Json::Array(items) => {
                let mut copies: Vec<Json> = Vec::new();
                let mut i: usize = 0;
                while i < items.len()
                    invariant
                        *self == Json::Array(*items),
                        i <= items.len(),
                        copies.len() == i,
                        forall|k: int| 0 <= k < i ==> (#[trigger] copies[k])@ == items[k]@,
                    decreases items.len() - i,
                {
                    assert(decreases_to!(*self => self->Array_0));
                    assert(decreases_to!(*items => items[i as int]));
                    let item = items[i].copy();
                    copies.push(item);
                    i += 1;
                }
                proof {
                    lemma_item_views(items@);
                    lemma_item_views(copies@);
                    assert(item_views(copies@) =~= item_views(items@));
                }
                Json::Array(copies)
            },
            Json::Object(members) => {
                let mut copies: Vec<(String, Json)> = Vec::new();
                let mut i: usize = 0;
                while i < members.len()
                    invariant
                        *self == Json::Object(*members),
                        i <= members.len(),
                        copies.len() == i,
                        forall|k: int|
                            0 <= k < i ==> (#[trigger] copies[k]).0@ == members[k].0@
                                && copies[k].1@ == members[k].1@,
                    decreases members.len() - i,
                {
                    let name = members[i].0.clone();
                    assert(decreases_to!(*self => self->Object_0));
                    assert(decreases_to!(*members => members[i as int]));
                    assert(decreases_to!(members[i as int] => members[i as int].1));
                    let value = members[i].1.copy();
                    copies.push((name, value));
                    i += 1;
                }
                proof {
                    lemma_member_views(members@);
                    lemma_member_views(copies@);
                    assert(member_views(copies@) =~= member_views(members@));
                }
                Json::Object(copies)
            },
        }
    }

    /// Reads `bytes` as one JSON text. The error is the reader's message.
    pub fn parse(bytes: &[u8]) -> (parsed: Result<Json, String>)
        ensures
            match parsed {
                Ok(tree) => parsed_json(bytes@) == Some(tree@),
                Err(_) => parsed_json(bytes@) is None,
            },
    {
        match read_value(bytes) {
            Ok(value) => Ok(tree_of(&value)),
            Err(message) => Err(message),
        }
    }
}

} // verus!
