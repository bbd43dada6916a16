//! JSON values as `serde_json` holds them, seen as trees.

use serde_json::Value;
use vstd::prelude::*;

verus! {

/// A JSON value as the specifications see it. Numbers are never looked at.
#[verifier::ext_equal]
pub enum Tree {
    Null,
    Bool(bool),
    Number,
    Text(Seq<char>),
    Array(Seq<Tree>),
    Object(Map<Seq<char>, Tree>),
}

/// `serde_json::Value`, the parsed form of a JSON text.
#[verifier::external_type_specification]
#[verifier::external_body]
pub struct ExValue(serde_json::Value);

/// The tree that a `serde_json::Value` holds.
pub uninterp spec fn tree_of(value: serde_json::Value) -> Tree;

/// The tree that a JSON text denotes, where the bytes are one.
pub uninterp spec fn json_of(bytes: Seq<u8>) -> Option<Tree>;

/// The trees of a list of values.
pub open spec fn trees(values: Seq<serde_json::Value>) -> Seq<Tree> {
    values.map_values(|value: serde_json::Value| tree_of(value))
}

/// The member of an object under a key; other values have no members.
pub open spec fn member_of(tree: Tree, key: Seq<char>) -> Option<Tree> {
    match tree {
        Tree::Object(members) => if members.contains_key(key) {
            Some(members[key])
        } else {
            None
        },
        _ => None,
    }
}

/// The text of a string value.
pub open spec fn text_of_tree(tree: Option<Tree>) -> Option<Seq<char>> {
    match tree {
        Some(Tree::Text(text)) => Some(text),
        _ => None,
    }
}

/// The elements of an array value.
pub open spec fn elements_of(tree: Option<Tree>) -> Option<Seq<Tree>> {
    match tree {
        Some(Tree::Array(elements)) => Some(elements),
        _ => None,
    }
}

/// The text under a key of an object.
pub open spec fn text_member(tree: Tree, key: Seq<char>) -> Option<Seq<char>> {
    text_of_tree(member_of(tree, key))
}

/// The text under a key of an object that may be absent.
pub open spec fn text_member_of(tree: Option<Tree>, key: Seq<char>) -> Option<Seq<char>> {
    match tree {
        Some(t) => text_member(t, key),
        None => None,
    }
}

/// The array under a key of an object that may be absent.
pub open spec fn array_member_of(tree: Option<Tree>, key: Seq<char>) -> Option<Seq<Tree>> {
    match tree {
        Some(t) => elements_of(member_of(t, key)),
        None => None,
    }
}

/// The tree of a value that may be absent.
pub open spec fn tree_of_option(value: Option<&serde_json::Value>) -> Option<Tree> {
    match value {
        Some(v) => Some(tree_of(*v)),
        None => None,
    }
}

/// `serde_json::Value::as_str`: the text of a string value, nothing for any other.
pub assume_specification[ serde_json::Value::as_str ](value: &serde_json::Value) -> (found: Option<
    &str,
>)
    ensures
        match tree_of(*value) {
            Tree::Text(t) => found is Some && found->0@ == t,
            _ => found is None,
        },
;

/// `serde_json::Value::as_array`: the elements of an array value, nothing for any other.
pub assume_specification[ serde_json::Value::as_array ](value: &serde_json::Value) -> (elements:
    Option<&Vec<serde_json::Value>>)
    ensures
        match tree_of(*value) {
            Tree::Array(t) => elements is Some && trees(elements->0@) == t,
            _ => elements is None,
        },
;

/// `serde_json::Value::as_bool`: the truth value of a boolean, nothing for any other.
pub assume_specification[ serde_json::Value::as_bool ](value: &serde_json::Value) -> (flag: Option<
    bool,
>)
    ensures
        match tree_of(*value) {
            Tree::Bool(b) => flag == Some(b),
            _ => flag is None,
        },
;

/// `serde_json::Value::get` with a text index: the member of an object under that key;
/// nothing where the key is missing or the value is no object.
#[verifier::external_body]
pub(crate) fn member<'a>(value: &'a Value, key: &str) -> (found: Option<&'a Value>)
    ensures
        tree_of_option(found) == member_of(tree_of(*value), key@),
{
    value.get(key)
}

/// `serde_json::from_slice`: the value that a JSON text denotes, or nothing where the
/// bytes are no JSON text. The outcome depends on the bytes alone.
#[verifier::external_body]
pub(crate) fn parse(bytes: &[u8]) -> (value: Option<Value>)
    ensures
        match value {
            Some(v) => json_of(bytes@) == Some(tree_of(v)),
            None => json_of(bytes@) is None,
        },
{
    serde_json::from_slice::<Value>(bytes).ok()
}

/// The text under a key.
pub fn text_at<'a>(value: &'a Value, key: &str) -> (text: Option<&'a str>)
    ensures
        text.deep_view() == text_member(tree_of(*value), key@),
{
    match member(value, key) {
        Some(v) => v.as_str(),
        None => None,
    }
}

/// The text under a key of a value that may be absent.
pub fn text_within<'a>(value: Option<&'a Value>, key: &str) -> (text: Option<&'a str>)
    ensures
        text.deep_view() == text_member_of(tree_of_option(value), key@),
{
    match value {
        Some(v) => text_at(v, key),
        None => None,
    }
}

/// The array under a key of a value that may be absent.
pub fn array_within<'a>(value: Option<&'a Value>, key: &str) -> (elements: Option<&'a Vec<Value>>)
    ensures
        match elements {
            Some(e) => array_member_of(tree_of_option(value), key@) == Some(trees(e@)),
            None => array_member_of(tree_of_option(value), key@) is None,
        },
{
    match value {
        Some(v) => match member(v, key) {
            Some(w) => w.as_array(),
            None => None,
        },
        None => None,
    }
}

} // verus!
