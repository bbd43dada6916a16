//! Members of JSON values.

use crate::json;
use crate::json::Tree;
use vstd::prelude::*;

verus! {

/// A text is found under a key exactly where the value is an object that has a text there.
pub proof fn law_text_member_is_a_text_of_an_object(tree: Tree, key: Seq<char>, found: Seq<char>)
    ensures
        json::text_member(tree, key) == Some(found) <==> (tree is Object
            && tree->Object_0.contains_key(key) && tree->Object_0[key] == Tree::Text(found)),
        json::text_member_of(Some(tree), key) == json::text_member(tree, key),
        json::text_member_of(None, key) is None,
{
}

/// Elements are found under a key exactly where the value is an object that has an array there.
pub proof fn law_array_member_is_an_array_of_an_object(
    tree: Tree,
    key: Seq<char>,
    found: Seq<Tree>,
)
    ensures
        json::array_member_of(Some(tree), key) == Some(found) <==> (tree is Object
            && tree->Object_0.contains_key(key) && tree->Object_0[key] == Tree::Array(found)),
        json::array_member_of(None, key) is None,
        json::member_of(tree, key) is Some <==> (tree is Object && tree->Object_0.contains_key(
            key,
        )),
        json::member_of(tree, key) is Some ==> json::member_of(tree, key)
            == Some(tree->Object_0[key]),
{
}

} // verus!
