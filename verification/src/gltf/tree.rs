//! JSON values of `serde_json`, seen as trees.
//!
//! The values stay those of `serde_json`. What a value holds is named as a tree, and each item below
//! says of one call into the crate what it reads from a tree or makes of it.
use serde_json::Value;
use vstd::prelude::*;

verus! {

#[verifier::external_type_specification]
#[verifier::external_body]
pub struct ExValue(serde_json::Value);

/// A JSON tree. Objects are maps from keys to trees.
pub enum JsonTree {
    Null,
    Bool(bool),
    /// A number that is written as a natural number and fits in 64 bits.
    Natural(nat),
    /// Any other number, by its text.
    Number(Seq<char>),
    Str(Seq<char>),
    Arr(Seq<JsonTree>),
    Obj(Map<Seq<char>, JsonTree>),
}

/// What a value holds.
pub uninterp spec fn tree_in(value: serde_json::Value) -> JsonTree;

/// What `serde_json` reads from bytes: a tree, or the words of its error.
pub uninterp spec fn json_read(bytes: Seq<u8>) -> Result<JsonTree, Seq<char>>;

/// What `serde_json` writes for a tree: bytes, or the words of its error.
pub uninterp spec fn json_written(tree: JsonTree) -> Result<Seq<u8>, Seq<char>>;

/// What a list of values holds.
pub open spec fn trees_in(list: Seq<Value>) -> Seq<JsonTree> {
    list.map_values(|v: Value| tree_in(v))
}

/// What stands under a key of a tree; nothing where the tree is no object.
pub open spec fn field(tree: JsonTree, key: Seq<char>) -> Option<JsonTree> {
    match tree {
        JsonTree::Obj(map) => if map.contains_key(key) {
            Some(map[key])
        } else {
            None
        },
        _ => None,
    }
}

/// The natural number under a key of a tree.
pub open spec fn natural_field(tree: JsonTree, key: Seq<char>) -> Option<nat> {
    match field(tree, key) {
        Some(JsonTree::Natural(n)) => Some(n),
        _ => None,
    }
}

/// The text under a key of a tree.
pub open spec fn text_field(tree: JsonTree, key: Seq<char>) -> Option<Seq<char>> {
    match field(tree, key) {
        Some(JsonTree::Str(s)) => Some(s),
        _ => None,
    }
}

/// Calls `serde_json::from_slice`: the value that the bytes hold, or the words of the error. Both
/// depend on the bytes alone.
#[verifier::external_body]
pub(crate) fn parse(bytes: &[u8]) -> (r: Result<Value, String>)
    ensures
        match json_read(bytes@) {
            Ok(tree) => r matches Ok(v) && tree_in(v) == tree,
            Err(words) => r matches Err(message) && message@ == words,
        },
{
    serde_json::from_slice(bytes).map_err(|e| e.to_string())
}

/// Calls `serde_json::to_vec`: the bytes of a value, or the words of the error. Objects are written
/// with their keys in order, so that both depend on what the value holds alone.
#[verifier::external_body]
pub(crate) fn write(value: &Value) -> (r: Result<Vec<u8>, String>)
    ensures
        match json_written(tree_in(*value)) {
            Ok(bytes) => r matches Ok(out) && out@ == bytes,
            Err(words) => r matches Err(message) && message@ == words,
        },
{
    serde_json::to_vec(value).map_err(|e| e.to_string())
}

/// Calls `serde_json::Value::is_object`.
#[verifier::external_body]
pub(crate) fn is_object(value: &Value) -> (r: bool)
    ensures
        r == (tree_in(*value) is Obj),
{
    value.is_object()
}

/// Calls `serde_json::Value::get` with a key: what stands under it, and nothing where the value is no
/// object.
#[verifier::external_body]
pub(crate) fn get<'a>(value: &'a Value, key: &str) -> (r: Option<&'a Value>)
    ensures
        match field(tree_in(*value), key@) {
            Some(tree) => r matches Some(v) && tree_in(*v) == tree,
            None => r is None,
        },
{
    value.get(key)
}

/// Calls `serde_json::Value::as_u64`.
#[verifier::external_body]
pub(crate) fn as_natural(value: &Value) -> (r: Option<u64>)
    ensures
        match tree_in(*value) {
            JsonTree::Natural(n) => r matches Some(m) && m as nat == n,
            _ => r is None,
        },
{
    value.as_u64()
}

/// Calls `serde_json::Value::as_str`.
#[verifier::external_body]
pub(crate) fn as_text(value: &Value) -> (r: Option<&str>)
    ensures
        match tree_in(*value) {
            JsonTree::Str(text) => r matches Some(s) && s@ == text,
            _ => r is None,
        },
{
    value.as_str()
}

/// Calls `serde_json::Value::as_array`.
#[verifier::external_body]
pub(crate) fn as_list(value: &Value) -> (r: Option<&Vec<Value>>)
    ensures
        match tree_in(*value) {
            JsonTree::Arr(trees) => r matches Some(list) && trees_in(list@) == trees,
            _ => r is None,
        },
{
    value.as_array()
}

/// Calls `serde_json::Value::as_array_mut`: the items of a list, to be changed in place.
#[verifier::external_body]
pub(crate) fn as_list_mut(value: &mut Value) -> (r: &mut Vec<Value>)
    requires
        tree_in(*old(value)) is Arr,
    ensures
        trees_in(r@) == tree_in(*old(value))->Arr_0,
        tree_in(*final(value)) == JsonTree::Arr(trees_in(final(r)@)),
{
    value.as_array_mut().unwrap()
}

/// Calls `serde_json::Map::insert` on the map of an object: the value stands under the key, in place
/// of what stood there.
#[verifier::external_body]
pub(crate) fn insert(object: &mut Value, key: &str, value: Value)
    requires
        tree_in(*old(object)) is Obj,
    ensures
        tree_in(*final(object)) == JsonTree::Obj(
            tree_in(*old(object))->Obj_0.insert(key@, tree_in(value)),
        ),
{
    object.as_object_mut().unwrap().insert(key.to_owned(), value);
}

/// Calls `serde_json::Map::remove` on the map of an object: nothing stands under the key any more, and
/// what stood there is handed out.
#[verifier::external_body]
pub(crate) fn remove(object: &mut Value, key: &str) -> (r: Option<Value>)
    requires
        tree_in(*old(object)) is Obj,
    ensures
        tree_in(*final(object)) == JsonTree::Obj(tree_in(*old(object))->Obj_0.remove(key@)),
        match field(tree_in(*old(object)), key@) {
            Some(tree) => r matches Some(v) && tree_in(v) == tree,
            None => r is None,
        },
{
    object.as_object_mut().unwrap().remove(key)
}

/// Calls `<serde_json::Value as From<u64>>::from`.
#[verifier::external_body]
pub(crate) fn natural(n: u64) -> (r: Value)
    ensures
        tree_in(r) == JsonTree::Natural(n as nat),
{
    Value::from(n)
}

/// Calls `<serde_json::Value as From<String>>::from`.
#[verifier::external_body]
pub(crate) fn text(s: String) -> (r: Value)
    ensures
        tree_in(r) == JsonTree::Str(s@),
{
    Value::from(s)
}

/// Makes a `serde_json::Value::Array` of values.
#[verifier::external_body]
pub(crate) fn list(items: Vec<Value>) -> (r: Value)
    ensures
        tree_in(r) == JsonTree::Arr(trees_in(items@)),
{
    Value::Array(items)
}

/// Makes a `serde_json::Value::Object` of a new `serde_json::Map`.
#[verifier::external_body]
pub(crate) fn empty_object() -> (r: Value)
    ensures
        tree_in(r) == JsonTree::Obj(Map::empty()),
{
    Value::Object(serde_json::Map::new())
}

} // verus!
