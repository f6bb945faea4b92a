//! JSON documents as trees, and the few questions that are asked of them.

use crate::text::{str_eq, str_from_utf8, utf8_text};
use crate::views::{ok_view, opt_view};
use vstd::prelude::*;

verus! {

/// A JSON document. The members of an object stand in the order of the
/// document. The value of a number is not kept: nothing here reads one.
#[derive(Debug, PartialEq, Eq)]
pub enum Json {
    Null,
    Bool(bool),
    Number,
    Str(String),
    Array(Vec<Json>),
    Object(Vec<(String, Json)>),
}

/// The mathematical value of a [`Json`] tree.
pub enum JsonValue {
    Null,
    Bool(bool),
    Number,
    Str(Seq<char>),
    Array(Seq<JsonValue>),
    Object(Seq<(Seq<char>, JsonValue)>),
}

/// What a question to a document can fail on.
#[derive(Clone, Copy, Debug, PartialEq, Eq, Structural)]
pub enum JsonError {
    /// A member was asked of a value that is no object.
    NotAnObject,
    /// The object has no member of that name.
    MissingField,
    /// The value is no array.
    NotAnArray,
    /// The value is no string.
    NotAString,
}

/// The value of a tree: that of each node, with the text of each string.
pub open spec fn json_value(j: Json) -> JsonValue
    decreases j,
{
    match j {
        Json::Null => JsonValue::Null,
        Json::Bool(b) => JsonValue::Bool(b),
        Json::Number => JsonValue::Number,
        Json::Str(s) => JsonValue::Str(s@),
        Json::Array(items) => JsonValue::Array(
            Seq::new(
                items.len() as nat,
                |i: int|
                    if 0 <= i < items.len() {
                        json_value(items[i])
                    } else {
                        JsonValue::Null
                    },
            ),
        ),
        Json::Object(members) => JsonValue::Object(
            Seq::new(
                members.len() as nat,
                |i: int|
                    if 0 <= i < members.len() {
                        (members[i].0@, json_value(members[i].1))
                    } else {
                        (Seq::<char>::empty(), JsonValue::Null)
                    },
            ),
        ),
    }
}

impl View for Json {
    type V = JsonValue;

    open spec fn view(&self) -> JsonValue {
        json_value(*self)
    }
}

/// The value of the first member named `key`, if there is one.
pub open spec fn find_member(members: Seq<(Seq<char>, JsonValue)>, key: Seq<char>) -> Option<
    JsonValue,
>
    decreases members.len(),
{
    if members.len() == 0 {
        None
    } else if members[0].0 == key {
        Some(members[0].1)
    } else {
        find_member(members.drop_first(), key)
    }
}

impl JsonValue {
    /// The member `key` of an object; nothing for any other value.
    pub open spec fn member(self, key: Seq<char>) -> Option<JsonValue> {
        match self {
            JsonValue::Object(members) => find_member(members, key),
            _ => None,
        }
    }

    /// The member `key`, or why there is none.
    pub open spec fn member_or_error(self, key: Seq<char>) -> Result<JsonValue, JsonError> {
        match self {
            JsonValue::Object(members) => match find_member(members, key) {
                Some(v) => Ok(v),
                None => Err(JsonError::MissingField),
            },
            _ => Err(JsonError::NotAnObject),
        }
    }

    /// The text of a string; nothing for any other value.
    pub open spec fn text(self) -> Option<Seq<char>> {
        match self {
            JsonValue::Str(s) => Some(s),
            _ => None,
        }
    }

    /// The text of a string, or the error that says that this is none.
    pub open spec fn text_or_error(self) -> Result<Seq<char>, JsonError> {
        match self {
            JsonValue::Str(s) => Ok(s),
            _ => Err(JsonError::NotAString),
        }
    }

    /// The truth value of a boolean; nothing for any other value.
    pub open spec fn flag(self) -> Option<bool> {
        match self {
            JsonValue::Bool(b) => Some(b),
            _ => None,
        }
    }

    /// The items of an array; nothing for any other value.
    pub open spec fn items(self) -> Option<Seq<JsonValue>> {
        match self {
            JsonValue::Array(items) => Some(items),
            _ => None,
        }
    }

    /// The text of the member `key`, where this is an object whose first
    /// member of that name is a string.
    pub open spec fn string_member(self, key: Seq<char>) -> Option<Seq<char>> {
        match self.member(key) {
            Some(v) => v.text(),
            None => None,
        }
    }

    /// The items of an array, or the error that says that this is none.
    pub open spec fn items_or_error(self) -> Result<Seq<JsonValue>, JsonError> {
        match self {
            JsonValue::Array(items) => Ok(items),
            _ => Err(JsonError::NotAnArray),
        }
    }
}

/// The views of a sequence of trees.
pub open spec fn json_views(items: Seq<Json>) -> Seq<JsonValue> {
    items.map_values(|j: Json| j@)
}

/// `sonic_rs::Value`, the JSON value that `sonic_rs` parses into. Nothing
/// is said of what is inside one.
#[verifier::external_type_specification]
#[verifier::external_body]
pub struct ExSonicValue(sonic_rs::Value);

/// The document that `sonic_rs::from_str` reads from a text, if it accepts
/// the text as JSON.
pub uninterp spec fn json_document(text: Seq<char>) -> Option<JsonValue>;

/// The tree that a `sonic_rs::Value` holds: its nodes, the members of an
/// object in the order in which the value holds them.
pub uninterp spec fn sonic_tree(v: sonic_rs::Value) -> JsonValue;

/// Calls `sonic_rs::from_str` for a `sonic_rs::Value`. Whether it accepts the
/// text, and the tree that it then builds, depend on the text alone.
#[verifier::external_body]
fn sonic_from_str(text: &str) -> (r: Option<sonic_rs::Value>)
    ensures
        match r {
            Some(v) => json_document(text@) == Some(sonic_tree(v)),
            None => json_document(text@) is None,
        },
{
    sonic_rs::from_str(text).ok()
}

/// One node of a `sonic_rs::Value`: its kind, what it holds itself, and its
/// children as they are.
enum SonicNode<'a> {
    Null,
    Bool(bool),
    Number,
    Str(String),
    Array(Vec<&'a sonic_rs::Value>),
    Object(Vec<(String, &'a sonic_rs::Value)>),
}

/// The tree of a node: what the node holds, over the trees of its children.
spec fn node_tree(node: SonicNode) -> JsonValue {
    match node {
        SonicNode::Null => JsonValue::Null,
        SonicNode::Bool(b) => JsonValue::Bool(b),
        SonicNode::Number => JsonValue::Number,
        SonicNode::Str(s) => JsonValue::Str(s@),
        SonicNode::Array(items) => JsonValue::Array(
            items@.map_values(|item: &sonic_rs::Value| sonic_tree(*item)),
        ),
        SonicNode::Object(members) => JsonValue::Object(
            members@.map_values(|m: (String, &sonic_rs::Value)| (m.0@, sonic_tree(*m.1))),
        ),
    }
}

/// Shows one node of a value, as `sonic_rs::Value::as_ref` tells its kind:
/// the truth value of a boolean, the text of a string, the items of an array
/// and the members of an object, with their names, in the order in which
/// `iter` yields them; a value that `from_str` built keeps them in a slice,
/// in the order of the document. The tree of the value is that of this node.
#[verifier::external_body]
fn node_of(v: &sonic_rs::Value) -> (r: SonicNode<'_>)
    ensures
        node_tree(r) == sonic_tree(*v),
{
    match v.as_ref() {
        sonic_rs::ValueRef::Null => SonicNode::Null,
        sonic_rs::ValueRef::Bool(b) => SonicNode::Bool(b),
        sonic_rs::ValueRef::Number(_) => SonicNode::Number,
        sonic_rs::ValueRef::String(s) => SonicNode::Str(s.to_owned()),
        sonic_rs::ValueRef::Array(a) => SonicNode::Array(a.iter().collect()),
        sonic_rs::ValueRef::Object(o) => SonicNode::Object(
            o.iter().map(|(k, v)| (k.to_owned(), v)).collect(),
        ),
    }
}

/// Copies the tree of a value, node by node.
fn tree_of_value(v: &sonic_rs::Value) -> (r: Json)
    ensures
        r@ == sonic_tree(*v),
    decreases sonic_tree(*v),
{
    match node_of(v) {
        SonicNode::Null => Json::Null,
        SonicNode::Bool(b) => Json::Bool(b),
        SonicNode::Number => Json::Number,
        SonicNode::Str(s) => Json::Str(s),
        SonicNode::Array(children) => {
            let ghost trees = sonic_tree(*v)->Array_0;
            let mut items: Vec<Json> = Vec::new();
            let mut i: usize = 0;
            while i < children.len()
                invariant
                    i <= children.len(),
                    sonic_tree(*v) == JsonValue::Array(trees),
                    trees.len() == children.len(),
                    forall|k: int|
                        0 <= k < children.len() ==> #[trigger] trees[k] == sonic_tree(
                            *children@[k],
                        ),
                    json_views(items@) == trees.take(i as int),
                decreases children.len() - i,
            {
                let ghost before = items@;
                proof {
                    let tree = sonic_tree(*v);
                    assert(decreases_to!(tree => tree->Array_0));
                    assert(decreases_to!(tree->Array_0 => tree->Array_0[i as int]));
                    assert(trees[i as int] == sonic_tree(*children@[i as int]));
                }
                let item = tree_of_value(children[i]);
                items.push(item);
                assert(json_views(items@) =~= json_views(before).push(item@));
                assert(trees.take(i + 1) =~= trees.take(i as int).push(trees[i as int]));
                i += 1;
            }
            proof {
                assert(trees.take(children.len() as int) =~= trees);
                lemma_array_view(items);
            }
            Json::Array(items)
        },
        SonicNode::Object(children) => {
            let ghost trees = sonic_tree(*v)->Object_0;
            let mut members: Vec<(String, Json)> = Vec::new();
            let mut i: usize = 0;
            while i < children.len()
                invariant
                    i <= children.len(),
                    sonic_tree(*v) == JsonValue::Object(trees),
                    trees.len() == children.len(),
                    forall|k: int|
                        0 <= k < children.len() ==> #[trigger] trees[k] == (
                            children@[k].0@,
                            sonic_tree(*children@[k].1),
                        ),
                    members.len() == i,
                    forall|k: int|
                        0 <= k < i ==> (#[trigger] members@[k]).0@ == trees[k].0
                            && members@[k].1@ == trees[k].1,
                decreases children.len() - i,
            {
                proof {
                    let tree = sonic_tree(*v);
                    assert(decreases_to!(tree => tree->Object_0));
                    assert(decreases_to!(tree->Object_0 => tree->Object_0[i as int]));
                    assert(decreases_to!(tree->Object_0[i as int] => tree->Object_0[i as int].1));
                    assert(trees[i as int].1 == sonic_tree(*children@[i as int].1));
                }
                let name = children[i].0.clone();
                let value = tree_of_value(children[i].1);
                members.push((name, value));
                i += 1;
            }
            proof {
                lemma_object_view(members);
                assert(Json::Object(members)@->Object_0 =~= trees);
            }
            Json::Object(members)
        },
    }
}

/// Reads `text` as one JSON document.
pub fn parse_json(text: &str) -> (r: Option<Json>)
    ensures
        opt_view(r) == json_document(text@),
{
    match sonic_from_str(text) {
        Some(v) => Some(tree_of_value(&v)),
        None => None,
    }
}

/// The document that bytes hold: that of the text which they encode in
/// UTF-8, if they encode one.
pub open spec fn json_bytes_document(bytes: Seq<u8>) -> Option<JsonValue> {
    match utf8_text(bytes) {
        Some(text) => json_document(text),
        None => None,
    }
}

/// Reads `bytes` as the UTF-8 text of one JSON document.
pub fn parse_json_bytes(bytes: &[u8]) -> (r: Option<Json>)
    ensures
        opt_view(r) == json_bytes_document(bytes@),
{
    match str_from_utf8(bytes) {
        Some(text) => parse_json(text),
        None => None,
    }
}

/// The view of an object holds the views of its members, one for one.
pub proof fn lemma_object_view(members: Vec<(String, Json)>)
    ensures
        Json::Object(members)@ is Object,
        Json::Object(members)@->Object_0.len() == members.len(),
        forall|k: int|
            0 <= k < members.len() ==> #[trigger] Json::Object(members)@->Object_0[k] == (
                members[k].0@,
                members[k].1@,
            ),
{
    let all = Seq::new(
        members.len() as nat,
        |i: int|
            if 0 <= i < members.len() {
                (members[i].0@, members[i].1@)
            } else {
                (Seq::empty(), JsonValue::Null)
            },
    );
    assert(Json::Object(members)@->Object_0 =~= all);
}

/// The view of an array holds the views of its items, one for one.
pub proof fn lemma_array_view(items: Vec<Json>)
    ensures
        Json::Array(items)@ == JsonValue::Array(json_views(items@)),
{
    assert(Json::Array(items)@->Array_0 =~= json_views(items@));
}

impl Json {
    /// The value of the first member named `key`, where this is an object
    /// that has one.
    pub fn get(&self, key: &str) -> (r: Option<&Json>)
        ensures
            opt_view(r) == self@.member(key@),
    {
        match self {
            Json::Object(members) => {
                let ghost all = self@->Object_0;
                let mut i: usize = 0;
                proof {
                    lemma_object_view(*members);
                    assert(all.skip(0) =~= all);
                }
                while i < members.len()
                    invariant
                        i <= members.len(),
                        all.len() == members.len(),
                        forall|k: int|
                            0 <= k < members.len() ==> #[trigger] all[k] == (
                                members[k].0@,
                                members[k].1@,
                            ),
                        self@.member(key@) == find_member(all.skip(i as int), key@),
                    decreases members.len() - i,
                {
                    proof {
                        let rest = all.skip(i as int);
                        assert(rest[0] == all[i as int]);
                        assert(rest.drop_first() =~= all.skip(i + 1));
                    }
                    if str_eq(members[i].0.as_str(), key) {
                        return Some(&members[i].1);
                    }
                    i += 1;
                }
                None
            },
            _ => None,
        }
    }

    /// The member `key` of an object; an error where this is no object or
    /// has no such member.
    pub fn as_object_get_result(&self, key: &str) -> (r: Result<&Json, JsonError>)
        ensures
            ok_view(r) == self@.member_or_error(key@),
    {
        match self {
            Json::Object(_) => match self.get(key) {
                Some(j) => Ok(j),
                None => Err(JsonError::MissingField),
            },
            _ => Err(JsonError::NotAnObject),
        }
    }

    /// The text of a string.
    pub fn as_str(&self) -> (r: Option<&str>)
        ensures
            opt_view(r) == self@.text(),
    {
        match self {
            Json::Str(s) => Some(s.as_str()),
            _ => None,
        }
    }

    /// The text of a string; an error for any other value.
    pub fn as_str_result(&self) -> (r: Result<&str, JsonError>)
        ensures
            ok_view(r) == self@.text_or_error(),
    {
        match self.as_str() {
            Some(s) => Ok(s),
            None => Err(JsonError::NotAString),
        }
    }

    /// The truth value of a boolean.
    pub fn as_bool(&self) -> (r: Option<bool>)
        ensures
            r == self@.flag(),
    {
        match self {
            Json::Bool(b) => Some(*b),
            _ => None,
        }
    }

    /// The text of the member `key`, where this is an object whose first
    /// member of that name is a string.
    pub fn get_str(&self, key: &str) -> (r: Option<&str>)
        ensures
            opt_view(r) == self@.string_member(key@),
    {
        match self.get(key) {
            Some(v) => v.as_str(),
            None => None,
        }
    }

    /// The items of an array.
    pub fn as_array(&self) -> (r: Option<&Vec<Json>>)
        ensures
            match r {
                Some(items) => self@.items() == Some(json_views(items@)),
                None => self@.items() is None,
            },
    {
        match self {
            Json::Array(items) => {
                proof {
                    lemma_array_view(*items);
                }
                Some(items)
            },
            _ => None,
        }
    }
}

} // verus!
