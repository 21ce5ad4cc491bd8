//! JSON documents as this library reads them.
//!
//! Parsing is done by `serde_json`; what it produces is copied into [`Json`],
//! a tree of plain values on which the decoders of this crate work.

use crate::text::same_text;
use vstd::prelude::*;

verus! {

/// `serde_json::Value`, carried as it is: nothing is known of what it
/// holds but through [`json_tree`].
#[verifier::external_type_specification]
#[verifier::external_body]
pub struct ExValue(serde_json::Value);

/// The document that `serde_json` reads from `text`; `None` where it accepts
/// no document there.
pub uninterp spec fn parsed_json(text: Seq<char>) -> Option<JsonView>;

/// The document that a `serde_json::Value` holds.
pub uninterp spec fn json_tree(value: serde_json::Value) -> JsonView;

/// A JSON document.
///
/// Of a number only what this protocol reads is kept: its value when it is a
/// non-negative integer of at most 64 bits.
#[derive(Debug, PartialEq, Eq)]
pub enum Json {
    Null,
    Bool(bool),
    /// `Some(n)` for a non-negative integer that fits `u64`, `None` for any
    /// other number.
    Number(Option<u64>),
    Text(String),
    Array(Vec<Json>),
    /// The members in the order in which the parser hands them out.
    Object(Vec<(String, Json)>),
}

/// The mathematical value of a [`Json`] tree.
pub enum JsonView {
    Null,
    Bool(bool),
    Number(Option<u64>),
    Text(Seq<char>),
    Array(Seq<JsonView>),
    Object(Seq<(Seq<char>, JsonView)>),
}

/// The mathematical value of `tree`.
pub open spec fn tree_view(tree: Json) -> JsonView
    decreases tree,
{
    match tree {
        Json::Null => JsonView::Null,
        Json::Bool(b) => JsonView::Bool(b),
        Json::Number(n) => JsonView::Number(n),
        Json::Text(s) => JsonView::Text(s@),
        Json::Array(items) => JsonView::Array(
            Seq::new(
                items@.len(),
                |i: int|
                    if 0 <= i < items@.len() {
                        tree_view(items@[i])
                    } else {
                        JsonView::Null
                    },
            ),
        ),
        Json::Object(members) => JsonView::Object(
            Seq::new(
                members@.len(),
                |i: int|
                    if 0 <= i < members@.len() {
                        (members@[i].0@, tree_view(members@[i].1))
                    } else {
                        (Seq::empty(), JsonView::Null)
                    },
            ),
        ),
    }
}

impl View for Json {
    type V = JsonView;

    open spec fn view(&self) -> JsonView {
        tree_view(*self)
    }
}

/// What the view of an array and of an object is made of.
pub proof fn lemma_view_unfolds(tree: Json)
    ensures
        tree matches Json::Array(items) ==> tree@ matches JsonView::Array(views) && views.len()
            == items@.len() && forall|i: int| 0 <= i < views.len() ==> views[i] == items@[i]@,
        tree matches Json::Object(members) ==> tree@ matches JsonView::Object(views)
            && views.len() == members@.len() && forall|i: int|
            0 <= i < views.len() ==> views[i] == (members@[i].0@, members@[i].1@),
{
}

/// The view of an optional reference to a tree.
pub open spec fn view_of(tree: Option<&Json>) -> Option<JsonView> {
    match tree {
        Some(j) => Some(j@),
        None => None,
    }
}

/// The member of the object `j` that is called `name`: the first of them
/// where several are. `None` where `j` has none, or is no object.
pub open spec fn member(j: JsonView, name: Seq<char>) -> Option<JsonView> {
    match j {
        JsonView::Object(members) => first_named(members, name),
        _ => None,
    }
}

/// The value of the first of `members` that is called `name`.
pub open spec fn first_named(members: Seq<(Seq<char>, JsonView)>, name: Seq<char>) -> Option<
    JsonView,
>
    decreases members.len(),
{
    if members.len() == 0 {
        None
    } else if members[0].0 == name {
        Some(members[0].1)
    } else {
        first_named(members.skip(1), name)
    }
}

/// Calls `serde_json::from_str` for a `serde_json::Value`. It returns a
/// value exactly where `serde_json` accepts `text` as one JSON document, and
/// which one depends on `text` alone.
#[verifier::external_body]
fn parse_value(text: &str) -> (value: Option<serde_json::Value>)
    ensures
        match value {
            Some(v) => parsed_json(text@) == Some(json_tree(v)),
            None => parsed_json(text@) is None,
        },
{
    serde_json::from_str::<serde_json::Value>(text).ok()
}

/// Copies a `serde_json::Value` into a tree, variant by variant: the items
/// of an array in their order, the members of an object in the order in
/// which `serde_json::Map` hands them out, and of a `serde_json::Number`
/// what its `as_u64` gives.
#[verifier::external_body]
fn tree_of(value: serde_json::Value) -> (tree: Json)
    ensures
        tree@ == json_tree(value),
{
    match value {
        serde_json::Value::Null => Json::Null,
        serde_json::Value::Bool(b) => Json::Bool(b),
        serde_json::Value::Number(n) => Json::Number(n.as_u64()),
        serde_json::Value::String(s) => Json::Text(s),
        serde_json::Value::Array(items) => Json::Array(items.into_iter().map(tree_of).collect()),
        serde_json::Value::Object(members) => Json::Object(
            members.into_iter().map(|(name, v)| (name, tree_of(v))).collect(),
        ),
    }
}

impl Clone for Json {
    fn clone(&self) -> (copy: Json)
        ensures
            copy@ == self@,
        decreases self,
    {
        match self {
            Json::Null => Json::Null,
            Json::Bool(b) => Json::Bool(*b),
            Json::Number(n) => Json::Number(*n),
            Json::Text(s) => Json::Text(s.clone()),
            Json::Array(items) => {
                let mut copies: Vec<Json> = Vec::new();
                let mut i: usize = 0;
                while i < items.len()
                    invariant
                        i <= items.len(),
                        copies.len() == i,
                        *self == Json::Array(*items),
                        forall|k: int|
                            0 <= k < items@.len() ==> decreases_to!(*self => #[trigger] items@[k]),
                        forall|k: int| 0 <= k < i ==> copies@[k]@ == items@[k]@,
                    decreases items.len() - i,
                {
                    copies.push(items[i].clone());
                    i += 1;
                }
                let copy = Json::Array(copies);
                proof {
                    lemma_view_unfolds(copy);
                    lemma_view_unfolds(*self);
                    assert(copy@->Array_0 =~= self@->Array_0);
                }
                copy
            },
            Json::Object(members) => {
                let mut copies: Vec<(String, Json)> = Vec::new();
                let mut i: usize = 0;
                while i < members.len()
                    invariant
                        i <= members.len(),
                        copies.len() == i,
                        *self == Json::Object(*members),
                        forall|k: int|
                            0 <= k < members@.len() ==> decreases_to!(
                                *self => #[trigger] members@[k]
                            ),
                        forall|k: int|
                            0 <= k < i ==> copies@[k].0@ == members@[k].0@ && copies@[k].1@
                                == members@[k].1@,
                    decreases members.len() - i,
                {
                    copies.push((members[i].0.clone(), members[i].1.clone()));
                    i += 1;
                }
                let copy = Json::Object(copies);
                proof {
                    lemma_view_unfolds(copy);
                    lemma_view_unfolds(*self);
                    assert(copy@->Object_0 =~= self@->Object_0);
                }
                copy
            },
        }
    }
}

impl Json {
    /// Reads `text` as one JSON document.
    pub fn parse(text: &str) -> (tree: Option<Json>)
        ensures
            tree is Some <==> parsed_json(text@) is Some,
            tree matches Some(j) ==> parsed_json(text@) == Some(j@),
    {
        match parse_value(text) {
            Some(value) => Some(tree_of(value)),
            None => None,
        }
    }

    /// The member of this object that is called `name`.
    pub fn get(&self, name: &str) -> (found: Option<&Json>)
        ensures
            view_of(found) == member(self@, name@),
    {
        match self {
            Json::Object(members) => {
                let mut i: usize = 0;
                proof {
                    lemma_view_unfolds(*self);
                }
                assert(self@->Object_0.skip(0) =~= self@->Object_0);
                while i < members.len()
                    invariant
                        i <= members.len(),
                        self@ matches JsonView::Object(all) && all.len() == members.len()
                            && first_named(all.skip(i as int), name@) == first_named(all, name@)
                            && forall|k: int|
                            0 <= k < all.len() ==> all[k] == (members@[k].0@, members@[k].1@),
                    decreases members.len() - i,
                {
                    let ghost all = self@->Object_0;
                    assert(all.skip(i as int)[0] == all[i as int]);
                    assert(all.skip(i as int).skip(1) =~= all.skip(i + 1));
                    if same_text(members[i].0.as_str(), name) {
                        return Some(&members[i].1);
                    }
                    i += 1;
                }
                None
            },
            _ => None,
        }
    }
}

} // verus!
