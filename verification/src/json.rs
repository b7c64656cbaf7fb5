//! JSON documents, read and written through `serde_json`.

use crate::text::same_text;
use vstd::prelude::*;

verus! {

/// A parsed JSON value of `serde_json`.
#[verifier::external_type_specification]
#[verifier::external_body]
pub struct ExValue(serde_json::Value);

/// A JSON number of `serde_json`.
#[verifier::external_type_specification]
#[verifier::external_body]
pub struct ExNumber(serde_json::Number);

/// The reason for which `serde_json` refused a document.
#[verifier::external_type_specification]
#[verifier::external_body]
pub struct ExError(serde_json::Error);

/// A JSON value. An object keeps its members in the order in which they were written.
#[derive(Debug, PartialEq)]
pub enum Json {
    Null,
    Bool(bool),
    Number(serde_json::Number),
    Text(String),
    Array(Vec<Json>),
    Object(Vec<(String, Json)>),
}

/// What a JSON value stands for.
pub enum JsonView {
    Null,
    Bool(bool),
    Number(serde_json::Number),
    Text(Seq<char>),
    Array(Seq<JsonView>),
    Object(Seq<(Seq<char>, JsonView)>),
}

/// The tree that a JSON value holds.
pub open spec fn tree(json: Json) -> JsonView
    decreases json,
{
    match json {
        Json::Null => JsonView::Null,
        Json::Bool(value) => JsonView::Bool(value),
        Json::Number(number) => JsonView::Number(number),
        Json::Text(text) => JsonView::Text(text@),
        Json::Array(items) => JsonView::Array(
            Seq::new(
                items@.len(),
                |i: int|
                    if 0 <= i < items@.len() {
                        tree(items@[i])
                    } else {
                        JsonView::Null
                    },
            ),
        ),
        Json::Object(members) => JsonView::Object(
            Seq::new(
                members@.len(),
                |i: int|
                    if 0 <= i < members@.len() {
                        (members@[i].0@, tree(members@[i].1))
                    } else {
                        (Seq::empty(), JsonView::Null)
                    },
            ),
        ),
    }
}

impl View for Json {
    type V = JsonView;

    open spec fn view(&self) -> JsonView {
        tree(*self)
    }
}

/// Whether no two members share a key.
pub open spec fn distinct_keys(members: Seq<(Seq<char>, JsonView)>) -> bool {
    forall|i: int, j: int|
        0 <= i < j < members.len() ==> (#[trigger] members[i]).0 != (#[trigger] members[j]).0
}

/// Whether every object within `value` has distinct keys.
pub open spec fn well_formed(value: JsonView) -> bool
    decreases value,
{
    match value {
        JsonView::Array(items) => forall|i: int|
            0 <= i < items.len() ==> well_formed(#[trigger] items[i]),
        JsonView::Object(members) => {
            &&& distinct_keys(members)
            &&& forall|i: int| 0 <= i < members.len() ==> well_formed((#[trigger] members[i]).1)
        },
        _ => true,
    }
}

/// The value that the first member with `key` has.
pub open spec fn find_member(members: Seq<(Seq<char>, JsonView)>, key: Seq<char>) -> Option<
    JsonView,
>
    decreases members.len(),
{
    if members.len() == 0 {
        None
    } else if members[0].0 == key {
        Some(members[0].1)
    } else {
        find_member(members.drop_first(), key)
    }
}

/// The member of `value` with `key`, where `value` is an object that has one.
pub open spec fn member(value: JsonView, key: Seq<char>) -> Option<JsonView> {
    match value {
        JsonView::Object(members) => find_member(members, key),
        _ => None,
    }
}

/// The characters of `value`, where it is a text.
pub open spec fn text_of(value: JsonView) -> Option<Seq<char>> {
    match value {
        JsonView::Text(text) => Some(text),
        _ => None,
    }
}

/// The items of `value`, where it is an array.
pub open spec fn items_of(value: JsonView) -> Option<Seq<JsonView>> {
    match value {
        JsonView::Array(items) => Some(items),
        _ => None,
    }
}

impl Json {
    /// The member with the given key, where this is an object that has one.
    pub fn get(&self, key: &str) -> (found: Option<&Json>)
        ensures
            match found {
                Some(value) => member(self@, key@) == Some(value@),
                None => member(self@, key@) is None,
            },
    {
        match self {
            Json::Object(members) => {
                let ghost all = self@->Object_0;
                proof {
                    assert(all.skip(0) =~= all);
                }
                let mut i: usize = 0;
                while i < members.len()
                    invariant
                        i <= members.len(),
                        self@ == JsonView::Object(all),
                        all.len() == members@.len(),
                        forall|j: int|
                            0 <= j < all.len() ==> #[trigger] all[j] == (
                                members@[j].0@,
                                members@[j].1@,
                            ),
                        find_member(all, key@) == find_member(all.skip(i as int), key@),
                    decreases members.len() - i,
                {
                    if same_text(members[i].0.as_str(), key) {
                        proof {
                            assert(all.skip(i as int)[0] == all[i as int]);
                        }
                        return Some(&members[i].1);
                    }
                    proof {
                        assert(all.skip(i as int)[0] == all[i as int]);
                        assert(all.skip(i as int).drop_first() =~= all.skip(i + 1));
                    }
                    i = i + 1;
                }
                proof {
                    assert(all.skip(i as int).len() == 0);
                }
                None
            },
            _ => None,
        }
    }

    /// The text that this value is, if it is one.
    pub fn as_text(&self) -> (text: Option<&str>)
        ensures
            match text {
                Some(text) => text_of(self@) == Some(text@),
                None => text_of(self@) is None,
            },
    {
        match self {
            Json::Text(text) => Some(text.as_str()),
            _ => None,
        }
    }

    /// The items of the array that this value is, if it is one.
    pub fn as_array(&self) -> (items: Option<&Vec<Json>>)
        ensures
            match items {
                Some(items) => {
                    &&& items_of(self@) is Some
                    &&& items_of(self@)->0.len() == items@.len()
                    &&& forall|i: int|
                        0 <= i < items@.len() ==> items_of(self@)->0[i] == (#[trigger] items@[i])@
                },
                None => items_of(self@) is None,
            },
    {
        match self {
            Json::Array(items) => Some(items),
            _ => None,
        }
    }
}

/// The index of the first member with `key`, or the number of members where none has it.
pub open spec fn key_index(members: Seq<(Seq<char>, JsonView)>, key: Seq<char>) -> nat
    decreases members.len(),
{
    if members.len() == 0 || members[0].0 == key {
        0
    } else {
        1 + key_index(members.drop_first(), key)
    }
}

/// The members with a value under `key`: in the place of the member that had the key, or behind
/// all others.
pub open spec fn with_member(
    members: Seq<(Seq<char>, JsonView)>,
    key: Seq<char>,
    value: JsonView,
) -> Seq<(Seq<char>, JsonView)> {
    let index = key_index(members, key);
    if index < members.len() {
        members.update(index as int, (key, value))
    } else {
        members.push((key, value))
    }
}

/// The members without the one under `key`, whose place the last member takes.
pub open spec fn without_member(members: Seq<(Seq<char>, JsonView)>, key: Seq<char>) -> Seq<
    (Seq<char>, JsonView),
> {
    let index = key_index(members, key);
    if index < members.len() {
        members.update(index as int, members.last()).drop_last()
    } else {
        members
    }
}

/// The members that a vector of members stands for.
pub open spec fn member_views(members: Seq<(String, Json)>) -> Seq<(Seq<char>, JsonView)> {
    members.map_values(|member: (String, Json)| (member.0@, member.1@))
}

/// An object stands for its members.
pub proof fn lemma_object_view(members: Vec<(String, Json)>)
    ensures
        Json::Object(members)@ == JsonView::Object(member_views(members@)),
{
    assert(Json::Object(members)@->Object_0 =~= member_views(members@));
}

fn find_key(members: &Vec<(String, Json)>, key: &str) -> (index: usize)
    ensures
        index == key_index(member_views(members@), key@),
        index <= members@.len(),
{
    let ghost views = member_views(members@);
    let mut i: usize = 0;
    assert(views.skip(0) =~= views);
    while i < members.len()
        invariant
            i <= members@.len(),
            views == member_views(members@),
            key_index(views, key@) == i + key_index(views.skip(i as int), key@),
        decreases members.len() - i,
    {
        proof {
            assert(views.skip(i as int)[0] == views[i as int]);
            assert(views.skip(i as int).drop_first() =~= views.skip(i + 1));
        }
        if same_text(members[i].0.as_str(), key) {
            return i;
        }
        i = i + 1;
    }
    assert(views.skip(i as int).len() == 0);
    i
}

/// Puts a value under a key into the members of an object.
pub fn insert_member(members: &mut Vec<(String, Json)>, key: String, value: Json)
    ensures
        member_views(final(members)@) == with_member(member_views(old(members)@), key@, value@),
{
    let ghost before = member_views(members@);
    let ghost entry = (key@, value@);
    let index: usize = find_key(members, key.as_str());
    if index < members.len() {
        members[index] = (key, value);
        assert(member_views(members@) =~= before.update(index as int, entry));
    } else {
        members.push((key, value));
        assert(member_views(members@) =~= before.push(entry));
    }
}

/// Takes the value under a key out of the members of an object. The last member takes its place.
pub fn remove_member(members: &mut Vec<(String, Json)>, key: &str)
    ensures
        member_views(final(members)@) == without_member(member_views(old(members)@), key@),
{
    let ghost before = member_views(members@);
    let index: usize = find_key(members, key);
    if index < members.len() {
        members.swap_remove(index);
        assert(member_views(members@) =~= before.update(index as int, before.last()).drop_last());
    }
}

/// The outermost layer of a value of `serde_json`.
pub enum ValueNode {
    Null,
    Bool(bool),
    Number(serde_json::Number),
    Text(String),
    Array(Vec<serde_json::Value>),
    Object(Vec<(String, serde_json::Value)>),
}

/// The tree that a value of `serde_json` holds.
pub uninterp spec fn json_value(value: serde_json::Value) -> JsonView;

/// The tree that a layer and the values below it hold.
pub open spec fn node_view(node: ValueNode) -> JsonView {
    match node {
        ValueNode::Null => JsonView::Null,
        ValueNode::Bool(value) => JsonView::Bool(value),
        ValueNode::Number(number) => JsonView::Number(number),
        ValueNode::Text(text) => JsonView::Text(text@),
        ValueNode::Array(items) => JsonView::Array(
            items@.map_values(|item: serde_json::Value| json_value(item)),
        ),
        ValueNode::Object(members) => JsonView::Object(
            members@.map_values(
                |member: (String, serde_json::Value)| (member.0@, json_value(member.1)),
            ),
        ),
    }
}

/// Takes a `serde_json::Value` apart by one layer. `serde_json::Map::into_iter` hands the members
/// of an object out in the order of its map, each key once.
#[verifier::external_body]
fn open_value(value: serde_json::Value) -> (node: ValueNode)
    ensures
        node_view(node) == json_value(value),
        node is Object ==> distinct_keys(node_view(node)->Object_0),
{
    match value {
        serde_json::Value::Null => ValueNode::Null,
        serde_json::Value::Bool(value) => ValueNode::Bool(value),
        serde_json::Value::Number(number) => ValueNode::Number(number),
        serde_json::Value::String(text) => ValueNode::Text(text),
        serde_json::Value::Array(items) => ValueNode::Array(items),
        serde_json::Value::Object(members) => ValueNode::Object(members.into_iter().collect()),
    }
}

/// Puts a `serde_json::Value` together from one layer. `serde_json::Map::from_iter` takes the
/// members in the order given, which the map keeps under the feature `preserve_order`; with each
/// key once, none replaces another.
#[verifier::external_body]
fn close_value(node: ValueNode) -> (value: serde_json::Value)
    requires
        node is Object ==> distinct_keys(node_view(node)->Object_0),
    ensures
        json_value(value) == node_view(node),
{
    match node {
        ValueNode::Null => serde_json::Value::Null,
        ValueNode::Bool(value) => serde_json::Value::Bool(value),
        ValueNode::Number(number) => serde_json::Value::Number(number),
        ValueNode::Text(text) => serde_json::Value::String(text),
        ValueNode::Array(items) => serde_json::Value::Array(items),
        ValueNode::Object(members) => serde_json::Value::Object(members.into_iter().collect()),
    }
}

/// The tree of a `serde_json::Value`.
pub fn from_value(value: serde_json::Value) -> (json: Json)
    ensures
        json@ == json_value(value),
        well_formed(json@),
    decreases json_value(value),
{
    match open_value(value) {
        ValueNode::Null => Json::Null,
        ValueNode::Bool(value) => Json::Bool(value),
        ValueNode::Number(number) => Json::Number(number),
        ValueNode::Text(text) => Json::Text(text),
        ValueNode::Array(items) => {
            let ghost views = json_value(value)->Array_0;
            let mut converted: Vec<Json> = Vec::new();
            for item in iter: items
                invariant
                    json_value(value) == JsonView::Array(views),
                    iter.seq() == items@,
                    views == items@.map_values(|item: serde_json::Value| json_value(item)),
                    converted@.len() == iter.index(),
                    forall|i: int|
                        0 <= i < converted@.len() ==> (#[trigger] converted@[i])@ == views[i],
                    forall|i: int| 0 <= i < converted@.len() ==> well_formed(#[trigger] views[i]),
            {
                assert(json_value(item) == views[iter.index()]);
                assert(decreases_to!(json_value(value) => json_value(value)->Array_0[iter.index()]));
                converted.push(from_value(item));
            }
            let json = Json::Array(converted);
            assert(json@->Array_0 =~= views);
            json
        },
        ValueNode::Object(members) => {
            let ghost views = json_value(value)->Object_0;
            let mut converted: Vec<(String, Json)> = Vec::new();
            for entry in iter: members
                invariant
                    json_value(value) == JsonView::Object(views),
                    iter.seq() == members@,
                    views == members@.map_values(
                        |member: (String, serde_json::Value)| (member.0@, json_value(member.1)),
                    ),
                    converted@.len() == iter.index(),
                    forall|i: int|
                        0 <= i < converted@.len() ==> (#[trigger] converted@[i]).0@ == views[i].0
                            && converted@[i].1@ == views[i].1,
                    forall|i: int|
                        0 <= i < converted@.len() ==> well_formed((#[trigger] views[i]).1),
            {
                let (key, item) = entry;
                assert((key@, json_value(item)) == views[iter.index()]);
                assert(decreases_to!(
                    json_value(value) => json_value(value)->Object_0[iter.index()].1
                ));
                converted.push((key, from_value(item)));
            }
            let json = Json::Object(converted);
            assert(json@->Object_0 =~= views);
            json
        },
    }
}

/// The `serde_json::Value` with a given tree.
pub fn to_value(json: &Json) -> (value: serde_json::Value)
    requires
        well_formed(json@),
    ensures
        json_value(value) == json@,
    decreases json,
{
    let node = match json {
        Json::Null => ValueNode::Null,
        Json::Bool(value) => ValueNode::Bool(*value),
        Json::Number(number) => ValueNode::Number(clone_number(number)),
        Json::Text(text) => ValueNode::Text(text.clone()),
        Json::Array(items) => {
            let mut values: Vec<serde_json::Value> = Vec::new();
            let mut i: usize = 0;
            while i < items.len()
                invariant
                    *json == Json::Array(*items),
                    well_formed(json@),
                    i <= items.len(),
                    values@.len() == i,
                    forall|j: int| 0 <= j < i ==> json_value(#[trigger] values@[j]) == items@[j]@,
                decreases items.len() - i,
            {
                assert(json@->Array_0[i as int] == items@[i as int]@);
                values.push(to_value(&items[i]));
                i = i + 1;
            }
            let node = ValueNode::Array(values);
            assert(node_view(node)->Array_0 =~= json@->Array_0);
            node
        },
        Json::Object(members) => {
            let mut values: Vec<(String, serde_json::Value)> = Vec::new();
            let mut i: usize = 0;
            while i < members.len()
                invariant
                    *json == Json::Object(*members),
                    well_formed(json@),
                    i <= members.len(),
                    values@.len() == i,
                    forall|j: int|
                        0 <= j < i ==> (#[trigger] values@[j]).0@ == members@[j].0@ && json_value(
                            values@[j].1,
                        ) == members@[j].1@,
                decreases members.len() - i,
            {
                assert(json@->Object_0[i as int].1 == members@[i as int].1@);
                values.push((members[i].0.clone(), to_value(&members[i].1)));
                i = i + 1;
            }
            let node = ValueNode::Object(values);
            assert(node_view(node)->Object_0 =~= json@->Object_0);
            node
        },
    };
    close_value(node)
}

/// `serde_json::Number::clone` gives an equal number.
#[verifier::external_body]
fn clone_number(number: &serde_json::Number) -> (copy: serde_json::Number)
    ensures
        copy == *number,
{
    number.clone()
}

/// The JSON number that `serde_json` makes of an unsigned integer.
pub uninterp spec fn json_number(number: u64) -> serde_json::Number;

/// `serde_json::Number::from` makes a JSON number of an unsigned integer.
#[verifier::external_body]
pub(crate) fn number_from(number: u64) -> (json: serde_json::Number)
    ensures
        json == json_number(number),
{
    serde_json::Number::from(number)
}

/// The tree that `serde_json::from_str` reads from a document, or `None` where it refuses it.
pub uninterp spec fn json_document(document: Seq<char>) -> Option<JsonView>;

/// `serde_json::from_str`, read as a `serde_json::Value`. Its outcome depends on the document
/// alone.
#[verifier::external_body]
fn value_from_str(document: &str) -> (value: Result<serde_json::Value, serde_json::Error>)
    ensures
        match value {
            Ok(value) => json_document(document@) == Some(json_value(value)),
            Err(_) => json_document(document@) is None,
        },
{
    serde_json::from_str::<serde_json::Value>(document)
}

/// Reads a JSON document.
pub fn parse_json(document: &str) -> (json: Result<Json, serde_json::Error>)
    ensures
        match json {
            Ok(json) => json_document(document@) == Some(json@) && well_formed(json@),
            Err(_) => json_document(document@) is None,
        },
{
    match value_from_str(document) {
        Ok(value) => Ok(from_value(value)),
        Err(error) => Err(error),
    }
}

/// The document that `serde_json::to_string` writes for a tree.
pub uninterp spec fn json_compact(value: JsonView) -> Seq<char>;

/// `serde_json::to_string` on a `serde_json::Value`. It succeeds, as the keys of a `Value` are
/// strings and no part of one refuses to be written, and the text depends on the tree alone.
#[verifier::external_body]
fn value_to_string(value: &serde_json::Value) -> (document: Result<String, serde_json::Error>)
    ensures
        document is Ok,
        document->Ok_0@ == json_compact(json_value(*value)),
{
    serde_json::to_string(value)
}

/// Writes a JSON document without spaces.
pub fn compact_json(json: &Json) -> (document: Result<String, serde_json::Error>)
    requires
        well_formed(json@),
    ensures
        document is Ok,
        document->Ok_0@ == json_compact(json@),
{
    value_to_string(&to_value(json))
}

/// The document that the alternate form of `serde_json::Value`'s `Display` writes for a tree.
pub uninterp spec fn json_pretty(value: JsonView) -> Seq<char>;

/// `serde_json::Value` in the alternate form of its `Display`: one member or item per line,
/// indented. The text depends on the tree alone.
#[verifier::external_body]
fn value_to_pretty(value: &serde_json::Value) -> (document: String)
    ensures
        document@ == json_pretty(json_value(*value)),
{
    format!("{:#}", value)
}

/// Writes a JSON document over several lines.
pub fn pretty_json(json: &Json) -> (document: String)
    requires
        well_formed(json@),
    ensures
        document@ == json_pretty(json@),
{
    value_to_pretty(&to_value(json))
}

} // verus!
