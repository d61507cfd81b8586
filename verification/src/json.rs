//! JSON documents as trees, and the reading and writing of their text.

use serde_json::Value;
use vstd::prelude::*;

use crate::error::NoteError;

verus! {

/// A JSON document. A number that is a 64-bit signed integer stands as
/// `Int`; any other number stands as `Number`, by its text.
pub enum JsonValue {
    Null,
    Bool(bool),
    Int(i64),
    Number(Seq<char>),
    Text(Seq<char>),
    Array(Seq<JsonValue>),
    Object(Map<Seq<char>, JsonValue>),
}

/// A JSON document. An object is a list of named members; where a name
/// occurs twice, the later member counts.
#[derive(Debug, PartialEq, Eq)]
pub enum Json {
    Null,
    Bool(bool),
    /// A number that is a 64-bit signed integer.
    Int(i64),
    /// Any other number, by its text: a fraction, a number with an
    /// exponent, or an integer beyond the 64-bit signed ones. A text that
    /// is no number is written as `null`.
    Number(String),
    Text(String),
    Array(Vec<Json>),
    Object(Vec<(String, Json)>),
}

/// The object that a list of named members stands for.
pub open spec fn members(fields: Seq<(Seq<char>, JsonValue)>) -> Map<Seq<char>, JsonValue>
    decreases fields.len(),
{
    if fields.len() == 0 {
        Map::empty()
    } else {
        members(fields.drop_last()).insert(fields.last().0, fields.last().1)
    }
}

/// The document that `tree` stands for.
pub open spec fn tree_value(tree: Json) -> JsonValue
    decreases tree,
{
    match tree {
        Json::Null => JsonValue::Null,
        Json::Bool(b) => JsonValue::Bool(b),
        Json::Int(n) => JsonValue::Int(n),
        Json::Number(text) => JsonValue::Number(text@),
        Json::Text(s) => JsonValue::Text(s@),
        Json::Array(items) => JsonValue::Array(item_views(items@)),
        Json::Object(fields) => JsonValue::Object(members(field_views(fields@))),
    }
}

/// What each of `items` stands for.
pub open spec fn item_views(items: Seq<Json>) -> Seq<JsonValue>
    decreases items,
{
    Seq::new(
        items.len(),
        |i: int|
            if 0 <= i < items.len() {
                tree_value(items[i])
            } else {
                JsonValue::Null
            },
    )
}

/// What each of `fields` stands for.
pub open spec fn field_views(fields: Seq<(String, Json)>) -> Seq<(Seq<char>, JsonValue)>
    decreases fields,
{
    Seq::new(
        fields.len(),
        |i: int|
            if 0 <= i < fields.len() {
                (fields[i].0@, tree_value(fields[i].1))
            } else {
                (Seq::empty(), JsonValue::Null)
            },
    )
}

impl View for Json {
    type V = JsonValue;

    open spec fn view(&self) -> JsonValue {
        tree_value(*self)
    }
}

/// The items of an array stand each for its own document, and so do the
/// members of an object.
pub proof fn lemma_views(items: Seq<Json>, fields: Seq<(String, Json)>)
    ensures
        item_views(items).len() == items.len(),
        forall|i: int| 0 <= i < items.len() ==> (#[trigger] item_views(items)[i]) == items[i]@,
        field_views(fields).len() == fields.len(),
        forall|i: int|
            0 <= i < fields.len() ==> (#[trigger] field_views(fields)[i]) == (
                fields[i].0@,
                fields[i].1@,
            ),
{
}

/// The member of a name is the last one in the list that bears it.
pub proof fn lemma_members_found(fields: Seq<(Seq<char>, JsonValue)>, name: Seq<char>, i: int)
    requires
        0 <= i < fields.len(),
        fields[i].0 == name,
        forall|k: int| i < k < fields.len() ==> fields[k].0 != name,
    ensures
        members(fields).contains_key(name),
        members(fields)[name] == fields[i].1,
    decreases fields.len(),
{
    if i < fields.len() - 1 {
        lemma_members_found(fields.drop_last(), name, i);
    }
}

/// A name that no member of the list bears is not in the object.
pub proof fn lemma_members_missing(fields: Seq<(Seq<char>, JsonValue)>, name: Seq<char>)
    requires
        forall|k: int| 0 <= k < fields.len() ==> fields[k].0 != name,
    ensures
        !members(fields).contains_key(name),
    decreases fields.len(),
{
    if fields.len() > 0 {
        lemma_members_missing(fields.drop_last(), name);
    }
}

impl JsonValue {
    /// The member `name` of this document, if it is an object that has one.
    pub open spec fn member(self, name: Seq<char>) -> Option<JsonValue> {
        match self {
            JsonValue::Object(fields) => if fields.contains_key(name) {
                Some(fields[name])
            } else {
                None
            },
            _ => None,
        }
    }
}

impl Json {
    /// The member `name` of this document, if it is an object that has one.
    pub fn get(&self, name: &str) -> (found: Option<&Json>)
        ensures
            match found {
                Some(value) => self@.member(name@) == Some(value@),
                None => self@.member(name@) is None,
            },
    {
        match self {
            Json::Object(fields) => {
                let wanted = name.to_owned();
                let mut i: usize = fields.len();
                while i > 0
                    invariant
                        i <= fields.len(),
                        wanted@ == name@,
                        self@ == JsonValue::Object(members(field_views(fields@))),
                        forall|k: int| i <= k < fields.len() ==> fields@[k].0@ != name@,
                    decreases i,
                {
                    if fields[i - 1].0 == wanted {
                        proof {
                            lemma_views(Seq::empty(), fields@);
                            lemma_members_found(field_views(fields@), name@, i - 1);
                        }
                        return Some(&fields[i - 1].1);
                    }
                    i = i - 1;
                }
                proof {
                    lemma_views(Seq::empty(), fields@);
                    lemma_members_missing(field_views(fields@), name@);
                }
                None
            },
            _ => None,
        }
    }
}

/// Adding a member to a list puts it into the object, in place of an
/// earlier member of its name.
pub proof fn lemma_members_push(fields: Seq<(Seq<char>, JsonValue)>, name: Seq<char>, value: JsonValue)
    ensures
        members(fields.push((name, value))) == members(fields).insert(name, value),
{
    assert(fields.push((name, value)).drop_last() =~= fields);
}

/// A copy of a list of members.
pub fn copy_fields(fields: &Vec<(String, Json)>) -> (copies: Vec<(String, Json)>)
    ensures
        field_views(copies@) == field_views(fields@),
{
    let mut copies: Vec<(String, Json)> = Vec::new();
    let mut i: usize = 0;
    while i < fields.len()
        invariant
            i <= fields.len(),
            copies.len() == i,
            forall|k: int|
                0 <= k < i ==> copies@[k].0@ == fields@[k].0@ && copies@[k].1@ == fields@[k].1@,
        decreases fields.len() - i,
    {
        copies.push((fields[i].0.clone(), fields[i].1.duplicate()));
        i = i + 1;
    }
    proof {
        lemma_views(Seq::empty(), fields@);
        lemma_views(Seq::empty(), copies@);
        assert(field_views(copies@) =~= field_views(fields@));
    }
    copies
}

/// Adds the member `name` with the value `value` to a list of members.
pub fn put(fields: &mut Vec<(String, Json)>, name: &str, value: Json)
    ensures
        members(field_views(final(fields)@)) == members(field_views(old(fields)@)).insert(
            name@,
            value@,
        ),
{
    let ghost before = fields@;
    fields.push((name.to_owned(), value));
    proof {
        lemma_views(Seq::empty(), before);
        lemma_views(Seq::empty(), fields@);
        assert(field_views(fields@) =~= field_views(before).push((name@, value@)));
        lemma_members_push(field_views(before), name@, value@);
    }
}

impl Clone for Json {
    fn clone(&self) -> (copy: Json)
        ensures
            copy@ == self@,
    {
        self.duplicate()
    }
}

impl Json {
    /// A copy of this document.
    pub fn duplicate(&self) -> (copy: Json)
        ensures
            copy@ == self@,
        decreases self,
    {
        match self {
            Json::Null => Json::Null,
            Json::Bool(b) => Json::Bool(*b),
            Json::Int(n) => Json::Int(*n),
            Json::Number(text) => Json::Number(text.clone()),
            Json::Text(s) => Json::Text(s.clone()),
            Json::Array(items) => {
                let mut copies: Vec<Json> = Vec::new();
                let mut i: usize = 0;
                while i < items.len()
                    invariant
                        i <= items.len(),
                        copies.len() == i,
                        *self == Json::Array(*items),
                        forall|k: int| 0 <= k < i ==> copies@[k]@ == items@[k]@,
                    decreases items.len() - i,
                {
                    proof {
                        vstd::std_specs::vec::axiom_vec_index_decreases(*items, i as int);
                        assert(decreases_to!(*self => self->Array_0));
                    }
                    copies.push(items[i].duplicate());
                    i = i + 1;
                }
                proof {
                    lemma_views(items@, Seq::empty());
                    lemma_views(copies@, Seq::empty());
                    assert(item_views(copies@) =~= item_views(items@));
                }
                Json::Array(copies)
            },
            Json::Object(fields) => {
                let mut copies: Vec<(String, Json)> = Vec::new();
                let mut i: usize = 0;
                while i < fields.len()
                    invariant
                        i <= fields.len(),
                        copies.len() == i,
                        *self == Json::Object(*fields),
                        forall|k: int|
                            0 <= k < i ==> copies@[k].0@ == fields@[k].0@ && copies@[k].1@
                                == fields@[k].1@,
                    decreases fields.len() - i,
                {
                    proof {
                        vstd::std_specs::vec::axiom_vec_index_decreases(*fields, i as int);
                        assert(decreases_to!(*self => self->Object_0));
                        assert(decreases_to!(fields@[i as int] => fields@[i as int].1));
                    }
                    copies.push((fields[i].0.clone(), fields[i].1.duplicate()));
                    i = i + 1;
                }
                proof {
                    lemma_views(Seq::empty(), fields@);
                    lemma_views(Seq::empty(), copies@);
                    assert(field_views(copies@) =~= field_views(fields@));
                }
                Json::Object(copies)
            },
        }
    }
}

/// `serde_json::Value`: a JSON document as serde_json holds it.
#[verifier::external_type_specification]
#[verifier::external_body]
pub struct ExValue(serde_json::Value);

/// `serde_json::Error`: why serde_json could not read a text.
#[verifier::external_type_specification]
#[verifier::external_body]
pub struct ExError(serde_json::Error);

/// The document that `serde_json::from_str` reads from `text`, where it
/// reads one. A number that `serde_json::Number::as_i64` gives as an
/// integer stands as `Int`, any other number as `Number` with the text that
/// the `Display` of `serde_json::Number` writes for it.
pub uninterp spec fn json_parse(text: Seq<char>) -> Option<JsonValue>;

/// The text that `serde_json::to_string` writes for `tree`.
pub uninterp spec fn json_text(tree: JsonValue) -> Seq<char>;

/// Turns a document of serde_json into a tree, variant by variant. A
/// number that `serde_json::Number::as_i64` gives as an integer becomes an
/// `Int`; any other number becomes a `Number` with the text that its
/// `Display` writes. The members of an object come in the order in which
/// serde_json's map hands them out.
#[verifier::external_body]
fn tree_of(value: serde_json::Value) -> Json {
    match value {
        Value::Null => Json::Null,
        Value::Bool(b) => Json::Bool(b),
        Value::Number(n) => n.as_i64().map_or_else(|| Json::Number(n.to_string()), Json::Int),
        Value::String(s) => Json::Text(s),
        Value::Array(items) => Json::Array(items.into_iter().map(tree_of).collect()),
        Value::Object(fields) => {
            Json::Object(fields.into_iter().map(|(k, v)| (k, tree_of(v))).collect())
        },
    }
}

/// Turns a tree into a document of serde_json, variant by variant. The
/// members of an object are put into serde_json's map one by one, in their
/// order, with `serde_json::Map::insert`, which replaces the value of a
/// name that is there: of two members of one name the later one stays. The
/// text of a `Number` is read with `serde_json::from_str` as a
/// `serde_json::Number`; where it reads none, the document is the default
/// of `serde_json::Value`, which is `null`.
#[verifier::external_body]
fn value_of(tree: &Json) -> serde_json::Value {
    match tree {
        Json::Null => Value::Null,
        Json::Bool(b) => Value::Bool(*b),
        Json::Int(n) => Value::Number((*n).into()),
        Json::Number(t) => serde_json::from_str(t).map(Value::Number).unwrap_or_default(),
        Json::Text(s) => Value::String(s.clone()),
        Json::Array(items) => Value::Array(items.iter().map(value_of).collect()),
        Json::Object(fields) => {
            let mut map = serde_json::Map::new();
            for (k, v) in fields { map.insert(k.clone(), value_of(v)); }
            Value::Object(map)
        },
    }
}

/// Calls `serde_json::from_str` for a `serde_json::Value` and turns what it
/// read into a tree. The contract names the result: the same text gives the
/// same tree, or none.
#[verifier::external_body]
fn read_tree(text: &str) -> (read: Result<Json, serde_json::Error>)
    ensures
        match read {
            Ok(tree) => json_parse(text@) == Some(tree@),
            Err(_) => json_parse(text@) is None,
        },
{
    serde_json::from_str::<Value>(text).map(tree_of)
}

/// Calls `serde_json::to_string` on the document of `tree`. The contract
/// names the result: it depends on nothing but what the tree stands for.
/// That holds with the default features of serde_json, under which its map
/// keeps the members in the order of their names; with its feature
/// `preserve_order` the text would follow the order of the members, which
/// the view of a tree forgets.
#[verifier::external_body]
fn write_tree(tree: &Json) -> (text: String)
    ensures
        text@ == json_text(tree@),
{
    serde_json::to_string(&value_of(tree)).unwrap_or_default()
}

/// The message of a `serde_json::Error`, as its `Display` writes it. Nothing
/// is claimed of the message.
#[verifier::external_body]
fn error_message(error: &serde_json::Error) -> String {
    error.to_string()
}

impl Json {
    /// Reads a JSON text. It fails with `MalformedRecord` where the text is
    /// no JSON.
    pub fn parse(text: &str) -> (parsed: Result<Json, NoteError>)
        ensures
            match parsed {
                Ok(tree) => json_parse(text@) == Some(tree@),
                Err(error) => json_parse(text@) is None && error is MalformedRecord,
            },
    {
        match read_tree(text) {
            Ok(tree) => Ok(tree),
            Err(error) => Err(NoteError::MalformedRecord(error_message(&error))),
        }
    }

    /// Writes this document as JSON text. The members of an object are
    /// written in the order of their names, each name once.
    pub fn render(&self) -> (text: String)
        ensures
            text@ == json_text(self@),
    {
        write_tree(self)
    }
}

} // verus!
