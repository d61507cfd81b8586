//! The record of a note: the JSON document that stands for it, and its text.

use vstd::prelude::*;

use crate::error::{FailureKind, NoteError};
use crate::json::{
    copy_fields, field_views, item_views, json_parse, json_text, lemma_views, members, put, Json,
    JsonValue,
};
use crate::note::{op_views, ContentView, Delta, DeltaOp, Note, NoteContent, NoteView};

verus! {

/// The document of a run of operations: an array of objects, or `null` where there is none.
pub open spec fn ops_tree(ops: Option<Seq<Map<Seq<char>, JsonValue>>>) -> JsonValue {
    match ops {
        Some(list) => JsonValue::Array(Seq::new(list.len(), |i: int| JsonValue::Object(list[i]))),
        None => JsonValue::Null,
    }
}

/// The document of the content of a note.
pub open spec fn content_tree(content: ContentView) -> JsonValue {
    JsonValue::Object(
        Map::empty().insert(
            "delta"@,
            JsonValue::Object(Map::empty().insert("ops"@, ops_tree(content.delta))),
        ).insert("title"@, JsonValue::Text(content.title)).insert(
            "body"@,
            JsonValue::Text(content.body),
        ),
    )
}

/// The document of a note. Its identifier stands under `uuid`.
pub open spec fn record_tree(note: NoteView) -> JsonValue {
    JsonValue::Object(
        Map::empty().insert("uuid"@, JsonValue::Text(note.uuid)).insert(
            "timestamp"@,
            JsonValue::Int(note.timestamp),
        ).insert("content"@, content_tree(note.content)),
    )
}

/// Whether every item of `items` is an object.
pub open spec fn all_objects(items: Seq<JsonValue>) -> bool {
    forall|i: int| 0 <= i < items.len() ==> (#[trigger] items[i]) is Object
}

/// The run of operations that the member `ops` of a rich text gives: none
/// where the member is missing or `null`, the objects of an array of
/// objects, and no answer for anything else.
pub open spec fn tree_ops(member: Option<JsonValue>) -> Option<Option<Seq<Map<Seq<char>, JsonValue>>>> {
    match member {
        None => Some(None),
        Some(JsonValue::Null) => Some(None),
        Some(JsonValue::Array(items)) => if all_objects(items) {
            Some(Some(Seq::new(items.len(), |i: int| items[i]->Object_0)))
        } else {
            None
        },
        Some(_) => None,
    }
}

/// The content that a document gives: an object with the strings `title`
/// and `body` and the object `delta`.
pub open spec fn tree_content(tree: JsonValue) -> Option<ContentView> {
    match (tree.member("title"@), tree.member("body"@), tree.member("delta"@)) {
        (Some(JsonValue::Text(title)), Some(JsonValue::Text(body)), Some(JsonValue::Object(delta))) => {
            match tree_ops(JsonValue::Object(delta).member("ops"@)) {
                Some(ops) => Some(ContentView { delta: ops, title, body }),
                None => None,
            }
        },
        _ => None,
    }
}

/// The identifier that a document gives: its string `uuid`, or else its
/// string `id`, the name that earlier records gave it.
pub open spec fn tree_uuid(tree: JsonValue) -> Option<Seq<char>> {
    match tree.member("uuid"@) {
        Some(JsonValue::Text(uuid)) => Some(uuid),
        _ => match tree.member("id"@) {
            Some(JsonValue::Text(id)) => Some(id),
            _ => None,
        },
    }
}

/// The note that a document gives: an object with an identifier, the
/// number `timestamp` and the content `content`. Other members are passed over.
pub open spec fn tree_record(tree: JsonValue) -> Option<NoteView> {
    match (tree_uuid(tree), tree.member("timestamp"@), tree.member("content"@)) {
        (Some(uuid), Some(JsonValue::Int(timestamp)), Some(content)) => match tree_content(content) {
            Some(content) => Some(NoteView { uuid, timestamp, content }),
            None => None,
        },
        _ => None,
    }
}

/// The text of a note's record.
pub open spec fn encoded(note: NoteView) -> Seq<char> {
    json_text(record_tree(note))
}

/// The note that the text of a record gives.
pub open spec fn decoded(text: Seq<char>) -> Option<NoteView> {
    match json_parse(text) {
        Some(tree) => tree_record(tree),
        None => None,
    }
}

/// The names of the members of a record differ from one another.
pub proof fn lemma_names_differ()
    ensures
        "uuid"@ != "id"@,
        "uuid"@ != "timestamp"@,
        "uuid"@ != "content"@,
        "id"@ != "timestamp"@,
        "id"@ != "content"@,
        "timestamp"@ != "content"@,
        "title"@ != "body"@,
        "title"@ != "delta"@,
        "body"@ != "delta"@,
{
    reveal_strlit("uuid");
    reveal_strlit("id");
    reveal_strlit("timestamp");
    reveal_strlit("content");
    reveal_strlit("title");
    reveal_strlit("body");
    reveal_strlit("delta");
    assert("uuid"@.len() == 4 && "id"@.len() == 2 && "timestamp"@.len() == 9);
    assert("content"@.len() == 7 && "title"@.len() == 5 && "body"@.len() == 4);
    assert("title"@[0] == 't' && "delta"@[0] == 'd');
}

/// Reading the document that was written for a note gives the note back,
/// equal in every field.
pub proof fn lemma_record_round_trip(note: NoteView)
    ensures
        tree_record(record_tree(note)) == Some(note),
{
    lemma_names_differ();
    let content = content_tree(note.content);
    match note.content.delta {
        Some(list) => {
            let items = Seq::new(list.len(), |i: int| JsonValue::Object(list[i]));
            assert(all_objects(items));
            assert(Seq::new(items.len(), |i: int| items[i]->Object_0) =~= list);
        },
        None => {},
    }
    assert(tree_content(content) == Some(note.content));
}

/// Reading the text that was written for a note gives the note back,
/// wherever the reader of JSON gives back the document that the writer was given.
pub proof fn lemma_text_round_trip(note: NoteView)
    ensures
        json_parse(json_text(record_tree(note))) == Some(record_tree(note)) ==> decoded(
            encoded(note),
        ) == Some(note),
{
    lemma_record_round_trip(note);
}

/// A record of the earlier shape, with its identifier under `id` and
/// nothing under `uuid`, gives the note that the same record gives with the
/// identifier under `uuid`; that note bears the identifier.
pub proof fn lemma_legacy_id(fields: Map<Seq<char>, JsonValue>, id: Seq<char>)
    requires
        !fields.contains_key("uuid"@),
        fields.contains_key("id"@),
        fields["id"@] == JsonValue::Text(id),
    ensures
        tree_record(JsonValue::Object(fields)) == tree_record(
            JsonValue::Object(fields.insert("uuid"@, JsonValue::Text(id))),
        ),
        tree_record(JsonValue::Object(fields)) matches Some(note) ==> note.uuid == id,
{
    lemma_names_differ();
}

/// The document written for a note has no member `id`.
pub proof fn lemma_never_writes_id(note: NoteView)
    ensures
        record_tree(note).member("id"@) is None,
        record_tree(note).member("uuid"@) == Some(JsonValue::Text(note.uuid)),
{
    lemma_names_differ();
}

/// The error for a document that is no record of a note: a
/// `MalformedRecord` that carries `message`.
fn malformed(message: &str) -> (error: NoteError)
    ensures
        error is MalformedRecord,
        error.is_failure(FailureKind::Malformed, message@),
{
    NoteError::MalformedRecord(message.to_owned())
}

impl DeltaOp {
    /// The document of this operation: an object of its operands.
    pub fn to_json(&self) -> (tree: Json)
        ensures
            tree@ == JsonValue::Object(self@),
    {
        Json::Object(copy_fields(&self.fields))
    }
}

impl Delta {
    /// The document of this rich text.
    pub fn to_json(&self) -> (tree: Json)
        ensures
            tree@ == JsonValue::Object(Map::empty().insert("ops"@, ops_tree(self@))),
    {
        let ops = match &self.ops {
            Some(list) => {
                let mut items: Vec<Json> = Vec::new();
                let mut i: usize = 0;
                while i < list.len()
                    invariant
                        i <= list.len(),
                        items.len() == i,
                        forall|k: int| 0 <= k < i ==> items@[k]@ == JsonValue::Object(list@[k]@),
                    decreases list.len() - i,
                {
                    items.push(list[i].to_json());
                    i = i + 1;
                }
                proof {
                    lemma_views(items@, Seq::empty());
                    assert(item_views(items@) =~= ops_tree(self@)->Array_0);
                }
                Json::Array(items)
            },
            None => Json::Null,
        };
        let mut fields: Vec<(String, Json)> = Vec::new();
        assert(members(field_views(fields@)) =~= Map::empty());
        put(&mut fields, "ops", ops);
        Json::Object(fields)
    }

    /// The rich text that the document `tree` gives under `ops`.
    pub fn from_json(tree: &Json) -> (delta: Option<Delta>)
        ensures
            match delta {
                Some(d) => tree_ops(tree@.member("ops"@)) == Some(d@),
                None => tree_ops(tree@.member("ops"@)) is None,
            },
    {
        let member = match tree.get("ops") {
            Some(member) => member,
            None => {
                return Some(Delta { ops: None });
            },
        };
        let items = match member {
            Json::Null => {
                return Some(Delta { ops: None });
            },
            Json::Array(items) => items,
            _ => {
                return None;
            },
        };
        proof {
            lemma_views(items@, Seq::empty());
        }
        let ghost values = item_views(items@);
        let mut ops: Vec<DeltaOp> = Vec::new();
        let mut i: usize = 0;
        while i < items.len()
            invariant
                i <= items.len(),
                ops.len() == i,
                values == item_views(items@),
                values.len() == items.len(),
                forall|k: int| 0 <= k < items.len() ==> (#[trigger] values[k]) == items@[k]@,
                forall|k: int|
                    0 <= k < i ==> (#[trigger] values[k]) is Object && ops@[k]@
                        == values[k]->Object_0,
                tree@.member("ops"@) == Some(JsonValue::Array(values)),
            decreases items.len() - i,
        {
            match &items[i] {
                Json::Object(fields) => {
                    ops.push(DeltaOp { fields: copy_fields(fields) });
                },
                _ => {
                    assert(!(values[i as int] is Object));
                    return None;
                },
            }
            i = i + 1;
        }
        assert(all_objects(values));
        assert(op_views(ops@) =~= Seq::new(values.len(), |k: int| values[k]->Object_0));
        Some(Delta { ops: Some(ops) })
    }
}

impl NoteContent {
    /// The document of this content.
    pub fn to_json(&self) -> (tree: Json)
        ensures
            tree@ == content_tree(self@),
    {
        let mut fields: Vec<(String, Json)> = Vec::new();
        assert(members(field_views(fields@)) =~= Map::empty());
        put(&mut fields, "delta", self.delta.to_json());
        put(&mut fields, "title", Json::Text(self.title.clone()));
        put(&mut fields, "body", Json::Text(self.body.clone()));
        Json::Object(fields)
    }

    /// The content that the document `tree` gives.
    pub fn from_json(tree: &Json) -> (content: Option<NoteContent>)
        ensures
            match content {
                Some(c) => tree_content(tree@) == Some(c@),
                None => tree_content(tree@) is None,
            },
    {
        let title = match tree.get("title") {
            Some(Json::Text(title)) => title.clone(),
            _ => {
                return None;
            },
        };
        let body = match tree.get("body") {
            Some(Json::Text(body)) => body.clone(),
            _ => {
                return None;
            },
        };
        let delta = match tree.get("delta") {
            Some(member) => match member {
                Json::Object(_) => match Delta::from_json(member) {
                    Some(delta) => delta,
                    None => {
                        return None;
                    },
                },
                _ => {
                    return None;
                },
            },
            None => {
                return None;
            },
        };
        Some(NoteContent { delta, title, body })
    }
}

impl Note {
    /// The document of this note. Its identifier stands under `uuid`.
    pub fn to_json(&self) -> (tree: Json)
        ensures
            tree@ == record_tree(self@),
    {
        let mut fields: Vec<(String, Json)> = Vec::new();
        assert(members(field_views(fields@)) =~= Map::empty());
        put(&mut fields, "uuid", Json::Text(self.uuid.clone()));
        put(&mut fields, "timestamp", Json::Int(self.timestamp));
        put(&mut fields, "content", self.content.to_json());
        Json::Object(fields)
    }

    /// The note that the document `tree` gives, or `MalformedRecord` where
    /// it gives none. The identifier is read from `uuid`, or else from `id`.
    pub fn from_json(tree: &Json) -> (note: Result<Note, NoteError>)
        ensures
            match note {
                Ok(n) => tree_record(tree@) == Some(n@),
                Err(error) => tree_record(tree@) is None && error is MalformedRecord,
            },
    {
        let current = match tree.get("uuid") {
            Some(Json::Text(uuid)) => Some(uuid.clone()),
            _ => None,
        };
        let uuid = match current {
            Some(uuid) => uuid,
            None => match tree.get("id") {
                Some(Json::Text(id)) => id.clone(),
                _ => {
                    return Err(malformed("a note needs a string `uuid`"));
                },
            },
        };
        let timestamp = match tree.get("timestamp") {
            Some(Json::Int(n)) => *n,
            _ => {
                return Err(malformed("a note needs a number `timestamp`"));
            },
        };
        let content = match tree.get("content") {
            Some(member) => match NoteContent::from_json(member) {
                Some(content) => content,
                None => {
                    return Err(malformed("the `content` of the note is not well formed"));
                },
            },
            None => {
                return Err(malformed("a note needs a `content`"));
            },
        };
        Ok(Note { uuid, timestamp, content })
    }

    /// The text of this note's record: its document in JSON.
    pub fn serialize(&self) -> (text: String)
        ensures
            text@ == encoded(self@),
    {
        self.to_json().render()
    }

    /// The note whose record `text` is, or `MalformedRecord` where the text
    /// is no JSON or its document gives no note.
    pub fn deserialize(text: &str) -> (note: Result<Note, NoteError>)
        ensures
            match note {
                Ok(n) => decoded(text@) == Some(n@),
                Err(error) => decoded(text@) is None && error is MalformedRecord,
            },
    {
        match Json::parse(text) {
            Ok(tree) => Note::from_json(&tree),
            Err(error) => Err(error),
        }
    }
}

} // verus!
