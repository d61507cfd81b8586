//! The note: the unit that the engine stores.

use vstd::prelude::*;

use crate::json::{
    field_views, lemma_members_found, lemma_members_missing, lemma_views, members, Json, JsonValue,
};
use crate::storage::{Location, StorePath};
use crate::text::{first_line, first_two_lines, second_line};

verus! {

/// One operation of a rich text: named operands.
#[derive(Debug, PartialEq, Eq)]
pub struct DeltaOp {
    /// The operands by name; where a name occurs twice, the later one counts.
    pub fields: Vec<(String, Json)>,
}

impl View for DeltaOp {
    type V = Map<Seq<char>, JsonValue>;

    open spec fn view(&self) -> Map<Seq<char>, JsonValue> {
        members(field_views(self.fields@))
    }
}

/// What each of `ops` stands for.
pub open spec fn op_views(ops: Seq<DeltaOp>) -> Seq<Map<Seq<char>, JsonValue>> {
    Seq::new(ops.len(), |i: int| ops[i]@)
}

/// The rich text of a note: a run of operations, or none where the note was
/// made without one.
#[derive(Debug, PartialEq, Eq)]
pub struct Delta {
    pub ops: Option<Vec<DeltaOp>>,
}

impl View for Delta {
    type V = Option<Seq<Map<Seq<char>, JsonValue>>>;

    open spec fn view(&self) -> Option<Seq<Map<Seq<char>, JsonValue>>> {
        match self.ops {
            Some(ops) => Some(op_views(ops@)),
            None => None,
        }
    }
}

/// What a note holds besides its identifier and time.
#[derive(Debug, PartialEq, Eq)]
pub struct NoteContent {
    pub delta: Delta,
    pub title: String,
    pub body: String,
}

/// What a `NoteContent` stands for.
pub struct ContentView {
    pub delta: Option<Seq<Map<Seq<char>, JsonValue>>>,
    pub title: Seq<char>,
    pub body: Seq<char>,
}

impl View for NoteContent {
    type V = ContentView;

    open spec fn view(&self) -> ContentView {
        ContentView { delta: self.delta@, title: self.title@, body: self.body@ }
    }
}

/// A note.
#[derive(Debug, PartialEq, Eq)]
pub struct Note {
    /// The identifier, which is also the stem of the note's file name.
    pub uuid: String,
    /// When the note was last changed, in milliseconds since the epoch.
    pub timestamp: i64,
    pub content: NoteContent,
}

/// What a `Note` stands for.
pub struct NoteView {
    pub uuid: Seq<char>,
    pub timestamp: i64,
    pub content: ContentView,
}

impl View for Note {
    type V = NoteView;

    open spec fn view(&self) -> NoteView {
        NoteView { uuid: self.uuid@, timestamp: self.timestamp, content: self.content@ }
    }
}

impl DeepView for Note {
    type V = NoteView;

    open spec fn deep_view(&self) -> NoteView {
        self@
    }
}

/// The text that an operation puts in: its operand `insert` where that is a
/// string, else nothing.
pub open spec fn inserted(op: Map<Seq<char>, JsonValue>) -> Seq<char> {
    if op.contains_key("insert"@) {
        match op["insert"@] {
            JsonValue::Text(text) => text,
            _ => Seq::empty(),
        }
    } else {
        Seq::empty()
    }
}

/// The texts that the operations put in, one behind the other.
pub open spec fn inserted_text(ops: Seq<Map<Seq<char>, JsonValue>>) -> Seq<char>
    decreases ops.len(),
{
    if ops.len() == 0 {
        Seq::empty()
    } else {
        inserted_text(ops.drop_last()) + inserted(ops.last())
    }
}

/// The plain text of a note: what its operations put in, and nothing where
/// it has no operations.
pub open spec fn plain_text_of(note: NoteView) -> Seq<char> {
    match note.content.delta {
        Some(ops) => inserted_text(ops),
        None => Seq::empty(),
    }
}

/// The name of the file of the note `uuid`.
pub open spec fn note_file_name(uuid: Seq<char>) -> Seq<char> {
    uuid + ".json"@
}

/// Where the note `uuid` is kept below the storage root `dir`.
pub open spec fn note_location(dir: Seq<char>, uuid: Seq<char>) -> Location {
    Location { root: dir, parts: seq![crate::NOTES_DIR@, note_file_name(uuid)] }
}

/// The note that a free text gives: its first line is the title, its second
/// line the body, and its one operation puts in the whole text.
pub open spec fn text_note(text: Seq<char>, uuid: Seq<char>, timestamp: i64) -> NoteView {
    NoteView {
        uuid,
        timestamp,
        content: ContentView {
            delta: Some(seq![Map::empty().insert("insert"@, JsonValue::Text(text))]),
            title: first_line(text),
            body: second_line(text),
        },
    }
}

impl DeltaOp {
    /// The operation that puts in `text`.
    pub fn insert(text: String) -> (op: DeltaOp)
        ensures
            op@ == Map::<Seq<char>, JsonValue>::empty().insert("insert"@, JsonValue::Text(text@)),
    {
        let mut fields: Vec<(String, Json)> = Vec::new();
        fields.push(("insert".to_owned(), Json::Text(text)));
        proof {
            lemma_views(Seq::empty(), fields@);
            let views = field_views(fields@);
            assert(views.drop_last() =~= Seq::empty());
            assert(members(views.drop_last()) =~= Map::empty());
        }
        DeltaOp { fields }
    }

    /// The text that this operation puts in: its operand `insert` where that
    /// is a string, else nothing.
    pub fn inserted_text(&self) -> (text: &str)
        ensures
            text@ == inserted(self@),
    {
        let wanted = "insert".to_owned();
        let mut i: usize = self.fields.len();
        proof {
            lemma_views(Seq::empty(), self.fields@);
        }
        while i > 0
            invariant
                i <= self.fields.len(),
                wanted@ == "insert"@,
                field_views(self.fields@).len() == self.fields.len(),
                forall|k: int|
                    0 <= k < self.fields.len() ==> (#[trigger] field_views(self.fields@)[k]) == (
                        self.fields@[k].0@,
                        self.fields@[k].1@,
                    ),
                forall|k: int| i <= k < self.fields.len() ==> self.fields@[k].0@ != "insert"@,
            decreases i,
        {
            if self.fields[i - 1].0 == wanted {
                proof {
                    lemma_members_found(field_views(self.fields@), "insert"@, i - 1);
                    reveal_strlit("");
                    assert(""@ =~= Seq::<char>::empty());
                }
                return match &self.fields[i - 1].1 {
                    Json::Text(text) => text.as_str(),
                    _ => "",
                };
            }
            i = i - 1;
        }
        proof {
            lemma_members_missing(field_views(self.fields@), "insert"@);
            reveal_strlit("");
            assert(""@ =~= Seq::<char>::empty());
        }
        ""
    }
}

impl Note {
    /// Where the note `uuid` is kept below the storage root `dir`: in the
    /// notes directory, in the file named by the identifier and `.json`. The
    /// identifier is one name of the location, whatever it holds.
    pub fn get_path(dir: &str, uuid: &String) -> (path: StorePath)
        ensures
            path@ == note_location(dir@, uuid@),
    {
        let mut filename = uuid.clone();
        filename.append(".json");
        let path = StorePath::new(dir).join(crate::NOTES_DIR).join(filename.as_str());
        assert(path@.parts =~= seq![crate::NOTES_DIR@, note_file_name(uuid@)]);
        path
    }

    /// Whether the note has neither a title nor a body.
    pub fn is_empty(&self) -> (empty: bool)
        ensures
            empty == (self@.content.title.len() == 0 && self@.content.body.len() == 0),
    {
        self.content.title.as_str().is_empty() && self.content.body.as_str().is_empty()
    }

    /// The note that the free text `text` gives under the identifier `uuid`
    /// and the time `timestamp`.
    pub fn from_text(text: String, uuid: String, timestamp: i64) -> (note: Note)
        ensures
            note@ == text_note(text@, uuid@, timestamp),
    {
        let (title, body) = first_two_lines(text.as_str());
        let mut ops: Vec<DeltaOp> = Vec::new();
        ops.push(DeltaOp::insert(text));
        let note = Note {
            uuid,
            timestamp,
            content: NoteContent { title, body, delta: Delta { ops: Some(ops) } },
        };
        assert(note@.content.delta->Some_0 =~= text_note(
            text@,
            uuid@,
            timestamp,
        ).content.delta->Some_0);
        note
    }

    /// The plain text of the note: what its operations put in, one behind
    /// the other, and nothing where it has no operations.
    pub fn plain_text(&self) -> (text: String)
        ensures
            text@ == plain_text_of(self@),
    {
        let mut text = String::new();
        match &self.content.delta.ops {
            Some(ops) => {
                let mut i: usize = 0;
                assert(op_views(ops@).take(0) =~= Seq::empty());
                while i < ops.len()
                    invariant
                        i <= ops.len(),
                        text@ == inserted_text(op_views(ops@).take(i as int)),
                    decreases ops.len() - i,
                {
                    proof {
                        let upto = op_views(ops@).take(i + 1);
                        assert(upto.drop_last() =~= op_views(ops@).take(i as int));
                        assert(upto.last() == ops@[i as int]@);
                    }
                    text.append(ops[i].inserted_text());
                    i = i + 1;
                }
                assert(op_views(ops@).take(i as int) =~= op_views(ops@));
            },
            None => {},
        }
        text
    }
}

} // verus!
