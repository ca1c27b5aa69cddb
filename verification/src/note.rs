//! Notes and groups of notes.

use vstd::prelude::*;
use crate::event::{attribute_named, attribute_value, AttributeView, Event, Token};
use crate::reader::{Cursor, XmlReader};
use crate::text::{lemma_map_views_insert, map_views, or_keep};
use crate::textmap::TextMap;

verus! {

/// One `Note` element.
#[derive(Debug, Clone)]
pub struct Note {
    /// The `Title` attribute, by which a group of notes is keyed.
    pub title: String,
    /// The `Type` attribute.
    pub kind: String,
    /// The `Ordinal` attribute.
    pub ordinal: String,
    /// The text of the element.
    pub content: String,
}

/// Mathematical view of a [`Note`].
pub struct NoteView {
    pub title: Seq<char>,
    pub kind: Seq<char>,
    pub ordinal: Seq<char>,
    pub content: Seq<char>,
}

impl NoteView {
    /// The empty note: every text and every collection in it is empty.
    pub open spec fn empty() -> NoteView {
        NoteView {
            title: Seq::empty(),
            kind: Seq::empty(),
            ordinal: Seq::empty(),
            content: Seq::empty(),
        }
    }

    /// The note with the fields that `attributes` name set from them, and with
    /// `content`.
    pub open spec fn with(self, attributes: Seq<AttributeView>, content: Seq<char>) -> NoteView {
        NoteView {
            title: or_keep(attribute_named(attributes, "Title"@), self.title),
            kind: or_keep(attribute_named(attributes, "Type"@), self.kind),
            ordinal: or_keep(attribute_named(attributes, "Ordinal"@), self.ordinal),
            content,
        }
    }
}

impl View for Note {
    type V = NoteView;

    open spec fn view(&self) -> NoteView {
        NoteView {
            title: self.title@,
            kind: self.kind@,
            ordinal: self.ordinal@,
            content: self.content@,
        }
    }
}

impl Note {
    /// An empty note, to load into.
    pub fn new() -> (note: Self)
        ensures
            note@ == NoteView::empty(),
    {
        Note {
            title: String::new(),
            kind: String::new(),
            ordinal: String::new(),
            content: String::new(),
        }
    }

    /// What loading makes of `note` and `cursor`: each opening tag sets the fields
    /// that its attributes name and then the content from the next character data;
    /// the first closing tag, or the end of the stream, ends the load.
    pub open spec fn spec_load(note: NoteView, cursor: Cursor) -> (NoteView, Cursor)
        decreases cursor.remaining(),
        when cursor.wf()
    {
        let next = cursor.advance();
        match cursor.head() {
            Token::Start { attributes, .. } => {
                proof {
                    cursor.lemma_advance();
                    next.lemma_after_text();
                }
                Note::spec_load(note.with(attributes, next.text()), next.after_text())
            },
            Token::End | Token::EndDocument | Token::Failure => (note, next),
            _ => {
                proof {
                    cursor.lemma_advance();
                }
                Note::spec_load(note, next)
            },
        }
    }

    /// The load moves the cursor on.
    pub proof fn lemma_load(note: NoteView, cursor: Cursor)
        requires
            cursor.wf(),
        ensures
            Note::spec_load(note, cursor).1.advanced(cursor),
        decreases cursor.remaining(),
    {
        let next = cursor.advance();
        cursor.lemma_advance();
        match cursor.head() {
            Token::Start { attributes, .. } => {
                next.lemma_after_text();
                Note::lemma_load(note.with(attributes, next.text()), next.after_text());
            },
            Token::End | Token::EndDocument | Token::Failure => {},
            _ => {
                Note::lemma_load(note, next);
            },
        }
    }

    /// Where the stream goes on with an opening tag, character data and a closing
    /// tag, the note takes what the tag's attributes name and the character data as
    /// its content, and the cursor stands behind the closing tag.
    pub proof fn lemma_load_element(
        note: NoteView,
        cursor: Cursor,
        name: Seq<char>,
        attributes: Seq<AttributeView>,
        text: Seq<char>,
    )
        requires
            cursor.wf(),
            cursor.pending.len() > 3,
            cursor.pending[0] == (Token::Start { name, attributes }),
            cursor.pending[1] == Token::Text(text),
            cursor.pending[2] == Token::End,
        ensures
            Note::spec_load(note, cursor) == (
                note.with(attributes, text),
                cursor.advance().advance().advance(),
            ),
    {
        let inside = cursor.advance();
        cursor.lemma_advance();
        let behind = inside.advance();
        inside.lemma_advance();
        assert(inside.text() == text);
        assert(inside.after_text() == behind);
        assert(Note::spec_load(note.with(attributes, text), behind) == (
            note.with(attributes, text),
            behind.advance(),
        ));
    }

    /// Loads one note from the stream.
    pub fn load_from_xmlreader(&mut self, reader: &mut XmlReader)
        requires
            old(reader)@.wf(),
        ensures
            (final(self)@, final(reader)@) == Note::spec_load(old(self)@, old(reader)@),
            final(reader)@.advanced(old(reader)@),
    {
        proof {
            Note::lemma_load(old(self)@, old(reader)@);
        }
        loop
            invariant_except_break
                Note::spec_load(self@, reader@) == Note::spec_load(old(self)@, old(reader)@),
            invariant
                reader@.wf(),
            ensures
                (self@, reader@) == Note::spec_load(old(self)@, old(reader)@),
            decreases reader@.remaining(),
        {
            match reader.next() {
                Event::Start { attributes, .. } => {
                    if let Some(value) = attribute_value(&attributes, "Title") {
                        self.title = value;
                    }
                    if let Some(value) = attribute_value(&attributes, "Type") {
                        self.kind = value;
                    }
                    if let Some(value) = attribute_value(&attributes, "Ordinal") {
                        self.ordinal = value;
                    }
                    self.content = reader.next_characters();
                },
                Event::End | Event::EndDocument | Event::Failure => {
                    break ;
                },
                _ => {},
            }
        }
    }
}

/// What loading a group of notes makes of `notes` and `cursor`: notes are loaded one
/// after another and put under their titles, a later note replacing an earlier one
/// of the same title, until a load leaves the depth below `floor` or the stream has
/// ended; the note of that last load is dropped.
pub open spec fn spec_load_notes(notes: Map<Seq<char>, NoteView>, floor: usize, cursor: Cursor) -> (
    Map<Seq<char>, NoteView>,
    Cursor,
)
    decreases cursor.remaining(),
    when cursor.wf()
{
    let (note, after) = Note::spec_load(NoteView::empty(), cursor);
    if after.depth < floor || after.finished {
        (notes, after)
    } else {
        proof {
            Note::lemma_load(NoteView::empty(), cursor);
        }
        spec_load_notes(notes.insert(note.title, note), floor, after)
    }
}

/// The group load moves the cursor on and ends with the depth below `floor` or the
/// stream at its end.
pub proof fn lemma_load_notes(notes: Map<Seq<char>, NoteView>, floor: usize, cursor: Cursor)
    requires
        cursor.wf(),
    ensures
        spec_load_notes(notes, floor, cursor).1.advanced(cursor),
        spec_load_notes(notes, floor, cursor).1.closed_below(floor),
    decreases cursor.remaining(),
{
    let (note, after) = Note::spec_load(NoteView::empty(), cursor);
    Note::lemma_load(NoteView::empty(), cursor);
    if !(after.depth < floor || after.finished) {
        lemma_load_notes(notes.insert(note.title, note), floor, after);
    }
}

/// At the end of a group of notes the group load takes the closing tag and no
/// more: where the stream goes on with a closing tag that leaves the depth below
/// `floor`, the notes stay as they were and the cursor stands behind that tag.
pub proof fn lemma_load_notes_at_close(
    notes: Map<Seq<char>, NoteView>,
    floor: usize,
    cursor: Cursor,
)
    requires
        cursor.wf(),
        cursor.head() is End,
        cursor.advance().depth < floor,
    ensures
        spec_load_notes(notes, floor, cursor) == (notes, cursor.advance()),
{
}

/// Of two notes of one title that follow each other in a group, the group keeps
/// the later: where the stream goes on with two note elements and the group's
/// closing tag, the notes gain one entry, under that title, and it is the second
/// note.
pub proof fn lemma_later_note_wins(
    notes: Map<Seq<char>, NoteView>,
    floor: usize,
    cursor: Cursor,
    first: (Seq<AttributeView>, Seq<char>),
    second: (Seq<AttributeView>, Seq<char>),
)
    requires
        cursor.wf(),
        0 < floor == cursor.depth < usize::MAX,
        cursor.pending.len() > 7,
        cursor.pending[0] matches Token::Start { attributes, .. } && attributes == first.0,
        cursor.pending[1] == Token::Text(first.1),
        cursor.pending[2] == Token::End,
        cursor.pending[3] matches Token::Start { attributes, .. } && attributes == second.0,
        cursor.pending[4] == Token::Text(second.1),
        cursor.pending[5] == Token::End,
        cursor.pending[6] == Token::End,
        NoteView::empty().with(first.0, first.1).title == NoteView::empty().with(
            second.0,
            second.1,
        ).title,
    ensures
        spec_load_notes(notes, floor, cursor).0 == notes.insert(
            NoteView::empty().with(second.0, second.1).title,
            NoteView::empty().with(second.0, second.1),
        ),
{
    let one = NoteView::empty().with(first.0, first.1);
    let two = NoteView::empty().with(second.0, second.1);
    let c1 = cursor.advance();
    let c2 = c1.advance();
    let c3 = c2.advance();
    cursor.lemma_advance();
    c1.lemma_advance();
    c2.lemma_advance();
    match cursor.pending[0] {
        Token::Start { name, attributes } => {
            Note::lemma_load_element(NoteView::empty(), cursor, name, attributes, first.1);
        },
        _ => {},
    }
    assert(Note::spec_load(NoteView::empty(), cursor) == (one, c3));
    assert(c3.depth == floor && !c3.finished);
    assert(c3.pending =~= cursor.pending.skip(3));
    let c4 = c3.advance();
    let c5 = c4.advance();
    let c6 = c5.advance();
    c3.lemma_advance();
    c4.lemma_advance();
    c5.lemma_advance();
    match c3.pending[0] {
        Token::Start { name, attributes } => {
            Note::lemma_load_element(NoteView::empty(), c3, name, attributes, second.1);
        },
        _ => {},
    }
    assert(Note::spec_load(NoteView::empty(), c3) == (two, c6));
    assert(c6.depth == floor && !c6.finished);
    assert(c6.pending =~= cursor.pending.skip(6));
    c6.lemma_advance();
    assert(Note::spec_load(NoteView::empty(), c6).1.depth < floor);
    let kept = notes.insert(one.title, one).insert(two.title, two);
    assert(spec_load_notes(kept, floor, c6).0 == kept);
    assert(spec_load_notes(notes.insert(one.title, one), floor, c3).0 == kept);
    assert(kept =~= notes.insert(two.title, two));
}

/// Loads a group of notes into `notes`, keyed by title.
pub fn load_notes(notes: &mut TextMap<Note>, floor: usize, reader: &mut XmlReader)
    requires
        old(reader)@.wf(),
    ensures
        (map_views(final(notes)@), final(reader)@) == spec_load_notes(
            map_views(old(notes)@),
            floor,
            old(reader)@,
        ),
        final(reader)@.advanced(old(reader)@),
        final(reader)@.closed_below(floor),
{
    proof {
        lemma_load_notes(map_views(old(notes)@), floor, old(reader)@);
    }
    loop
        invariant_except_break
            spec_load_notes(map_views(notes@), floor, reader@) == spec_load_notes(
                map_views(old(notes)@),
                floor,
                old(reader)@,
            ),
        invariant
            reader@.wf(),
        ensures
            (map_views(notes@), reader@) == spec_load_notes(
                map_views(old(notes)@),
                floor,
                old(reader)@,
            ),
        decreases reader@.remaining(),
    {
        let mut note = Note::new();
        note.load_from_xmlreader(reader);
        if reader.depth() < floor || reader.finished() {
            break ;
        }
        proof {
            lemma_map_views_insert(notes@, note.title@, note);
        }
        let title = note.title.clone();
        notes.insert(title, note);
    }
}

} // verus!
