//! References and groups of references.

use vstd::prelude::*;
use crate::event::{first_attribute, first_attribute_value, Event, Token};
use crate::reader::{Cursor, XmlReader};
use crate::text::{
    lemma_map_views_insert, lemma_views_empty, lemma_views_push, map_views, or_keep, views,
};
use crate::textmap::TextMap;

verus! {

/// One `Reference` element.
#[derive(Debug, Clone)]
pub struct Reference {
    /// The `Type` attribute, by which a group of references is keyed.
    pub kind: String,
    /// The texts of the `URL` children, in document order.
    pub url: Vec<String>,
}

/// Mathematical view of a [`Reference`].
pub struct ReferenceView {
    pub kind: Seq<char>,
    pub url: Seq<Seq<char>>,
}

impl ReferenceView {
    /// The empty reference: every text and every collection in it is empty.
    pub open spec fn empty() -> ReferenceView {
        ReferenceView { kind: Seq::empty(), url: Seq::empty() }
    }
}

impl View for Reference {
    type V = ReferenceView;

    open spec fn view(&self) -> ReferenceView {
        ReferenceView { kind: self.kind@, url: views(self.url@) }
    }
}

impl Reference {
    /// An empty reference, to load into.
    pub fn new() -> (reference: Self)
        ensures
            reference@ == ReferenceView::empty(),
    {
        let reference = Reference { kind: String::new(), url: Vec::new() };
        proof {
            lemma_views_empty::<String>();
        }
        reference
    }

    /// What loading makes of `reference` and `cursor`. An opening tag at depth 3 is
    /// the reference's own: its first attribute, if it has one, is the kind. An
    /// opening tag at any other depth is a child: the next character data is
    /// appended to the URLs. A closing tag that leaves the depth below 3, or the end
    /// of the stream, ends the load.
    pub open spec fn spec_load(reference: ReferenceView, cursor: Cursor) -> (ReferenceView, Cursor)
        decreases cursor.remaining(),
        when cursor.wf()
    {
        let next = cursor.advance();
        match cursor.head() {
            Token::Start { attributes, .. } => {
                proof {
                    cursor.lemma_advance();
                    next.lemma_after_text();
                }
                if next.depth == 3 {
                    Reference::spec_load(
                        ReferenceView {
                            kind: or_keep(first_attribute(attributes), reference.kind),
                            ..reference
                        },
                        next,
                    )
                } else {
                    Reference::spec_load(
                        ReferenceView { url: reference.url.push(next.text()), ..reference },
                        next.after_text(),
                    )
                }
            },
            Token::End => {
                if next.depth < 3 {
                    (reference, next)
                } else {
                    proof {
                        cursor.lemma_advance();
                    }
                    Reference::spec_load(reference, next)
                }
            },
            Token::EndDocument | Token::Failure => (reference, next),
            _ => {
                proof {
                    cursor.lemma_advance();
                }
                Reference::spec_load(reference, next)
            },
        }
    }

    /// The load moves the cursor on and ends with the depth below 3 or the stream at its end.
    pub proof fn lemma_load(reference: ReferenceView, cursor: Cursor)
        requires
            cursor.wf(),
        ensures
            Reference::spec_load(reference, cursor).1.advanced(cursor),
            Reference::spec_load(reference, cursor).1.closed_below(3),
        decreases cursor.remaining(),
    {
        let next = cursor.advance();
        cursor.lemma_advance();
        match cursor.head() {
            Token::Start { attributes, .. } => {
                next.lemma_after_text();
                if next.depth == 3 {
                    Reference::lemma_load(
                        ReferenceView {
                            kind: or_keep(first_attribute(attributes), reference.kind),
                            ..reference
                        },
                        next,
                    );
                } else {
                    Reference::lemma_load(
                        ReferenceView { url: reference.url.push(next.text()), ..reference },
                        next.after_text(),
                    );
                }
            },
            Token::End => {
                if next.depth >= 3 {
                    Reference::lemma_load(reference, next);
                }
            },
            Token::EndDocument | Token::Failure => {},
            _ => {
                Reference::lemma_load(reference, next);
            },
        }
    }

    /// Loads one reference from the stream.
    pub fn load_from_xmlreader(&mut self, reader: &mut XmlReader)
        requires
            old(reader)@.wf(),
        ensures
            (final(self)@, final(reader)@) == Reference::spec_load(old(self)@, old(reader)@),
            final(reader)@.advanced(old(reader)@),
            final(reader)@.closed_below(3),
    {
        proof {
            Reference::lemma_load(old(self)@, old(reader)@);
        }
        loop
            invariant_except_break
                Reference::spec_load(self@, reader@) == Reference::spec_load(
                    old(self)@,
                    old(reader)@,
                ),
            invariant
                reader@.wf(),
            ensures
                (self@, reader@) == Reference::spec_load(old(self)@, old(reader)@),
            decreases reader@.remaining(),
        {
            match reader.next() {
                Event::Start { attributes, .. } => {
                    if reader.depth() == 3 {
                        if let Some(value) = first_attribute_value(&attributes) {
                            self.kind = value;
                        }
                    } else {
                        let text = reader.next_characters();
                        proof {
                            lemma_views_push(self.url@, text);
                        }
                        self.url.push(text);
                    }
                },
                Event::End => {
                    if reader.depth() < 3 {
                        break ;
                    }
                },
                Event::EndDocument | Event::Failure => {
                    break ;
                },
                _ => {},
            }
        }
    }
}

/// What loading a group of references makes of `references` and `cursor`:
/// references are loaded one after another and put under their kinds, a later one
/// replacing an earlier one of the same kind, until a load leaves the depth below
/// `floor` or the stream has ended; the reference of that last load is dropped.
pub open spec fn spec_load_references(
    references: Map<Seq<char>, ReferenceView>,
    floor: usize,
    cursor: Cursor,
) -> (Map<Seq<char>, ReferenceView>, Cursor)
    decreases cursor.remaining(),
    when cursor.wf()
{
    let (reference, after) = Reference::spec_load(ReferenceView::empty(), cursor);
    if after.depth < floor || after.finished {
        (references, after)
    } else {
        proof {
            Reference::lemma_load(ReferenceView::empty(), cursor);
        }
        spec_load_references(references.insert(reference.kind, reference), floor, after)
    }
}

/// The group load moves the cursor on and ends with the depth below `floor` or the
/// stream at its end.
pub proof fn lemma_load_references(
    references: Map<Seq<char>, ReferenceView>,
    floor: usize,
    cursor: Cursor,
)
    requires
        cursor.wf(),
    ensures
        spec_load_references(references, floor, cursor).1.advanced(cursor),
        spec_load_references(references, floor, cursor).1.closed_below(floor),
    decreases cursor.remaining(),
{
    let (reference, after) = Reference::spec_load(ReferenceView::empty(), cursor);
    Reference::lemma_load(ReferenceView::empty(), cursor);
    if !(after.depth < floor || after.finished) {
        lemma_load_references(references.insert(reference.kind, reference), floor, after);
    }
}

/// At the end of a group of references the group load takes the closing tag and
/// no more: where the stream goes on with a closing tag that leaves the depth below
/// `floor`, which is at most 3, the references stay as they were and the cursor
/// stands behind that tag.
pub proof fn lemma_load_references_at_close(
    references: Map<Seq<char>, ReferenceView>,
    floor: usize,
    cursor: Cursor,
)
    requires
        cursor.wf(),
        cursor.head() is End,
        floor <= 3,
        cursor.advance().depth < floor,
    ensures
        spec_load_references(references, floor, cursor) == (references, cursor.advance()),
{
}

/// Loads a group of references into `references`, keyed by kind.
pub fn load_references(references: &mut TextMap<Reference>, floor: usize, reader: &mut XmlReader)
    requires
        old(reader)@.wf(),
    ensures
        (map_views(final(references)@), final(reader)@) == spec_load_references(
            map_views(old(references)@),
            floor,
            old(reader)@,
        ),
        final(reader)@.advanced(old(reader)@),
        final(reader)@.closed_below(floor),
{
    proof {
        lemma_load_references(map_views(old(references)@), floor, old(reader)@);
    }
    loop
        invariant_except_break
            spec_load_references(map_views(references@), floor, reader@)
                == spec_load_references(map_views(old(references)@), floor, old(reader)@),
        invariant
            reader@.wf(),
        ensures
            (map_views(references@), reader@) == spec_load_references(
                map_views(old(references)@),
                floor,
                old(reader)@,
            ),
        decreases reader@.remaining(),
    {
        let mut reference = Reference::new();
        reference.load_from_xmlreader(reader);
        if reader.depth() < floor || reader.finished() {
            break ;
        }
        proof {
            lemma_map_views_insert(references@, reference.kind@, reference);
        }
        let kind = reference.kind.clone();
        references.insert(kind, reference);
    }
}

} // verus!
