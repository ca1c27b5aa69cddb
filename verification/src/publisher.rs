//! The document's publisher.

use vstd::prelude::*;
use crate::reader::{Cursor, XmlReader};
use crate::text::same_text;

verus! {

/// The `DocumentPublisher` element.
#[derive(Debug, Clone)]
pub struct Publisher {
    /// The text of `ContactDetails`.
    pub contactdetails: String,
    /// The text of `IssuingAuthority`.
    pub issuingauthority: String,
}

/// Mathematical view of a [`Publisher`].
pub struct PublisherView {
    pub contactdetails: Seq<char>,
    pub issuingauthority: Seq<char>,
}

impl PublisherView {
    /// The empty publisher: every text and every collection in it is empty.
    pub open spec fn empty() -> PublisherView {
        PublisherView { contactdetails: Seq::empty(), issuingauthority: Seq::empty() }
    }

    /// Whether `key` names a child whose text the publisher keeps.
    pub open spec fn keeps(key: Seq<char>) -> bool {
        key == "ContactDetails"@ || key == "IssuingAuthority"@
    }

    /// The publisher with the field that `key` names set to `text`.
    pub open spec fn with(self, key: Seq<char>, text: Seq<char>) -> PublisherView {
        if key == "ContactDetails"@ {
            PublisherView { contactdetails: text, ..self }
        } else if key == "IssuingAuthority"@ {
            PublisherView { issuingauthority: text, ..self }
        } else {
            self
        }
    }
}

impl View for Publisher {
    type V = PublisherView;

    open spec fn view(&self) -> PublisherView {
        PublisherView {
            contactdetails: self.contactdetails@,
            issuingauthority: self.issuingauthority@,
        }
    }
}

impl Publisher {
    /// An empty publisher, to load into.
    pub fn new() -> (publisher: Self)
        ensures
            publisher@ == PublisherView::empty(),
    {
        Publisher { contactdetails: String::new(), issuingauthority: String::new() }
    }

    /// What loading makes of `publisher` and `cursor`: sibling names are pulled at
    /// floor 1 until the scope closes or the stream ends; after each name that the
    /// publisher keeps, the next character data becomes that field.
    pub open spec fn spec_load(publisher: PublisherView, cursor: Cursor) -> (PublisherView, Cursor)
        decreases cursor.remaining(),
        when cursor.wf()
    {
        let next = cursor.advance();
        match cursor.sibling(1) {
            None => (publisher, next),
            Some(key) => {
                proof {
                    cursor.lemma_advance();
                    next.lemma_after_text();
                }
                if next.finished {
                    (publisher, next)
                } else if PublisherView::keeps(key) {
                    Publisher::spec_load(publisher.with(key, next.text()), next.after_text())
                } else {
                    Publisher::spec_load(publisher, next)
                }
            },
        }
    }

    /// The load moves the cursor on and ends with the scope at floor 1 closed.
    pub proof fn lemma_load(publisher: PublisherView, cursor: Cursor)
        requires
            cursor.wf(),
        ensures
            Publisher::spec_load(publisher, cursor).1.advanced(cursor),
            Publisher::spec_load(publisher, cursor).1.closed_at(1),
        decreases cursor.remaining(),
    {
        let next = cursor.advance();
        cursor.lemma_advance();
        match cursor.sibling(1) {
            None => {},
            Some(key) => {
                next.lemma_after_text();
                if next.finished {
                    // The stream has ended: so does the load.
                } else if PublisherView::keeps(key) {
                    Publisher::lemma_load(publisher.with(key, next.text()), next.after_text());
                } else {
                    Publisher::lemma_load(publisher, next);
                }
            },
        }
    }

    /// Loads the publisher from the stream.
    pub fn load_from_xmlreader(&mut self, reader: &mut XmlReader)
        requires
            old(reader)@.wf(),
        ensures
            (final(self)@, final(reader)@) == Publisher::spec_load(old(self)@, old(reader)@),
            final(reader)@.advanced(old(reader)@),
            final(reader)@.closed_at(1),
    {
        proof {
            Publisher::lemma_load(old(self)@, old(reader)@);
        }
        loop
            invariant_except_break
                Publisher::spec_load(self@, reader@) == Publisher::spec_load(
                    old(self)@,
                    old(reader)@,
                ),
            invariant
                reader@.wf(),
            ensures
                (self@, reader@) == Publisher::spec_load(old(self)@, old(reader)@),
            decreases reader@.remaining(),
        {
            let key = match reader.next_start_name_under_depth(1) {
                Some(key) => key,
                None => {
                    break ;
                },
            };
            if reader.finished() {
                break ;
            }
            if same_text(key.as_str(), "ContactDetails") {
                self.contactdetails = reader.next_characters();
            } else if same_text(key.as_str(), "IssuingAuthority") {
                self.issuingauthority = reader.next_characters();
            }
        }
    }
}

} // verus!
