//! The document's tracking data.

use vstd::prelude::*;
use crate::event::Token;
use crate::reader::{Cursor, XmlReader};
use crate::text::{lemma_views_empty, lemma_views_push, same_text, views};

verus! {

/// The `Identification` element.
#[derive(Debug, Clone)]
pub struct Identification {
    /// The text of `ID`.
    pub id: String,
}

/// Mathematical view of an [`Identification`].
pub struct IdentificationView {
    pub id: Seq<char>,
}

impl IdentificationView {
    /// The empty identification: every text and every collection in it is empty.
    pub open spec fn empty() -> IdentificationView {
        IdentificationView { id: Seq::empty() }
    }
}

impl View for Identification {
    type V = IdentificationView;

    open spec fn view(&self) -> IdentificationView {
        IdentificationView { id: self.id@ }
    }
}

impl Identification {
    /// An empty identification, to load into.
    pub fn new() -> (identification: Self)
        ensures
            identification@ == IdentificationView::empty(),
    {
        Identification { id: String::new() }
    }

    /// The second part of a load: sibling names are pulled at floor 2 until the
    /// identification's closing tag has been taken or the stream ends.
    pub open spec fn spec_close(cursor: Cursor) -> Cursor
        decreases cursor.remaining(),
        when cursor.wf()
    {
        let next = cursor.advance();
        match cursor.sibling(2) {
            None => next,
            Some(_) => {
                proof {
                    cursor.lemma_advance();
                }
                if next.finished {
                    next
                } else {
                    Identification::spec_close(next)
                }
            },
        }
    }

    /// What loading makes of a cursor: the next character data is the id, and the
    /// cursor goes on to behind the identification's closing tag.
    pub open spec fn spec_load(cursor: Cursor) -> (IdentificationView, Cursor) {
        (
            IdentificationView { id: cursor.text() },
            Identification::spec_close(cursor.after_text()),
        )
    }

    /// The second part of a load moves the cursor on and ends with the scope at
    /// floor 2 closed.
    pub proof fn lemma_close(cursor: Cursor)
        requires
            cursor.wf(),
        ensures
            Identification::spec_close(cursor).advanced(cursor),
            Identification::spec_close(cursor).closed_at(2),
        decreases cursor.remaining(),
    {
        let next = cursor.advance();
        cursor.lemma_advance();
        match cursor.sibling(2) {
            None => {},
            Some(_) => {
                if !next.finished {
                    Identification::lemma_close(next);
                }
            },
        }
    }

    /// The load moves the cursor on and ends with the scope at floor 2 closed.
    pub proof fn lemma_load(cursor: Cursor)
        requires
            cursor.wf(),
        ensures
            Identification::spec_load(cursor).1.advanced(cursor),
            Identification::spec_load(cursor).1.closed_at(2),
    {
        cursor.lemma_after_text();
        Identification::lemma_close(cursor.after_text());
    }

    /// Where the stream goes on with an opening tag, character data, that tag's
    /// closing tag and the identification's own, at depth 3, the character data is
    /// the id, and the cursor stands behind the identification's closing tag, at
    /// depth 2.
    pub proof fn lemma_load_element(cursor: Cursor, name: Seq<char>, text: Seq<char>)
        requires
            cursor.wf(),
            cursor.depth == 3,
            cursor.pending.len() > 4,
            cursor.pending[0] matches Token::Start { .. },
            cursor.pending[1] == Token::Text(text),
            cursor.pending[2] == Token::End,
            cursor.pending[3] == Token::End,
        ensures
            Identification::spec_load(cursor) == (
                IdentificationView { id: text },
                cursor.advance().advance().advance().advance(),
            ),
            Identification::spec_load(cursor).1.depth == 2,
    {
        let c1 = cursor.advance();
        cursor.lemma_advance();
        let c2 = c1.advance();
        c1.lemma_advance();
        let c3 = c2.advance();
        c2.lemma_advance();
        let c4 = c3.advance();
        c3.lemma_advance();
        assert(c1.text() == text);
        assert(c1.after_text() == c2);
        assert(cursor.after_text() == c2);
        assert(cursor.text() == text);
        assert(c3.pending =~= cursor.pending.skip(3));
        assert(Identification::spec_close(c3) == c4);
        assert(Identification::spec_close(c2) == c4);
    }

    /// Loads the identification from the stream.
    pub fn load_from_xmlreader(&mut self, reader: &mut XmlReader)
        requires
            old(reader)@.wf(),
        ensures
            (final(self)@, final(reader)@) == Identification::spec_load(old(reader)@),
            final(reader)@.advanced(old(reader)@),
            final(reader)@.closed_at(2),
    {
        proof {
            Identification::lemma_load(old(reader)@);
        }
        self.id = reader.next_characters();
        let ghost inside = reader@;
        loop
            invariant_except_break
                Identification::spec_close(reader@) == Identification::spec_close(inside),
            invariant
                reader@.wf(),
                self@ == (IdentificationView { id: old(reader)@.text() }),
            ensures
                reader@ == Identification::spec_close(inside),
            decreases reader@.remaining(),
        {
            match reader.next_start_name_under_depth(2) {
                Some(_) => {},
                None => {
                    break ;
                },
            }
            if reader.finished() {
                break ;
            }
        }
    }
}

/// One `Revision` element.
#[derive(Debug, Clone)]
pub struct Revision {
    /// The text of `Number`.
    pub number: String,
    /// The text of `Date`.
    pub date: String,
    /// The text of `Description`.
    pub description: String,
}

/// Mathematical view of a [`Revision`].
pub struct RevisionView {
    pub number: Seq<char>,
    pub date: Seq<char>,
    pub description: Seq<char>,
}

impl RevisionView {
    /// The empty revision: every text and every collection in it is empty.
    pub open spec fn empty() -> RevisionView {
        RevisionView { number: Seq::empty(), date: Seq::empty(), description: Seq::empty() }
    }

    /// Whether `key` names a child whose text the revision keeps.
    pub open spec fn keeps(key: Seq<char>) -> bool {
        key == "Number"@ || key == "Date"@ || key == "Description"@
    }

    /// The revision with the field that `key` names set to `text`.
    pub open spec fn with(self, key: Seq<char>, text: Seq<char>) -> RevisionView {
        if key == "Number"@ {
            RevisionView { number: text, ..self }
        } else if key == "Date"@ {
            RevisionView { date: text, ..self }
        } else if key == "Description"@ {
            RevisionView { description: text, ..self }
        } else {
            self
        }
    }
}

impl View for Revision {
    type V = RevisionView;

    open spec fn view(&self) -> RevisionView {
        RevisionView { number: self.number@, date: self.date@, description: self.description@ }
    }
}

impl Revision {
    /// An empty revision, to load into.
    pub fn new() -> (revision: Self)
        ensures
            revision@ == RevisionView::empty(),
    {
        Revision { number: String::new(), date: String::new(), description: String::new() }
    }

    /// What loading makes of `revision` and `cursor`: sibling names are pulled at
    /// floor 3 until the scope closes or the stream ends; after each name that the
    /// revision keeps, the next character data becomes that field.
    pub open spec fn spec_load(revision: RevisionView, cursor: Cursor) -> (RevisionView, Cursor)
        decreases cursor.remaining(),
        when cursor.wf()
    {
        let next = cursor.advance();
        match cursor.sibling(3) {
            None => (revision, next),
            Some(key) => {
                proof {
                    cursor.lemma_advance();
                    next.lemma_after_text();
                }
                if next.finished {
                    (revision, next)
                } else if RevisionView::keeps(key) {
                    Revision::spec_load(revision.with(key, next.text()), next.after_text())
                } else {
                    Revision::spec_load(revision, next)
                }
            },
        }
    }

    /// The load moves the cursor on and ends with the scope at floor 3 closed.
    pub proof fn lemma_load(revision: RevisionView, cursor: Cursor)
        requires
            cursor.wf(),
        ensures
            Revision::spec_load(revision, cursor).1.advanced(cursor),
            Revision::spec_load(revision, cursor).1.closed_at(3),
        decreases cursor.remaining(),
    {
        let next = cursor.advance();
        cursor.lemma_advance();
        match cursor.sibling(3) {
            None => {},
            Some(key) => {
                next.lemma_after_text();
                if next.finished {
                    // The stream has ended: so does the load.
                } else if RevisionView::keeps(key) {
                    Revision::lemma_load(revision.with(key, next.text()), next.after_text());
                } else {
                    Revision::lemma_load(revision, next);
                }
            },
        }
    }

    /// Loads one revision from the stream.
    pub fn load_from_xmlreader(&mut self, reader: &mut XmlReader)
        requires
            old(reader)@.wf(),
        ensures
            (final(self)@, final(reader)@) == Revision::spec_load(old(self)@, old(reader)@),
            final(reader)@.advanced(old(reader)@),
            final(reader)@.closed_at(3),
    {
        proof {
            Revision::lemma_load(old(self)@, old(reader)@);
        }
        loop
            invariant_except_break
                Revision::spec_load(self@, reader@) == Revision::spec_load(
                    old(self)@,
                    old(reader)@,
                ),
            invariant
                reader@.wf(),
            ensures
                (self@, reader@) == Revision::spec_load(old(self)@, old(reader)@),
            decreases reader@.remaining(),
        {
            let key = match reader.next_start_name_under_depth(3) {
                Some(key) => key,
                None => {
                    break ;
                },
            };
            if reader.finished() {
                break ;
            }
            if same_text(key.as_str(), "Number") {
                self.number = reader.next_characters();
            } else if same_text(key.as_str(), "Date") {
                self.date = reader.next_characters();
            } else if same_text(key.as_str(), "Description") {
                self.description = reader.next_characters();
            }
        }
    }
}

/// The `Generator` element.
#[derive(Debug, Clone)]
pub struct Generator {
    /// The text of `Engine`.
    pub engine: String,
    /// The text of `Date`.
    pub date: String,
}

/// Mathematical view of a [`Generator`].
pub struct GeneratorView {
    pub engine: Seq<char>,
    pub date: Seq<char>,
}

impl GeneratorView {
    /// The empty generator: every text and every collection in it is empty.
    pub open spec fn empty() -> GeneratorView {
        GeneratorView { engine: Seq::empty(), date: Seq::empty() }
    }

    /// Whether `key` names a child whose text the generator keeps.
    pub open spec fn keeps(key: Seq<char>) -> bool {
        key == "Engine"@ || key == "Date"@
    }

    /// The generator with the field that `key` names set to `text`.
    pub open spec fn with(self, key: Seq<char>, text: Seq<char>) -> GeneratorView {
        if key == "Engine"@ {
            GeneratorView { engine: text, ..self }
        } else if key == "Date"@ {
            GeneratorView { date: text, ..self }
        } else {
            self
        }
    }
}

impl View for Generator {
    type V = GeneratorView;

    open spec fn view(&self) -> GeneratorView {
        GeneratorView { engine: self.engine@, date: self.date@ }
    }
}

impl Generator {
    /// An empty generator, to load into.
    pub fn new() -> (generator: Self)
        ensures
            generator@ == GeneratorView::empty(),
    {
        Generator { engine: String::new(), date: String::new() }
    }

    /// What loading makes of `generator` and `cursor`: sibling names are pulled at
    /// floor 2 until the scope closes or the stream ends; after each name that the
    /// generator keeps, the next character data becomes that field.
    pub open spec fn spec_load(generator: GeneratorView, cursor: Cursor) -> (GeneratorView, Cursor)
        decreases cursor.remaining(),
        when cursor.wf()
    {
        let next = cursor.advance();
        match cursor.sibling(2) {
            None => (generator, next),
            Some(key) => {
                proof {
                    cursor.lemma_advance();
                    next.lemma_after_text();
                }
                if next.finished {
                    (generator, next)
                } else if GeneratorView::keeps(key) {
                    Generator::spec_load(generator.with(key, next.text()), next.after_text())
                } else {
                    Generator::spec_load(generator, next)
                }
            },
        }
    }

    /// The load moves the cursor on and ends with the scope at floor 2 closed.
    pub proof fn lemma_load(generator: GeneratorView, cursor: Cursor)
        requires
            cursor.wf(),
        ensures
            Generator::spec_load(generator, cursor).1.advanced(cursor),
            Generator::spec_load(generator, cursor).1.closed_at(2),
        decreases cursor.remaining(),
    {
        let next = cursor.advance();
        cursor.lemma_advance();
        match cursor.sibling(2) {
            None => {},
            Some(key) => {
                next.lemma_after_text();
                if next.finished {
                    // The stream has ended: so does the load.
                } else if GeneratorView::keeps(key) {
                    Generator::lemma_load(generator.with(key, next.text()), next.after_text());
                } else {
                    Generator::lemma_load(generator, next);
                }
            },
        }
    }

    /// Loads the generator from the stream.
    pub fn load_from_xmlreader(&mut self, reader: &mut XmlReader)
        requires
            old(reader)@.wf(),
        ensures
            (final(self)@, final(reader)@) == Generator::spec_load(old(self)@, old(reader)@),
            final(reader)@.advanced(old(reader)@),
            final(reader)@.closed_at(2),
    {
        proof {
            Generator::lemma_load(old(self)@, old(reader)@);
        }
        loop
            invariant_except_break
                Generator::spec_load(self@, reader@) == Generator::spec_load(
                    old(self)@,
                    old(reader)@,
                ),
            invariant
                reader@.wf(),
            ensures
                (self@, reader@) == Generator::spec_load(old(self)@, old(reader)@),
            decreases reader@.remaining(),
        {
            let key = match reader.next_start_name_under_depth(2) {
                Some(key) => key,
                None => {
                    break ;
                },
            };
            if reader.finished() {
                break ;
            }
            if same_text(key.as_str(), "Engine") {
                self.engine = reader.next_characters();
            } else if same_text(key.as_str(), "Date") {
                self.date = reader.next_characters();
            }
        }
    }
}

/// What loading a revision history makes of `revisions` and `cursor`: revisions
/// are loaded and appended one after another until a load leaves the depth below 3
/// or the stream has ended; the revision of that last load is dropped.
pub open spec fn spec_load_revisions(revisions: Seq<RevisionView>, cursor: Cursor) -> (
    Seq<RevisionView>,
    Cursor,
)
    decreases cursor.remaining(),
    when cursor.wf()
{
    let (revision, after) = Revision::spec_load(RevisionView::empty(), cursor);
    if after.depth < 3 || after.finished {
        (revisions, after)
    } else {
        proof {
            Revision::lemma_load(RevisionView::empty(), cursor);
        }
        spec_load_revisions(revisions.push(revision), after)
    }
}

/// The group load moves the cursor on and ends with the depth below 3 or the stream at its end.
pub proof fn lemma_load_revisions(revisions: Seq<RevisionView>, cursor: Cursor)
    requires
        cursor.wf(),
    ensures
        spec_load_revisions(revisions, cursor).1.advanced(cursor),
        spec_load_revisions(revisions, cursor).1.closed_below(3),
    decreases cursor.remaining(),
{
    let (revision, after) = Revision::spec_load(RevisionView::empty(), cursor);
    Revision::lemma_load(RevisionView::empty(), cursor);
    if !(after.depth < 3 || after.finished) {
        lemma_load_revisions(revisions.push(revision), after);
    }
}

/// At the end of a revision history the group load takes the closing tag and no
/// more: where the stream goes on with a closing tag that leaves the depth below
/// 3, the revisions stay as they were and the cursor stands behind that tag.
pub proof fn lemma_load_revisions_at_close(revisions: Seq<RevisionView>, cursor: Cursor)
    requires
        cursor.wf(),
        cursor.head() is End,
        cursor.advance().depth < 3,
    ensures
        spec_load_revisions(revisions, cursor) == (revisions, cursor.advance()),
{
}

/// The `DocumentTracking` element.
#[derive(Debug, Clone)]
pub struct DocumentTracking {
    /// The `Identification` child.
    pub identification: Identification,
    /// The text of `Status`.
    pub status: String,
    /// The text of `Version`.
    pub version: String,
    /// The revisions of `RevisionHistory`, in document order.
    pub revisionhistory: Vec<Revision>,
    /// The text of `InitialReleaseDate`.
    pub initialreleasedate: String,
    /// The text of `CurrentReleaseDate`.
    pub currentreleasedate: String,
    /// The `Generator` child.
    pub generator: Generator,
}

/// Mathematical view of a [`DocumentTracking`].
pub struct DocumentTrackingView {
    pub identification: IdentificationView,
    pub status: Seq<char>,
    pub version: Seq<char>,
    pub revisionhistory: Seq<RevisionView>,
    pub initialreleasedate: Seq<char>,
    pub currentreleasedate: Seq<char>,
    pub generator: GeneratorView,
}

impl DocumentTrackingView {
    /// The empty tracking data: every text and every collection in it is empty.
    pub open spec fn empty() -> DocumentTrackingView {
        DocumentTrackingView {
            identification: IdentificationView::empty(),
            status: Seq::empty(),
            version: Seq::empty(),
            revisionhistory: Seq::empty(),
            initialreleasedate: Seq::empty(),
            currentreleasedate: Seq::empty(),
            generator: GeneratorView::empty(),
        }
    }

    /// Whether `key` names a child whose text the tracking data keeps.
    pub open spec fn keeps(key: Seq<char>) -> bool {
        key == "Status"@ || key == "Version"@ || key == "InitialReleaseDate"@ || key
            == "CurrentReleaseDate"@
    }

    /// The tracking data with the field that `key` names set to `text`.
    pub open spec fn with(self, key: Seq<char>, text: Seq<char>) -> DocumentTrackingView {
        if key == "Status"@ {
            DocumentTrackingView { status: text, ..self }
        } else if key == "Version"@ {
            DocumentTrackingView { version: text, ..self }
        } else if key == "InitialReleaseDate"@ {
            DocumentTrackingView { initialreleasedate: text, ..self }
        } else if key == "CurrentReleaseDate"@ {
            DocumentTrackingView { currentreleasedate: text, ..self }
        } else {
            self
        }
    }
}

impl View for DocumentTracking {
    type V = DocumentTrackingView;

    open spec fn view(&self) -> DocumentTrackingView {
        DocumentTrackingView {
            identification: self.identification@,
            status: self.status@,
            version: self.version@,
            revisionhistory: views(self.revisionhistory@),
            initialreleasedate: self.initialreleasedate@,
            currentreleasedate: self.currentreleasedate@,
            generator: self.generator@,
        }
    }
}

impl DocumentTracking {
    /// An empty tracking data, to load into.
    pub fn new() -> (tracking: Self)
        ensures
            tracking@ == DocumentTrackingView::empty(),
    {
        let tracking = DocumentTracking {
            identification: Identification::new(),
            status: String::new(),
            version: String::new(),
            revisionhistory: Vec::new(),
            initialreleasedate: String::new(),
            currentreleasedate: String::new(),
            generator: Generator::new(),
        };
        proof {
            lemma_views_empty::<Revision>();
        }
        tracking
    }

    /// What loading makes of `tracking` and `cursor`: sibling names are pulled at
    /// floor 1 until the scope closes or the stream ends. `Identification`,
    /// `RevisionHistory` and `Generator` are loaded by their own rules; after each
    /// name whose text the tracking data keeps, the next character data becomes that
    /// field.
    pub open spec fn spec_load(tracking: DocumentTrackingView, cursor: Cursor) -> (
        DocumentTrackingView,
        Cursor,
    )
        decreases cursor.remaining(),
        when cursor.wf()
    {
        let next = cursor.advance();
        match cursor.sibling(1) {
            None => (tracking, next),
            Some(key) => {
                proof {
                    cursor.lemma_advance();
                    next.lemma_after_text();
                    Identification::lemma_load(next);
                    lemma_load_revisions(tracking.revisionhistory, next);
                    Generator::lemma_load(tracking.generator, next);
                }
                if next.finished {
                    (tracking, next)
                } else if key == "Identification"@ {
                    let (identification, after) = Identification::spec_load(next);
                    DocumentTracking::spec_load(
                        DocumentTrackingView { identification, ..tracking },
                        after,
                    )
                } else if key == "RevisionHistory"@ {
                    let (revisionhistory, after) = spec_load_revisions(
                        tracking.revisionhistory,
                        next,
                    );
                    DocumentTracking::spec_load(
                        DocumentTrackingView { revisionhistory, ..tracking },
                        after,
                    )
                } else if key == "Generator"@ {
                    let (generator, after) = Generator::spec_load(tracking.generator, next);
                    DocumentTracking::spec_load(
                        DocumentTrackingView { generator, ..tracking },
                        after,
                    )
                } else if DocumentTrackingView::keeps(key) {
                    DocumentTracking::spec_load(
                        tracking.with(key, next.text()),
                        next.after_text(),
                    )
                } else {
                    DocumentTracking::spec_load(tracking, next)
                }
            },
        }
    }

    /// The load moves the cursor on and ends with the scope at floor 1 closed.
    pub proof fn lemma_load(tracking: DocumentTrackingView, cursor: Cursor)
        requires
            cursor.wf(),
        ensures
            DocumentTracking::spec_load(tracking, cursor).1.advanced(cursor),
            DocumentTracking::spec_load(tracking, cursor).1.closed_at(1),
        decreases cursor.remaining(),
    {
        let next = cursor.advance();
        cursor.lemma_advance();
        match cursor.sibling(1) {
            None => {},
            Some(key) => {
                next.lemma_after_text();
                Identification::lemma_load(next);
                lemma_load_revisions(tracking.revisionhistory, next);
                Generator::lemma_load(tracking.generator, next);
                if next.finished {
                    // The stream has ended: so does the load.
                } else if key == "Identification"@ {
                    let (identification, after) = Identification::spec_load(next);
                    DocumentTracking::lemma_load(
                        DocumentTrackingView { identification, ..tracking },
                        after,
                    );
                } else if key == "RevisionHistory"@ {
                    let (revisionhistory, after) = spec_load_revisions(
                        tracking.revisionhistory,
                        next,
                    );
                    DocumentTracking::lemma_load(
                        DocumentTrackingView { revisionhistory, ..tracking },
                        after,
                    );
                } else if key == "Generator"@ {
                    let (generator, after) = Generator::spec_load(tracking.generator, next);
                    DocumentTracking::lemma_load(
                        DocumentTrackingView { generator, ..tracking },
                        after,
                    );
                } else if DocumentTrackingView::keeps(key) {
                    DocumentTracking::lemma_load(
                        tracking.with(key, next.text()),
                        next.after_text(),
                    );
                } else {
                    DocumentTracking::lemma_load(tracking, next);
                }
            },
        }
    }

    /// Loads the tracking data from the stream.
    pub fn load_from_xmlreader(&mut self, reader: &mut XmlReader)
        requires
            old(reader)@.wf(),
        ensures
            (final(self)@, final(reader)@) == DocumentTracking::spec_load(
                old(self)@,
                old(reader)@,
            ),
            final(reader)@.advanced(old(reader)@),
            final(reader)@.closed_at(1),
    {
        proof {
            DocumentTracking::lemma_load(old(self)@, old(reader)@);
        }
        loop
            invariant_except_break
                DocumentTracking::spec_load(self@, reader@) == DocumentTracking::spec_load(
                    old(self)@,
                    old(reader)@,
                ),
            invariant
                reader@.wf(),
            ensures
                (self@, reader@) == DocumentTracking::spec_load(old(self)@, old(reader)@),
            decreases reader@.remaining(),
        {
            let key = match reader.next_start_name_under_depth(1) {
                Some(key) => key,
                None => {
                    break ;
                },
            };
            if reader.finished() {
                break ;
            }
            if same_text(key.as_str(), "Identification") {
                self.identification.load_from_xmlreader(reader);
            } else if same_text(key.as_str(), "RevisionHistory") {
                self.handle_revisionhistory(reader);
            } else if same_text(key.as_str(), "Generator") {
                self.generator.load_from_xmlreader(reader);
            } else if same_text(key.as_str(), "Status") {
                self.status = reader.next_characters();
            } else if same_text(key.as_str(), "Version") {
                self.version = reader.next_characters();
            } else if same_text(key.as_str(), "InitialReleaseDate") {
                self.initialreleasedate = reader.next_characters();
            } else if same_text(key.as_str(), "CurrentReleaseDate") {
                self.currentreleasedate = reader.next_characters();
            }
        }
    }

    /// Loads the revisions of a revision history and appends them.
    pub fn handle_revisionhistory(&mut self, reader: &mut XmlReader)
        requires
            old(reader)@.wf(),
        ensures
            (final(self)@.revisionhistory, final(reader)@) == spec_load_revisions(
                old(self)@.revisionhistory,
                old(reader)@,
            ),
            final(self)@ == (DocumentTrackingView {
                revisionhistory: final(self)@.revisionhistory,
                ..old(self)@
            }),
            final(reader)@.advanced(old(reader)@),
            final(reader)@.closed_below(3),
    {
        proof {
            lemma_load_revisions(old(self)@.revisionhistory, old(reader)@);
        }
        loop
            invariant_except_break
                spec_load_revisions(self@.revisionhistory, reader@) == spec_load_revisions(
                    old(self)@.revisionhistory,
                    old(reader)@,
                ),
            invariant
                reader@.wf(),
                self@ == (DocumentTrackingView {
                    revisionhistory: self@.revisionhistory,
                    ..old(self)@
                }),
            ensures
                (self@.revisionhistory, reader@) == spec_load_revisions(
                    old(self)@.revisionhistory,
                    old(reader)@,
                ),
            decreases reader@.remaining(),
        {
            let mut revision = Revision::new();
            revision.load_from_xmlreader(reader);
            if reader.depth() < 3 || reader.finished() {
                break ;
            }
            proof {
                lemma_views_push(self.revisionhistory@, revision);
            }
            self.revisionhistory.push(revision);
        }
    }
}

} // verus!
