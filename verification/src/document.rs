//! The advisory document and its load.

use vstd::prelude::*;
use crate::event::{Event, Token};
use crate::note::{lemma_load_notes, load_notes, spec_load_notes, Note, NoteView};
use crate::product::{ProductTree, ProductTreeView};
use crate::publisher::{Publisher, PublisherView};
use crate::reader::{lemma_depth_zero_at_end, well_nested, Cursor, XmlReader};
use crate::reference::{
    lemma_load_references, load_references, spec_load_references, Reference, ReferenceView,
};
use crate::severity::ParseSeverityError;
use crate::source::{terminated, xml_events};
use crate::text::{
    lemma_map_views_empty, lemma_views_empty, lemma_views_push, map_views, same_text, views,
};
use crate::textmap::TextMap;
use crate::tracking::{DocumentTracking, DocumentTrackingView};
use crate::vulnerability::{Vulnerability, VulnerabilityView};

verus! {

/// Why a load failed.
#[derive(Debug, Clone, PartialEq, Eq, Structural)]
pub enum LoadError {
    /// The token stream is malformed or could not be read to its end.
    Stream,
    /// A threat's description names no severity.
    Severity(ParseSeverityError),
}

/// What loading one vulnerability makes of `vulnerabilities` and `cursor`; the
/// third part says whether it succeeded. A vulnerability is loaded; it is appended
/// where the load succeeded and its CVE id is not empty.
pub open spec fn spec_load_vulnerability(
    vulnerabilities: Seq<VulnerabilityView>,
    cursor: Cursor,
) -> (Seq<VulnerabilityView>, Cursor, bool) {
    let (vulnerability, after, loaded) = Vulnerability::spec_load(
        VulnerabilityView::empty(),
        cursor,
    );
    if loaded && vulnerability.cve.len() > 0 {
        (vulnerabilities.push(vulnerability), after, loaded)
    } else {
        (vulnerabilities, after, loaded)
    }
}

/// Every vulnerability of the list carries a CVE id.
pub open spec fn all_identified(vulnerabilities: Seq<VulnerabilityView>) -> bool {
    forall|i: int| 0 <= i < vulnerabilities.len() ==> (#[trigger] vulnerabilities[i]).cve.len() > 0
}

/// An advisory document.
#[derive(Debug, Clone)]
pub struct CVRF {
    /// The text of `DocumentTitle`.
    pub documenttitle: String,
    /// The text of `DocumentType`.
    pub documenttype: String,
    /// The `DocumentPublisher` element.
    pub documentpublisher: Publisher,
    /// The `DocumentTracking` element.
    pub documenttracking: DocumentTracking,
    /// The notes of `DocumentNotes`, by title.
    pub documentnotes: TextMap<Note>,
    /// The references of `DocumentReferences`, by kind.
    pub documentreferences: TextMap<Reference>,
    /// The `ProductTree` element.
    pub producttree: ProductTree,
    /// The vulnerabilities that carry a CVE id, in document order.
    pub vulnerabilities: Vec<Vulnerability>,
}

/// Mathematical view of a [`CVRF`] document.
pub struct CVRFView {
    pub documenttitle: Seq<char>,
    pub documenttype: Seq<char>,
    pub documentpublisher: PublisherView,
    pub documenttracking: DocumentTrackingView,
    pub documentnotes: Map<Seq<char>, NoteView>,
    pub documentreferences: Map<Seq<char>, ReferenceView>,
    pub producttree: ProductTreeView,
    pub vulnerabilities: Seq<VulnerabilityView>,
}

impl CVRFView {
    /// The empty document: every text and every collection in it is empty.
    pub open spec fn empty() -> CVRFView {
        CVRFView {
            documenttitle: Seq::empty(),
            documenttype: Seq::empty(),
            documentpublisher: PublisherView::empty(),
            documenttracking: DocumentTrackingView::empty(),
            documentnotes: Map::empty(),
            documentreferences: Map::empty(),
            producttree: ProductTreeView::empty(),
            vulnerabilities: Seq::empty(),
        }
    }

    /// Whether `key` names a child whose text the document keeps.
    pub open spec fn keeps(key: Seq<char>) -> bool {
        key == "DocumentTitle"@ || key == "DocumentType"@
    }

    /// The document with the field that `key` names set to `text`.
    pub open spec fn with(self, key: Seq<char>, text: Seq<char>) -> CVRFView {
        if key == "DocumentTitle"@ {
            CVRFView { documenttitle: text, ..self }
        } else if key == "DocumentType"@ {
            CVRFView { documenttype: text, ..self }
        } else {
            self
        }
    }
}

impl View for CVRF {
    type V = CVRFView;

    open spec fn view(&self) -> CVRFView {
        CVRFView {
            documenttitle: self.documenttitle@,
            documenttype: self.documenttype@,
            documentpublisher: self.documentpublisher@,
            documenttracking: self.documenttracking@,
            documentnotes: map_views(self.documentnotes@),
            documentreferences: map_views(self.documentreferences@),
            producttree: self.producttree@,
            vulnerabilities: views(self.vulnerabilities@),
        }
    }
}

impl CVRF {
    /// The empty document.
    pub fn new() -> (document: Self)
        ensures
            document@ == CVRFView::empty(),
    {
        let document = CVRF {
            documenttitle: String::new(),
            documenttype: String::new(),
            documentpublisher: Publisher::new(),
            documenttracking: DocumentTracking::new(),
            documentnotes: TextMap::new(),
            documentreferences: TextMap::new(),
            producttree: ProductTree::new(),
            vulnerabilities: Vec::new(),
        };
        proof {
            lemma_map_views_empty::<Note>();
            lemma_map_views_empty::<Reference>();
            lemma_views_empty::<Vulnerability>();
        }
        document
    }

    /// What the element called `key`, met at depth 2, makes of `document` and of the
    /// cursor behind its opening tag; the third part says whether it succeeded.
    /// `DocumentTitle` and `DocumentType` take the next character data; the other
    /// known elements are loaded by their own rules; an unknown element changes
    /// nothing.
    pub open spec fn spec_dispatch(document: CVRFView, key: Seq<char>, cursor: Cursor) -> (
        CVRFView,
        Cursor,
        bool,
    ) {
        if CVRFView::keeps(key) {
            (document.with(key, cursor.text()), cursor.after_text(), true)
        } else if key == "DocumentPublisher"@ {
            let (documentpublisher, after) = Publisher::spec_load(
                document.documentpublisher,
                cursor,
            );
            (CVRFView { documentpublisher, ..document }, after, true)
        } else if key == "DocumentTracking"@ {
            let (documenttracking, after) = DocumentTracking::spec_load(
                document.documenttracking,
                cursor,
            );
            (CVRFView { documenttracking, ..document }, after, true)
        } else if key == "DocumentNotes"@ {
            let (documentnotes, after) = spec_load_notes(document.documentnotes, 2, cursor);
            (CVRFView { documentnotes, ..document }, after, true)
        } else if key == "DocumentReferences"@ {
            let (documentreferences, after) = spec_load_references(
                document.documentreferences,
                2,
                cursor,
            );
            (CVRFView { documentreferences, ..document }, after, true)
        } else if key == "ProductTree"@ {
            let (producttree, after) = ProductTree::spec_load(document.producttree, cursor);
            (CVRFView { producttree, ..document }, after, true)
        } else if key == "Vulnerability"@ {
            let (vulnerabilities, after, loaded) = spec_load_vulnerability(
                document.vulnerabilities,
                cursor,
            );
            (CVRFView { vulnerabilities, ..document }, after, loaded)
        } else {
            (document, cursor, true)
        }
    }

    /// What loading makes of `document` and `cursor`, and how it ends. Events are
    /// pulled until the stream ends: at the end of the document the load succeeds,
    /// at a failure of the stream it fails. An opening tag that brings the depth to
    /// 2 is dispatched by its name; where that fails, the load fails at once. Every
    /// other event is passed over.
    pub open spec fn spec_load(document: CVRFView, cursor: Cursor) -> (
        CVRFView,
        Cursor,
        Result<(), LoadError>,
    )
        decreases cursor.remaining(),
        when cursor.wf()
    {
        let next = cursor.advance();
        match cursor.head() {
            Token::EndDocument => (document, next, Ok(())),
            Token::Failure => (document, next, Err(LoadError::Stream)),
            Token::Start { name, .. } => {
                proof {
                    cursor.lemma_advance();
                    CVRF::lemma_dispatch(document, name, next);
                }
                if next.depth == 2 {
                    let (loaded, after, done) = CVRF::spec_dispatch(document, name, next);
                    if done {
                        CVRF::spec_load(loaded, after)
                    } else {
                        (
                            loaded,
                            after,
                            Err(LoadError::Severity(ParseSeverityError::InvalidSeverity)),
                        )
                    }
                } else {
                    CVRF::spec_load(document, next)
                }
            },
            _ => {
                proof {
                    cursor.lemma_advance();
                }
                CVRF::spec_load(document, next)
            },
        }
    }

    /// What loading a document from its token stream makes of `document`, and how it
    /// ends.
    pub open spec fn spec_load_stream(document: CVRFView, stream: Seq<Token>) -> (
        CVRFView,
        Result<(), LoadError>,
    ) {
        let (loaded, _, outcome) = CVRF::spec_load(document, Cursor::start(stream));
        (loaded, outcome)
    }

    /// A dispatch leaves the cursor well formed, on the same stream and no further
    /// from its end.
    pub proof fn lemma_dispatch(document: CVRFView, key: Seq<char>, cursor: Cursor)
        requires
            cursor.wf(),
        ensures
            ({
                let after = CVRF::spec_dispatch(document, key, cursor).1;
                &&& after.wf()
                &&& after.whole() == cursor.whole()
                &&& after.remaining() <= cursor.remaining()
            }),
    {
        cursor.lemma_after_text();
        Publisher::lemma_load(document.documentpublisher, cursor);
        DocumentTracking::lemma_load(document.documenttracking, cursor);
        lemma_load_notes(document.documentnotes, 2, cursor);
        lemma_load_references(document.documentreferences, 2, cursor);
        ProductTree::lemma_load(document.producttree, cursor);
        Vulnerability::lemma_load(VulnerabilityView::empty(), cursor);
    }

    /// The load moves the cursor on. It succeeds only at the end of the document
    /// and fails for the stream's sake only at a failure of the stream.
    pub proof fn lemma_load(document: CVRFView, cursor: Cursor)
        requires
            cursor.wf(),
        ensures
            ({
                let (_, after, outcome) = CVRF::spec_load(document, cursor);
                &&& after.advanced(cursor)
                &&& outcome is Ok ==> after.finished && after.head() is EndDocument
                &&& outcome == Err::<(), LoadError>(LoadError::Stream) ==> after.finished
                    && after.head() is Failure
            }),
        decreases cursor.remaining(),
    {
        let next = cursor.advance();
        cursor.lemma_advance();
        match cursor.head() {
            Token::EndDocument | Token::Failure => {},
            Token::Start { name, .. } => {
                CVRF::lemma_dispatch(document, name, next);
                if next.depth == 2 {
                    let (loaded, after, done) = CVRF::spec_dispatch(document, name, next);
                    if done {
                        CVRF::lemma_load(loaded, after);
                    }
                } else {
                    CVRF::lemma_load(document, next);
                }
            },
            _ => {
                CVRF::lemma_load(document, next);
            },
        }
    }

    /// Loading never puts a vulnerability without a CVE id into the list.
    pub proof fn lemma_load_keeps_identified(document: CVRFView, cursor: Cursor)
        requires
            cursor.wf(),
            all_identified(document.vulnerabilities),
        ensures
            all_identified(CVRF::spec_load(document, cursor).0.vulnerabilities),
        decreases cursor.remaining(),
    {
        let next = cursor.advance();
        cursor.lemma_advance();
        match cursor.head() {
            Token::EndDocument | Token::Failure => {},
            Token::Start { name, .. } => {
                CVRF::lemma_dispatch(document, name, next);
                if next.depth == 2 {
                    let (loaded, after, done) = CVRF::spec_dispatch(document, name, next);
                    if done {
                        CVRF::lemma_load_keeps_identified(loaded, after);
                    }
                } else {
                    CVRF::lemma_load_keeps_identified(document, next);
                }
            },
            _ => {
                CVRF::lemma_load_keeps_identified(document, next);
            },
        }
    }

    /// Loads the document from the stream that `reader` runs over. Fails where the
    /// stream fails and where a threat's description names no severity; what was
    /// loaded up to there stays in the document.
    pub fn load_from_xmlreader(&mut self, reader: &mut XmlReader) -> (loaded: Result<
        (),
        LoadError,
    >)
        requires
            old(reader)@.wf(),
        ensures
            (final(self)@, final(reader)@, loaded) == CVRF::spec_load(old(self)@, old(reader)@),
            final(reader)@.advanced(old(reader)@),
            loaded is Ok ==> final(reader)@.finished,
    {
        proof {
            CVRF::lemma_load(old(self)@, old(reader)@);
        }
        loop
            invariant
                reader@.wf(),
                old(reader)@.wf(),
                CVRF::spec_load(old(self)@, old(reader)@).1.advanced(old(reader)@),
                CVRF::spec_load(self@, reader@) == CVRF::spec_load(old(self)@, old(reader)@),
            decreases reader@.remaining(),
        {
            match reader.next() {
                Event::EndDocument => {
                    return Ok(());
                },
                Event::Failure => {
                    return Err(LoadError::Stream);
                },
                Event::Start { name, .. } => {
                    if reader.depth() == 2 {
                        proof {
                            CVRF::lemma_dispatch(self@, name@, reader@);
                        }
                        match self.dispatch(name.as_str(), reader) {
                            Ok(()) => {},
                            Err(error) => {
                                return Err(LoadError::Severity(error));
                            },
                        }
                    }
                },
                _ => {},
            }
        }
    }

    /// Loads the element called `key`, whose opening tag has just been pulled at
    /// depth 2, into the document.
    pub fn dispatch(&mut self, key: &str, reader: &mut XmlReader) -> (loaded: Result<
        (),
        ParseSeverityError,
    >)
        requires
            old(reader)@.wf(),
        ensures
            (final(self)@, final(reader)@, loaded is Ok) == CVRF::spec_dispatch(
                old(self)@,
                key@,
                old(reader)@,
            ),
            loaded is Err ==> loaded == Err::<(), ParseSeverityError>(
                ParseSeverityError::InvalidSeverity,
            ),
            final(reader)@.wf(),
    {
        if same_text(key, "DocumentTitle") {
            self.documenttitle = reader.next_characters();
            Ok(())
        } else if same_text(key, "DocumentType") {
            self.documenttype = reader.next_characters();
            Ok(())
        } else if same_text(key, "DocumentPublisher") {
            self.documentpublisher.load_from_xmlreader(reader);
            Ok(())
        } else if same_text(key, "DocumentTracking") {
            self.documenttracking.load_from_xmlreader(reader);
            Ok(())
        } else if same_text(key, "DocumentNotes") {
            self.handle_notes(reader);
            Ok(())
        } else if same_text(key, "DocumentReferences") {
            self.handle_references(reader);
            Ok(())
        } else if same_text(key, "ProductTree") {
            self.producttree.load_from_xmlreader(reader);
            Ok(())
        } else if same_text(key, "Vulnerability") {
            self.handle_vulnerabilities(reader)
        } else {
            Ok(())
        }
    }

    /// Loads the document from the XML text `xml`. Fails where the text is
    /// malformed and where a threat's description names no severity; what was loaded
    /// up to there stays in the document.
    pub fn load_xml(&mut self, xml: &[u8]) -> (loaded: Result<(), LoadError>)
        ensures
            (final(self)@, loaded) == CVRF::spec_load_stream(old(self)@, xml_events(xml@)),
    {
        let mut reader = XmlReader::new(xml);
        self.load_from_xmlreader(&mut reader)
    }

    /// Loads the notes of `DocumentNotes`, keyed by title.
    pub fn handle_notes(&mut self, reader: &mut XmlReader)
        requires
            old(reader)@.wf(),
        ensures
            (final(self)@.documentnotes, final(reader)@) == spec_load_notes(
                old(self)@.documentnotes,
                2,
                old(reader)@,
            ),
            final(self)@ == (CVRFView { documentnotes: final(self)@.documentnotes, ..old(self)@ }),
            final(reader)@.advanced(old(reader)@),
            final(reader)@.closed_below(2),
    {
        load_notes(&mut self.documentnotes, 2, reader);
    }

    /// Loads the references of `DocumentReferences`, keyed by kind.
    pub fn handle_references(&mut self, reader: &mut XmlReader)
        requires
            old(reader)@.wf(),
        ensures
            (final(self)@.documentreferences, final(reader)@) == spec_load_references(
                old(self)@.documentreferences,
                2,
                old(reader)@,
            ),
            final(self)@ == (CVRFView {
                documentreferences: final(self)@.documentreferences,
                ..old(self)@
            }),
            final(reader)@.advanced(old(reader)@),
            final(reader)@.closed_below(2),
    {
        load_references(&mut self.documentreferences, 2, reader);
    }

    /// Loads one vulnerability and keeps it where it carries a CVE id.
    pub fn handle_vulnerabilities(&mut self, reader: &mut XmlReader) -> (loaded: Result<
        (),
        ParseSeverityError,
    >)
        requires
            old(reader)@.wf(),
        ensures
            (final(self)@.vulnerabilities, final(reader)@, loaded is Ok)
                == spec_load_vulnerability(old(self)@.vulnerabilities, old(reader)@),
            loaded is Err ==> loaded == Err::<(), ParseSeverityError>(
                ParseSeverityError::InvalidSeverity,
            ),
            final(self)@ == (CVRFView {
                vulnerabilities: final(self)@.vulnerabilities,
                ..old(self)@
            }),
            final(reader)@.advanced(old(reader)@),
    {
        let mut vulnerability = Vulnerability::new();
        match vulnerability.load_from_xmlreader(reader) {
            Ok(()) => {},
            Err(error) => {
                return Err(error);
            },
        }
        if !vulnerability.cve.as_str().is_empty() {
            proof {
                lemma_views_push(self.vulnerabilities@, vulnerability);
            }
            self.vulnerabilities.push(vulnerability);
        }
        Ok(())
    }
}

/// A load that reaches the end of a well-nested document leaves the cursor at
/// depth 0.
pub proof fn lemma_load_ends_at_depth_zero(document: CVRFView, stream: Seq<Token>)
    requires
        terminated(stream),
        well_nested(stream.drop_last()),
    ensures
        CVRF::spec_load(document, Cursor::start(stream)).2 is Ok ==> CVRF::spec_load(
            document,
            Cursor::start(stream),
        ).1.depth == 0,
{
    let start = Cursor::start(stream);
    assert(start.whole() =~= stream);
    CVRF::lemma_load(document, start);
    let (_, end, outcome) = CVRF::spec_load(document, start);
    if outcome is Ok {
        assert(end.seen == stream);
        lemma_depth_zero_at_end(end);
    }
}

} // verus!
