//! Product statuses, threats, score sets and remediations of a vulnerability.

use vstd::prelude::*;
use crate::event::{first_attribute, first_attribute_value, AttributeView, Event, Token};
use crate::reader::{Cursor, XmlReader};
use crate::severity::{severity_named, ParseSeverityError, Severity};
use crate::text::{lemma_views_empty, lemma_views_push, or_keep, same_text, views};

verus! {

/// One `Status` element of `ProductStatuses`.
#[derive(Debug, Clone)]
pub struct ProductStatus {
    /// The `Type` attribute.
    pub status: String,
    /// The texts of the `ProductID` children, in document order.
    pub products: Vec<String>,
}

/// Mathematical view of a [`ProductStatus`].
pub struct ProductStatusView {
    pub status: Seq<char>,
    pub products: Seq<Seq<char>>,
}

impl ProductStatusView {
    /// The empty product status: every text and every collection in it is empty.
    pub open spec fn empty() -> ProductStatusView {
        ProductStatusView { status: Seq::empty(), products: Seq::empty() }
    }

    /// The status with the label that an opening tag of its own gives: the tag's
    /// first attribute, if it has one.
    pub open spec fn labelled(self, attributes: Seq<AttributeView>) -> ProductStatusView {
        ProductStatusView { status: or_keep(first_attribute(attributes), self.status), ..self }
    }

    /// The status with one more product.
    pub open spec fn with(self, product: Seq<char>) -> ProductStatusView {
        ProductStatusView { products: self.products.push(product), ..self }
    }
}

impl View for ProductStatus {
    type V = ProductStatusView;

    open spec fn view(&self) -> ProductStatusView {
        ProductStatusView { status: self.status@, products: views(self.products@) }
    }
}

impl ProductStatus {
    /// An empty product status, to load into.
    pub fn new() -> (status: Self)
        ensures
            status@ == ProductStatusView::empty(),
    {
        let status = ProductStatus { status: String::new(), products: Vec::new() };
        proof {
            lemma_views_empty::<String>();
        }
        status
    }

    /// What loading makes of `status` and `cursor`. An opening tag at depth 4 is the
    /// status's own: its first attribute, if it has one, is the label, and no text
    /// is read for it. An opening tag at any other depth is a child: the next
    /// character data is appended to the products. A closing tag that leaves the
    /// depth below 4, or the end of the stream, ends the load.
    pub open spec fn spec_load(status: ProductStatusView, cursor: Cursor) -> (
        ProductStatusView,
        Cursor,
    )
        decreases cursor.remaining(),
        when cursor.wf()
    {
        let next = cursor.advance();
        match cursor.head() {
            Token::Start { attributes, .. } => {
                proof {
                    cursor.lemma_advance();
                    next.lemma_after_text();
                }
                if next.depth == 4 {
                    ProductStatus::spec_load(status.labelled(attributes), next)
                } else {
                    ProductStatus::spec_load(status.with(next.text()), next.after_text())
                }
            },
            Token::End => {
                if next.depth < 4 {
                    (status, next)
                } else {
                    proof {
                        cursor.lemma_advance();
                    }
                    ProductStatus::spec_load(status, next)
                }
            },
            Token::EndDocument | Token::Failure => (status, next),
            _ => {
                proof {
                    cursor.lemma_advance();
                }
                ProductStatus::spec_load(status, next)
            },
        }
    }

    /// The load moves the cursor on and ends with the depth below 4 or the stream at its end.
    pub proof fn lemma_load(status: ProductStatusView, cursor: Cursor)
        requires
            cursor.wf(),
        ensures
            ProductStatus::spec_load(status, cursor).1.advanced(cursor),
            ProductStatus::spec_load(status, cursor).1.closed_below(4),
        decreases cursor.remaining(),
    {
        let next = cursor.advance();
        cursor.lemma_advance();
        match cursor.head() {
            Token::Start { attributes, .. } => {
                next.lemma_after_text();
                if next.depth == 4 {
                    ProductStatus::lemma_load(status.labelled(attributes), next);
                } else {
                    ProductStatus::lemma_load(status.with(next.text()), next.after_text());
                }
            },
            Token::End => {
                if next.depth >= 4 {
                    ProductStatus::lemma_load(status, next);
                }
            },
            Token::EndDocument | Token::Failure => {},
            _ => {
                ProductStatus::lemma_load(status, next);
            },
        }
    }

    /// Loads one product status from the stream.
    pub fn load_from_xmlreader(&mut self, reader: &mut XmlReader)
        requires
            old(reader)@.wf(),
        ensures
            (final(self)@, final(reader)@) == ProductStatus::spec_load(old(self)@, old(reader)@),
            final(reader)@.advanced(old(reader)@),
            final(reader)@.closed_below(4),
    {
        proof {
            ProductStatus::lemma_load(old(self)@, old(reader)@);
        }
        loop
            invariant_except_break
                ProductStatus::spec_load(self@, reader@) == ProductStatus::spec_load(
                    old(self)@,
                    old(reader)@,
                ),
            invariant
                reader@.wf(),
            ensures
                (self@, reader@) == ProductStatus::spec_load(old(self)@, old(reader)@),
            decreases reader@.remaining(),
        {
            match reader.next() {
                Event::Start { attributes, .. } => {
                    if reader.depth() == 4 {
                        if let Some(value) = first_attribute_value(&attributes) {
                            self.status = value;
                        }
                    } else {
                        let text = reader.next_characters();
                        proof {
                            lemma_views_push(self.products@, text);
                        }
                        self.products.push(text);
                    }
                },
                Event::End => {
                    if reader.depth() < 4 {
                        break ;
                    }
                },
                Event::EndDocument | Event::Failure => {
                    break ;
                },
                _ => {},
            }
        }
    }
}

/// One `Threat` element.
#[derive(Debug, Clone)]
pub struct Threat {
    /// The `Type` attribute.
    pub kind: String,
    /// The severity that the text of `Description` names.
    pub description: Severity,
}

/// Mathematical view of a [`Threat`].
pub struct ThreatView {
    pub kind: Seq<char>,
    pub description: Severity,
}

impl ThreatView {
    /// The empty threat of severity `Null`: every text and every collection in it is empty.
    pub open spec fn empty() -> ThreatView {
        ThreatView { kind: Seq::empty(), description: Severity::Null }
    }
}

impl View for Threat {
    type V = ThreatView;

    open spec fn view(&self) -> ThreatView {
        ThreatView { kind: self.kind@, description: self.description }
    }
}

impl Threat {
    /// An empty threat, to load into.
    pub fn new() -> (threat: Self)
        ensures
            threat@ == ThreatView::empty(),
    {
        Threat { kind: String::new(), description: Severity::new() }
    }

    /// What loading makes of `threat` and `cursor`; the third part says whether it
    /// succeeded. An opening tag at depth 4 is the threat's own: its first
    /// attribute, if it has one, is the kind. An opening tag at any other depth is a
    /// child: the next character data is read as a severity, and a text that names
    /// none ends the load at once, without success. A closing tag that leaves the
    /// depth below 4, or the end of the stream, ends the load with success.
    pub open spec fn spec_load(threat: ThreatView, cursor: Cursor) -> (ThreatView, Cursor, bool)
        decreases cursor.remaining(),
        when cursor.wf()
    {
        let next = cursor.advance();
        match cursor.head() {
            Token::Start { attributes, .. } => {
                proof {
                    cursor.lemma_advance();
                    next.lemma_after_text();
                }
                if next.depth == 4 {
                    Threat::spec_load(
                        ThreatView {
                            kind: or_keep(first_attribute(attributes), threat.kind),
                            ..threat
                        },
                        next,
                    )
                } else {
                    match severity_named(next.text()) {
                        Some(description) => Threat::spec_load(
                            ThreatView { description, ..threat },
                            next.after_text(),
                        ),
                        None => (threat, next.after_text(), false),
                    }
                }
            },
            Token::End => {
                if next.depth < 4 {
                    (threat, next, true)
                } else {
                    proof {
                        cursor.lemma_advance();
                    }
                    Threat::spec_load(threat, next)
                }
            },
            Token::EndDocument | Token::Failure => (threat, next, true),
            _ => {
                proof {
                    cursor.lemma_advance();
                }
                Threat::spec_load(threat, next)
            },
        }
    }

    /// The load moves the cursor on; where it succeeds, it ends with the depth below 4
    /// or the stream at its end.
    pub proof fn lemma_load(threat: ThreatView, cursor: Cursor)
        requires
            cursor.wf(),
        ensures
            Threat::spec_load(threat, cursor).1.advanced(cursor),
            Threat::spec_load(threat, cursor).2 ==> Threat::spec_load(
                threat,
                cursor,
            ).1.closed_below(4),
        decreases cursor.remaining(),
    {
        let next = cursor.advance();
        cursor.lemma_advance();
        match cursor.head() {
            Token::Start { attributes, .. } => {
                next.lemma_after_text();
                if next.depth == 4 {
                    Threat::lemma_load(
                        ThreatView {
                            kind: or_keep(first_attribute(attributes), threat.kind),
                            ..threat
                        },
                        next,
                    );
                } else {
                    match severity_named(next.text()) {
                        Some(description) => {
                            Threat::lemma_load(
                                ThreatView { description, ..threat },
                                next.after_text(),
                            );
                        },
                        None => {},
                    }
                }
            },
            Token::End => {
                if next.depth >= 4 {
                    Threat::lemma_load(threat, next);
                }
            },
            Token::EndDocument | Token::Failure => {},
            _ => {
                Threat::lemma_load(threat, next);
            },
        }
    }

    /// Loads one threat from the stream. Fails on a description that names no
    /// severity.
    pub fn load_from_xmlreader(&mut self, reader: &mut XmlReader) -> (loaded: Result<
        (),
        ParseSeverityError,
    >)
        requires
            old(reader)@.wf(),
        ensures
            (final(self)@, final(reader)@, loaded is Ok) == Threat::spec_load(
                old(self)@,
                old(reader)@,
            ),
            loaded is Err ==> loaded == Err::<(), ParseSeverityError>(
                ParseSeverityError::InvalidSeverity,
            ),
            final(reader)@.advanced(old(reader)@),
    {
        proof {
            Threat::lemma_load(old(self)@, old(reader)@);
        }
        loop
            invariant_except_break
                Threat::spec_load(self@, reader@) == Threat::spec_load(old(self)@, old(reader)@),
            invariant
                reader@.wf(),
                old(reader)@.wf(),
                Threat::spec_load(old(self)@, old(reader)@).1.advanced(old(reader)@),
            ensures
                (self@, reader@, true) == Threat::spec_load(old(self)@, old(reader)@),
            decreases reader@.remaining(),
        {
            match reader.next() {
                Event::Start { attributes, .. } => {
                    if reader.depth() == 4 {
                        if let Some(value) = first_attribute_value(&attributes) {
                            self.kind = value;
                        }
                    } else {
                        let text = reader.next_characters();
                        match Severity::from_str(text.as_str()) {
                            Ok(severity) => {
                                self.description = severity;
                            },
                            Err(error) => {
                                return Err(error);
                            },
                        }
                    }
                },
                Event::End => {
                    if reader.depth() < 4 {
                        break ;
                    }
                },
                Event::EndDocument | Event::Failure => {
                    break ;
                },
                _ => {},
            }
        }
        Ok(())
    }
}

/// One `ScoreSet` element.
#[derive(Debug, Clone)]
pub struct ScoreSet {
    /// The text of `BaseScore`.
    pub basescore: String,
    /// The text of `Vector`.
    pub vector: String,
}

/// Mathematical view of a [`ScoreSet`].
pub struct ScoreSetView {
    pub basescore: Seq<char>,
    pub vector: Seq<char>,
}

impl ScoreSetView {
    /// The empty score set: every text and every collection in it is empty.
    pub open spec fn empty() -> ScoreSetView {
        ScoreSetView { basescore: Seq::empty(), vector: Seq::empty() }
    }

    /// Whether `key` names a child whose text the score set keeps.
    pub open spec fn keeps(key: Seq<char>) -> bool {
        key == "BaseScore"@ || key == "Vector"@
    }

    /// The score set with the field that `key` names set to `text`.
    pub open spec fn with(self, key: Seq<char>, text: Seq<char>) -> ScoreSetView {
        if key == "BaseScore"@ {
            ScoreSetView { basescore: text, ..self }
        } else if key == "Vector"@ {
            ScoreSetView { vector: text, ..self }
        } else {
            self
        }
    }
}

impl View for ScoreSet {
    type V = ScoreSetView;

    open spec fn view(&self) -> ScoreSetView {
        ScoreSetView { basescore: self.basescore@, vector: self.vector@ }
    }
}

impl ScoreSet {
    /// An empty score set, to load into.
    pub fn new() -> (scoreset: Self)
        ensures
            scoreset@ == ScoreSetView::empty(),
    {
        ScoreSet { basescore: String::new(), vector: String::new() }
    }

    /// What loading makes of `scoreset` and `cursor`: sibling names are pulled at
    /// floor 3 until the scope closes or the stream ends; after each name that the
    /// score set keeps, the next character data becomes that field.
    pub open spec fn spec_load(scoreset: ScoreSetView, cursor: Cursor) -> (ScoreSetView, Cursor)
        decreases cursor.remaining(),
        when cursor.wf()
    {
        let next = cursor.advance();
        match cursor.sibling(3) {
            None => (scoreset, next),
            Some(key) => {
                proof {
                    cursor.lemma_advance();
                    next.lemma_after_text();
                }
                if next.finished {
                    (scoreset, next)
                } else if ScoreSetView::keeps(key) {
                    ScoreSet::spec_load(scoreset.with(key, next.text()), next.after_text())
                } else {
                    ScoreSet::spec_load(scoreset, next)
                }
            },
        }
    }

    /// The load moves the cursor on and ends with the scope at floor 3 closed.
    pub proof fn lemma_load(scoreset: ScoreSetView, cursor: Cursor)
        requires
            cursor.wf(),
        ensures
            ScoreSet::spec_load(scoreset, cursor).1.advanced(cursor),
            ScoreSet::spec_load(scoreset, cursor).1.closed_at(3),
        decreases cursor.remaining(),
    {
        let next = cursor.advance();
        cursor.lemma_advance();
        match cursor.sibling(3) {
            None => {},
            Some(key) => {
                next.lemma_after_text();
                if next.finished {
                    // The stream has ended: so does the load.
                } else if ScoreSetView::keeps(key) {
                    ScoreSet::lemma_load(scoreset.with(key, next.text()), next.after_text());
                } else {
                    ScoreSet::lemma_load(scoreset, next);
                }
            },
        }
    }

    /// Loads one score set from the stream.
    pub fn load_from_xmlreader(&mut self, reader: &mut XmlReader)
        requires
            old(reader)@.wf(),
        ensures
            (final(self)@, final(reader)@) == ScoreSet::spec_load(old(self)@, old(reader)@),
            final(reader)@.advanced(old(reader)@),
            final(reader)@.closed_at(3),
    {
        proof {
            ScoreSet::lemma_load(old(self)@, old(reader)@);
        }
        loop
            invariant_except_break
                ScoreSet::spec_load(self@, reader@) == ScoreSet::spec_load(
                    old(self)@,
                    old(reader)@,
                ),
            invariant
                reader@.wf(),
            ensures
                (self@, reader@) == ScoreSet::spec_load(old(self)@, old(reader)@),
            decreases reader@.remaining(),
        {
            let key = match reader.next_start_name_under_depth(3) {
                Some(key) => key,
                None => {
                    break ;
                },
            };
            if reader.finished() {
                break ;
            }
            if same_text(key.as_str(), "BaseScore") {
                self.basescore = reader.next_characters();
            } else if same_text(key.as_str(), "Vector") {
                self.vector = reader.next_characters();
            }
        }
    }
}

/// One `Remediation` element.
#[derive(Debug, Clone)]
pub struct Remediation {
    /// The `Type` attribute.
    pub kind: String,
    /// The text of `Description`.
    pub description: String,
    /// The text of `DATE`.
    pub date: String,
    /// The text of `URL`.
    pub url: String,
}

/// Mathematical view of a [`Remediation`].
pub struct RemediationView {
    pub kind: Seq<char>,
    pub description: Seq<char>,
    pub date: Seq<char>,
    pub url: Seq<char>,
}

impl RemediationView {
    /// The empty remediation: every text and every collection in it is empty.
    pub open spec fn empty() -> RemediationView {
        RemediationView {
            kind: Seq::empty(),
            description: Seq::empty(),
            date: Seq::empty(),
            url: Seq::empty(),
        }
    }

    /// Whether `key` names a child whose text the remediation keeps.
    pub open spec fn keeps(key: Seq<char>) -> bool {
        key == "Description"@ || key == "DATE"@ || key == "URL"@
    }

    /// The remediation with the field that `key` names set to `text`.
    pub open spec fn with(self, key: Seq<char>, text: Seq<char>) -> RemediationView {
        if key == "Description"@ {
            RemediationView { description: text, ..self }
        } else if key == "DATE"@ {
            RemediationView { date: text, ..self }
        } else if key == "URL"@ {
            RemediationView { url: text, ..self }
        } else {
            self
        }
    }
}

impl View for Remediation {
    type V = RemediationView;

    open spec fn view(&self) -> RemediationView {
        RemediationView {
            kind: self.kind@,
            description: self.description@,
            date: self.date@,
            url: self.url@,
        }
    }
}

impl Remediation {
    /// An empty remediation, to load into.
    pub fn new() -> (remediation: Self)
        ensures
            remediation@ == RemediationView::empty(),
    {
        Remediation {
            kind: String::new(),
            description: String::new(),
            date: String::new(),
            url: String::new(),
        }
    }

    /// The first part of a load; the third part of the result says whether an
    /// opening tag was met. Events are pulled up to the first opening tag, whose
    /// first attribute, if it is at depth 4 and has one, is the kind. A closing tag
    /// that leaves the depth below 4, or the end of the stream, ends this part
    /// too, with no opening tag met and the remediation as it was.
    pub open spec fn spec_open(remediation: RemediationView, cursor: Cursor) -> (
        RemediationView,
        Cursor,
        bool,
    )
        decreases cursor.remaining(),
        when cursor.wf()
    {
        let next = cursor.advance();
        match cursor.head() {
            Token::Start { attributes, .. } => {
                if next.depth == 4 {
                    (
                        RemediationView {
                            kind: or_keep(first_attribute(attributes), remediation.kind),
                            ..remediation
                        },
                        next,
                        true,
                    )
                } else {
                    (remediation, next, true)
                }
            },
            Token::End => {
                if next.depth < 4 {
                    (remediation, next, false)
                } else {
                    proof {
                        cursor.lemma_advance();
                    }
                    Remediation::spec_open(remediation, next)
                }
            },
            Token::EndDocument | Token::Failure => (remediation, next, false),
            _ => {
                proof {
                    cursor.lemma_advance();
                }
                Remediation::spec_open(remediation, next)
            },
        }
    }

    /// The second part of a load: sibling names are pulled at floor 3 until the
    /// scope closes or the stream ends; after each name that the remediation keeps,
    /// the next character data becomes that field.
    pub open spec fn spec_fields(remediation: RemediationView, cursor: Cursor) -> (
        RemediationView,
        Cursor,
    )
        decreases cursor.remaining(),
        when cursor.wf()
    {
        let next = cursor.advance();
        match cursor.sibling(3) {
            None => (remediation, next),
            Some(key) => {
                proof {
                    cursor.lemma_advance();
                    next.lemma_after_text();
                }
                if next.finished {
                    (remediation, next)
                } else if RemediationView::keeps(key) {
                    Remediation::spec_fields(remediation.with(key, next.text()), next.after_text())
                } else {
                    Remediation::spec_fields(remediation, next)
                }
            },
        }
    }

    /// What loading makes of `remediation` and `cursor`: the first part and, where
    /// it met an opening tag, the second. Where it met none, the load ends with the
    /// first part: nothing is pulled behind the closing tag that ended it.
    pub open spec fn spec_load(remediation: RemediationView, cursor: Cursor) -> (
        RemediationView,
        Cursor,
    ) {
        let (opened, inside, met) = Remediation::spec_open(remediation, cursor);
        if met {
            Remediation::spec_fields(opened, inside)
        } else {
            (opened, inside)
        }
    }

    /// The first part of a load moves the cursor on. Where it meets no opening tag,
    /// it leaves the remediation as it was and ends with the depth below 4 or the
    /// stream at its end.
    pub proof fn lemma_open(remediation: RemediationView, cursor: Cursor)
        requires
            cursor.wf(),
        ensures
            Remediation::spec_open(remediation, cursor).1.advanced(cursor),
            !Remediation::spec_open(remediation, cursor).2 ==> Remediation::spec_open(
                remediation,
                cursor,
            ).0 == remediation && Remediation::spec_open(remediation, cursor).1.closed_below(4),
        decreases cursor.remaining(),
    {
        let next = cursor.advance();
        cursor.lemma_advance();
        match cursor.head() {
            Token::Start { .. } => {},
            Token::End => {
                if next.depth >= 4 {
                    Remediation::lemma_open(remediation, next);
                }
            },
            Token::EndDocument | Token::Failure => {},
            _ => {
                Remediation::lemma_open(remediation, next);
            },
        }
    }

    /// The second part of a load moves the cursor on and ends with the scope at
    /// floor 3 closed.
    pub proof fn lemma_fields(remediation: RemediationView, cursor: Cursor)
        requires
            cursor.wf(),
        ensures
            Remediation::spec_fields(remediation, cursor).1.advanced(cursor),
            Remediation::spec_fields(remediation, cursor).1.closed_at(3),
        decreases cursor.remaining(),
    {
        let next = cursor.advance();
        cursor.lemma_advance();
        match cursor.sibling(3) {
            None => {},
            Some(key) => {
                next.lemma_after_text();
                if next.finished {
                    // The stream has ended: so does the load.
                } else if RemediationView::keeps(key) {
                    Remediation::lemma_fields(
                        remediation.with(key, next.text()),
                        next.after_text(),
                    );
                } else {
                    Remediation::lemma_fields(remediation, next);
                }
            },
        }
    }

    /// The load moves the cursor on and ends with the scope at floor 3 closed.
    pub proof fn lemma_load(remediation: RemediationView, cursor: Cursor)
        requires
            cursor.wf(),
        ensures
            Remediation::spec_load(remediation, cursor).1.advanced(cursor),
            Remediation::spec_load(remediation, cursor).1.closed_at(3),
    {
        Remediation::lemma_open(remediation, cursor);
        let (opened, inside, met) = Remediation::spec_open(remediation, cursor);
        if met {
            Remediation::lemma_fields(opened, inside);
        }
    }

    /// At the end of its group a load takes the group's closing tag and no more:
    /// where the stream goes on with a closing tag that leaves the depth below 4,
    /// the remediation stays as it was and the cursor stands behind that tag.
    pub proof fn lemma_load_at_close(remediation: RemediationView, cursor: Cursor)
        requires
            cursor.wf(),
            cursor.head() is End,
            cursor.advance().depth < 4,
        ensures
            Remediation::spec_load(remediation, cursor) == (remediation, cursor.advance()),
    {
    }

    /// Loads one remediation from the stream.
    pub fn load_from_xmlreader(&mut self, reader: &mut XmlReader)
        requires
            old(reader)@.wf(),
        ensures
            (final(self)@, final(reader)@) == Remediation::spec_load(old(self)@, old(reader)@),
            final(reader)@.advanced(old(reader)@),
            final(reader)@.closed_at(3),
    {
        proof {
            Remediation::lemma_load(old(self)@, old(reader)@);
        }
        let mut met = false;
        loop
            invariant_except_break
                !met,
                Remediation::spec_open(self@, reader@) == Remediation::spec_open(
                    old(self)@,
                    old(reader)@,
                ),
            invariant
                reader@.wf(),
            ensures
                (self@, reader@, met) == Remediation::spec_open(old(self)@, old(reader)@),
            decreases reader@.remaining(),
        {
            match reader.next() {
                Event::Start { attributes, .. } => {
                    if reader.depth() == 4 {
                        if let Some(value) = first_attribute_value(&attributes) {
                            self.kind = value;
                        }
                    }
                    met = true;
                    break ;
                },
                Event::End => {
                    if reader.depth() < 4 {
                        break ;
                    }
                },
                Event::EndDocument | Event::Failure => {
                    break ;
                },
                _ => {},
            }
        }
        if !met {
            return ;
        }
        let ghost opened = self@;
        let ghost inside = reader@;
        loop
            invariant_except_break
                Remediation::spec_fields(self@, reader@) == Remediation::spec_fields(
                    opened,
                    inside,
                ),
            invariant
                reader@.wf(),
            ensures
                (self@, reader@) == Remediation::spec_fields(opened, inside),
            decreases reader@.remaining(),
        {
            let key = match reader.next_start_name_under_depth(3) {
                Some(key) => key,
                None => {
                    break ;
                },
            };
            if reader.finished() {
                break ;
            }
            if same_text(key.as_str(), "Description") {
                self.description = reader.next_characters();
            } else if same_text(key.as_str(), "DATE") {
                self.date = reader.next_characters();
            } else if same_text(key.as_str(), "URL") {
                self.url = reader.next_characters();
            }
        }
    }
}

} // verus!
