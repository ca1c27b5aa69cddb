//! Vulnerabilities.

use vstd::prelude::*;
use crate::note::{lemma_load_notes, load_notes, spec_load_notes, Note, NoteView};
use crate::reader::{Cursor, XmlReader};
use crate::severity::ParseSeverityError;
use crate::status::{
    ProductStatus, ProductStatusView, Remediation, RemediationView, ScoreSet, ScoreSetView, Threat,
    ThreatView,
};
use crate::text::{
    lemma_map_views_empty, lemma_views_empty, lemma_views_push, map_views, same_text, views,
};
use crate::textmap::TextMap;

verus! {

/// What loading a group of product statuses makes of `statuses` and `cursor`:
/// statuses are loaded and appended one after another until a load leaves the depth
/// below 3 or the stream has ended; the status of that last load is dropped.
pub open spec fn spec_load_statuses(statuses: Seq<ProductStatusView>, cursor: Cursor) -> (
    Seq<ProductStatusView>,
    Cursor,
)
    decreases cursor.remaining(),
    when cursor.wf()
{
    let (status, after) = ProductStatus::spec_load(ProductStatusView::empty(), cursor);
    if after.depth < 3 || after.finished {
        (statuses, after)
    } else {
        proof {
            ProductStatus::lemma_load(ProductStatusView::empty(), cursor);
        }
        spec_load_statuses(statuses.push(status), after)
    }
}

/// The group load moves the cursor on and ends with the depth below 3 or the stream at its end.
pub proof fn lemma_load_statuses(statuses: Seq<ProductStatusView>, cursor: Cursor)
    requires
        cursor.wf(),
    ensures
        spec_load_statuses(statuses, cursor).1.advanced(cursor),
        spec_load_statuses(statuses, cursor).1.closed_below(3),
    decreases cursor.remaining(),
{
    let (status, after) = ProductStatus::spec_load(ProductStatusView::empty(), cursor);
    ProductStatus::lemma_load(ProductStatusView::empty(), cursor);
    if !(after.depth < 3 || after.finished) {
        lemma_load_statuses(statuses.push(status), after);
    }
}

/// What loading a group of threats makes of `threats` and `cursor`; the third part
/// says whether it succeeded. Threats are loaded and appended one after another
/// until a load fails, which ends the group without success, or leaves the depth
/// below 3, or the stream has ended; the threat of that last load is dropped.
pub open spec fn spec_load_threats(threats: Seq<ThreatView>, cursor: Cursor) -> (
    Seq<ThreatView>,
    Cursor,
    bool,
)
    decreases cursor.remaining(),
    when cursor.wf()
{
    let (threat, after, loaded) = Threat::spec_load(ThreatView::empty(), cursor);
    if !loaded {
        (threats, after, false)
    } else if after.depth < 3 || after.finished {
        (threats, after, true)
    } else {
        proof {
            Threat::lemma_load(ThreatView::empty(), cursor);
        }
        spec_load_threats(threats.push(threat), after)
    }
}

/// The group load moves the cursor on; where it succeeds, it ends with the depth below
/// 3 or the stream at its end.
pub proof fn lemma_load_threats(threats: Seq<ThreatView>, cursor: Cursor)
    requires
        cursor.wf(),
    ensures
        spec_load_threats(threats, cursor).1.advanced(cursor),
        spec_load_threats(threats, cursor).2 ==> spec_load_threats(threats, cursor).1.closed_below(
            3,
        ),
    decreases cursor.remaining(),
{
    let (threat, after, loaded) = Threat::spec_load(ThreatView::empty(), cursor);
    Threat::lemma_load(ThreatView::empty(), cursor);
    if loaded && !(after.depth < 3 || after.finished) {
        lemma_load_threats(threats.push(threat), after);
    }
}

/// What loading a group of score sets makes of `scoresets` and `cursor`: score
/// sets are loaded and appended one after another until a load leaves the depth
/// below 3 or the stream has ended; the score set of that last load is dropped.
pub open spec fn spec_load_scoresets(scoresets: Seq<ScoreSetView>, cursor: Cursor) -> (
    Seq<ScoreSetView>,
    Cursor,
)
    decreases cursor.remaining(),
    when cursor.wf()
{
    let (scoreset, after) = ScoreSet::spec_load(ScoreSetView::empty(), cursor);
    if after.depth < 3 || after.finished {
        (scoresets, after)
    } else {
        proof {
            ScoreSet::lemma_load(ScoreSetView::empty(), cursor);
        }
        spec_load_scoresets(scoresets.push(scoreset), after)
    }
}

/// The group load moves the cursor on and ends with the depth below 3 or the stream at its end.
pub proof fn lemma_load_scoresets(scoresets: Seq<ScoreSetView>, cursor: Cursor)
    requires
        cursor.wf(),
    ensures
        spec_load_scoresets(scoresets, cursor).1.advanced(cursor),
        spec_load_scoresets(scoresets, cursor).1.closed_below(3),
    decreases cursor.remaining(),
{
    let (scoreset, after) = ScoreSet::spec_load(ScoreSetView::empty(), cursor);
    ScoreSet::lemma_load(ScoreSetView::empty(), cursor);
    if !(after.depth < 3 || after.finished) {
        lemma_load_scoresets(scoresets.push(scoreset), after);
    }
}

/// What loading a group of remediations makes of `remediations` and `cursor`:
/// remediations are loaded and appended one after another until a load leaves the
/// depth below 3 or the stream has ended; the remediation of that last load is
/// dropped.
pub open spec fn spec_load_remediations(remediations: Seq<RemediationView>, cursor: Cursor) -> (
    Seq<RemediationView>,
    Cursor,
)
    decreases cursor.remaining(),
    when cursor.wf()
{
    let (remediation, after) = Remediation::spec_load(RemediationView::empty(), cursor);
    if after.depth < 3 || after.finished {
        (remediations, after)
    } else {
        proof {
            Remediation::lemma_load(RemediationView::empty(), cursor);
        }
        spec_load_remediations(remediations.push(remediation), after)
    }
}

/// The group load moves the cursor on and ends with the depth below 3 or the stream at its end.
pub proof fn lemma_load_remediations(remediations: Seq<RemediationView>, cursor: Cursor)
    requires
        cursor.wf(),
    ensures
        spec_load_remediations(remediations, cursor).1.advanced(cursor),
        spec_load_remediations(remediations, cursor).1.closed_below(3),
    decreases cursor.remaining(),
{
    let (remediation, after) = Remediation::spec_load(RemediationView::empty(), cursor);
    Remediation::lemma_load(RemediationView::empty(), cursor);
    if !(after.depth < 3 || after.finished) {
        lemma_load_remediations(remediations.push(remediation), after);
    }
}

/// At the end of a group its load takes the group's closing tag and no more: where
/// the stream goes on with a closing tag that leaves the depth below 3, each of
/// the four group loads leaves its list as it was and the cursor behind that tag.
pub proof fn lemma_groups_at_close(vulnerability: VulnerabilityView, cursor: Cursor)
    requires
        cursor.wf(),
        cursor.head() is End,
        cursor.advance().depth < 3,
    ensures
        spec_load_statuses(vulnerability.productstatuses, cursor) == (
            vulnerability.productstatuses,
            cursor.advance(),
        ),
        spec_load_threats(vulnerability.threats, cursor) == (
            vulnerability.threats,
            cursor.advance(),
            true,
        ),
        spec_load_scoresets(vulnerability.cvssscoresets, cursor) == (
            vulnerability.cvssscoresets,
            cursor.advance(),
        ),
        spec_load_remediations(vulnerability.remediations, cursor) == (
            vulnerability.remediations,
            cursor.advance(),
        ),
{
    Remediation::lemma_load_at_close(RemediationView::empty(), cursor);
}

/// One `Vulnerability` element.
#[derive(Debug, Clone)]
pub struct Vulnerability {
    /// The notes of `Notes`, by title.
    pub notes: TextMap<Note>,
    /// The text of `ReleaseDate`.
    pub releasedate: String,
    /// The text of `CVE`.
    pub cve: String,
    /// The statuses of `ProductStatuses`, in document order.
    pub productstatuses: Vec<ProductStatus>,
    /// The threats of `Threats`, in document order.
    pub threats: Vec<Threat>,
    /// The score sets of `CVSSScoreSets`, in document order.
    pub cvssscoresets: Vec<ScoreSet>,
    /// The remediations of `Remediations`, in document order.
    pub remediations: Vec<Remediation>,
}

/// Mathematical view of a [`Vulnerability`].
pub struct VulnerabilityView {
    pub notes: Map<Seq<char>, NoteView>,
    pub releasedate: Seq<char>,
    pub cve: Seq<char>,
    pub productstatuses: Seq<ProductStatusView>,
    pub threats: Seq<ThreatView>,
    pub cvssscoresets: Seq<ScoreSetView>,
    pub remediations: Seq<RemediationView>,
}

impl VulnerabilityView {
    /// The empty vulnerability: every text and every collection in it is empty.
    pub open spec fn empty() -> VulnerabilityView {
        VulnerabilityView {
            notes: Map::empty(),
            releasedate: Seq::empty(),
            cve: Seq::empty(),
            productstatuses: Seq::empty(),
            threats: Seq::empty(),
            cvssscoresets: Seq::empty(),
            remediations: Seq::empty(),
        }
    }

    /// Whether `key` names a child whose text the vulnerability keeps.
    pub open spec fn keeps(key: Seq<char>) -> bool {
        key == "ReleaseDate"@ || key == "CVE"@
    }

    /// The vulnerability with the field that `key` names set to `text`.
    pub open spec fn with(self, key: Seq<char>, text: Seq<char>) -> VulnerabilityView {
        if key == "ReleaseDate"@ {
            VulnerabilityView { releasedate: text, ..self }
        } else if key == "CVE"@ {
            VulnerabilityView { cve: text, ..self }
        } else {
            self
        }
    }
}

impl View for Vulnerability {
    type V = VulnerabilityView;

    open spec fn view(&self) -> VulnerabilityView {
        VulnerabilityView {
            notes: map_views(self.notes@),
            releasedate: self.releasedate@,
            cve: self.cve@,
            productstatuses: views(self.productstatuses@),
            threats: views(self.threats@),
            cvssscoresets: views(self.cvssscoresets@),
            remediations: views(self.remediations@),
        }
    }
}

impl Vulnerability {
    /// An empty vulnerability, to load into.
    pub fn new() -> (vulnerability: Self)
        ensures
            vulnerability@ == VulnerabilityView::empty(),
    {
        let vulnerability = Vulnerability {
            notes: TextMap::new(),
            releasedate: String::new(),
            cve: String::new(),
            productstatuses: Vec::new(),
            threats: Vec::new(),
            cvssscoresets: Vec::new(),
            remediations: Vec::new(),
        };
        proof {
            lemma_map_views_empty::<Note>();
            lemma_views_empty::<ProductStatus>();
            lemma_views_empty::<Threat>();
            lemma_views_empty::<ScoreSet>();
            lemma_views_empty::<Remediation>();
        }
        vulnerability
    }

    /// What loading makes of `vulnerability` and `cursor`; the third part says
    /// whether it succeeded. Sibling names are pulled at floor 1 until the scope
    /// closes or the stream ends. `Notes`, `ProductStatuses`, `Threats`,
    /// `CVSSScoreSets` and `Remediations` are loaded as groups; after each name
    /// whose text the vulnerability keeps, the next character data becomes that
    /// field. A group of threats that fails ends the load at once, without success.
    pub open spec fn spec_load(vulnerability: VulnerabilityView, cursor: Cursor) -> (
        VulnerabilityView,
        Cursor,
        bool,
    )
        decreases cursor.remaining(),
        when cursor.wf()
    {
        let next = cursor.advance();
        match cursor.sibling(1) {
            None => (vulnerability, next, true),
            Some(key) => {
                proof {
                    cursor.lemma_advance();
                    next.lemma_after_text();
                    lemma_load_notes(vulnerability.notes, 3, next);
                    lemma_load_statuses(vulnerability.productstatuses, next);
                    lemma_load_threats(vulnerability.threats, next);
                    lemma_load_scoresets(vulnerability.cvssscoresets, next);
                    lemma_load_remediations(vulnerability.remediations, next);
                }
                if next.finished {
                    (vulnerability, next, true)
                } else if key == "Notes"@ {
                    let (notes, after) = spec_load_notes(vulnerability.notes, 3, next);
                    Vulnerability::spec_load(VulnerabilityView { notes, ..vulnerability }, after)
                } else if key == "ProductStatuses"@ {
                    let (productstatuses, after) = spec_load_statuses(
                        vulnerability.productstatuses,
                        next,
                    );
                    Vulnerability::spec_load(
                        VulnerabilityView { productstatuses, ..vulnerability },
                        after,
                    )
                } else if key == "Threats"@ {
                    let (threats, after, loaded) = spec_load_threats(vulnerability.threats, next);
                    if loaded {
                        Vulnerability::spec_load(
                            VulnerabilityView { threats, ..vulnerability },
                            after,
                        )
                    } else {
                        (VulnerabilityView { threats, ..vulnerability }, after, false)
                    }
                } else if key == "CVSSScoreSets"@ {
                    let (cvssscoresets, after) = spec_load_scoresets(
                        vulnerability.cvssscoresets,
                        next,
                    );
                    Vulnerability::spec_load(
                        VulnerabilityView { cvssscoresets, ..vulnerability },
                        after,
                    )
                } else if key == "Remediations"@ {
                    let (remediations, after) = spec_load_remediations(
                        vulnerability.remediations,
                        next,
                    );
                    Vulnerability::spec_load(
                        VulnerabilityView { remediations, ..vulnerability },
                        after,
                    )
                } else if VulnerabilityView::keeps(key) {
                    Vulnerability::spec_load(
                        vulnerability.with(key, next.text()),
                        next.after_text(),
                    )
                } else {
                    Vulnerability::spec_load(vulnerability, next)
                }
            },
        }
    }

    /// The load moves the cursor on; where it succeeds, it ends with the scope at floor 1 closed.
    pub proof fn lemma_load(vulnerability: VulnerabilityView, cursor: Cursor)
        requires
            cursor.wf(),
        ensures
            Vulnerability::spec_load(vulnerability, cursor).1.advanced(cursor),
            Vulnerability::spec_load(vulnerability, cursor).2 ==> Vulnerability::spec_load(
                vulnerability,
                cursor,
            ).1.closed_at(1),
        decreases cursor.remaining(),
    {
        let next = cursor.advance();
        cursor.lemma_advance();
        match cursor.sibling(1) {
            None => {},
            Some(key) => {
                next.lemma_after_text();
                lemma_load_notes(vulnerability.notes, 3, next);
                lemma_load_statuses(vulnerability.productstatuses, next);
                lemma_load_threats(vulnerability.threats, next);
                lemma_load_scoresets(vulnerability.cvssscoresets, next);
                lemma_load_remediations(vulnerability.remediations, next);
                if next.finished {
                    // The stream has ended: so does the load.
                } else if key == "Notes"@ {
                    let (notes, after) = spec_load_notes(vulnerability.notes, 3, next);
                    Vulnerability::lemma_load(VulnerabilityView { notes, ..vulnerability }, after);
                } else if key == "ProductStatuses"@ {
                    let (productstatuses, after) = spec_load_statuses(
                        vulnerability.productstatuses,
                        next,
                    );
                    Vulnerability::lemma_load(
                        VulnerabilityView { productstatuses, ..vulnerability },
                        after,
                    );
                } else if key == "Threats"@ {
                    let (threats, after, loaded) = spec_load_threats(vulnerability.threats, next);
                    if loaded {
                        Vulnerability::lemma_load(
                            VulnerabilityView { threats, ..vulnerability },
                            after,
                        );
                    }
                } else if key == "CVSSScoreSets"@ {
                    let (cvssscoresets, after) = spec_load_scoresets(
                        vulnerability.cvssscoresets,
                        next,
                    );
                    Vulnerability::lemma_load(
                        VulnerabilityView { cvssscoresets, ..vulnerability },
                        after,
                    );
                } else if key == "Remediations"@ {
                    let (remediations, after) = spec_load_remediations(
                        vulnerability.remediations,
                        next,
                    );
                    Vulnerability::lemma_load(
                        VulnerabilityView { remediations, ..vulnerability },
                        after,
                    );
                } else if VulnerabilityView::keeps(key) {
                    Vulnerability::lemma_load(
                        vulnerability.with(key, next.text()),
                        next.after_text(),
                    );
                } else {
                    Vulnerability::lemma_load(vulnerability, next);
                }
            },
        }
    }

    /// Loads one vulnerability from the stream. Fails on a threat whose description
    /// names no severity.
    pub fn load_from_xmlreader(&mut self, reader: &mut XmlReader) -> (loaded: Result<
        (),
        ParseSeverityError,
    >)
        requires
            old(reader)@.wf(),
        ensures
            (final(self)@, final(reader)@, loaded is Ok) == Vulnerability::spec_load(
                old(self)@,
                old(reader)@,
            ),
            loaded is Err ==> loaded == Err::<(), ParseSeverityError>(
                ParseSeverityError::InvalidSeverity,
            ),
            final(reader)@.advanced(old(reader)@),
    {
        proof {
            Vulnerability::lemma_load(old(self)@, old(reader)@);
        }
        loop
            invariant_except_break
                Vulnerability::spec_load(self@, reader@) == Vulnerability::spec_load(
                    old(self)@,
                    old(reader)@,
                ),
            invariant
                reader@.wf(),
                old(reader)@.wf(),
                Vulnerability::spec_load(old(self)@, old(reader)@).1.advanced(old(reader)@),
            ensures
                (self@, reader@, true) == Vulnerability::spec_load(old(self)@, old(reader)@),
            decreases reader@.remaining(),
        {
            let key = match reader.next_start_name_under_depth(1) {
                Some(key) => key,
                None => {
                    break ;
                },
            };
            if reader.finished() {
                break ;
            }
            if same_text(key.as_str(), "Notes") {
                self.handle_notes(reader);
            } else if same_text(key.as_str(), "ProductStatuses") {
                self.handle_productstatuses(reader);
            } else if same_text(key.as_str(), "Threats") {
                match self.handle_threats(reader) {
                    Ok(()) => {},
                    Err(error) => {
                        return Err(error);
                    },
                }
            } else if same_text(key.as_str(), "CVSSScoreSets") {
                self.handle_cvssscoresets(reader);
            } else if same_text(key.as_str(), "Remediations") {
                self.handle_remediations(reader);
            } else if same_text(key.as_str(), "ReleaseDate") {
                self.releasedate = reader.next_characters();
            } else if same_text(key.as_str(), "CVE") {
                self.cve = reader.next_characters();
            }
        }
        Ok(())
    }

    /// Loads the notes of a `Notes` group, keyed by title.
    pub fn handle_notes(&mut self, reader: &mut XmlReader)
        requires
            old(reader)@.wf(),
        ensures
            (final(self)@.notes, final(reader)@) == spec_load_notes(
                old(self)@.notes,
                3,
                old(reader)@,
            ),
            final(self)@ == (VulnerabilityView { notes: final(self)@.notes, ..old(self)@ }),
            final(reader)@.advanced(old(reader)@),
            final(reader)@.closed_below(3),
    {
        load_notes(&mut self.notes, 3, reader);
    }

    /// Loads the statuses of a `ProductStatuses` group and appends them.
    pub fn handle_productstatuses(&mut self, reader: &mut XmlReader)
        requires
            old(reader)@.wf(),
        ensures
            (final(self)@.productstatuses, final(reader)@) == spec_load_statuses(
                old(self)@.productstatuses,
                old(reader)@,
            ),
            final(self)@ == (VulnerabilityView {
                productstatuses: final(self)@.productstatuses,
                ..old(self)@
            }),
            final(reader)@.advanced(old(reader)@),
            final(reader)@.closed_below(3),
    {
        proof {
            lemma_load_statuses(old(self)@.productstatuses, old(reader)@);
        }
        loop
            invariant_except_break
                spec_load_statuses(self@.productstatuses, reader@) == spec_load_statuses(
                    old(self)@.productstatuses,
                    old(reader)@,
                ),
            invariant
                reader@.wf(),
                self@ == (VulnerabilityView {
                    productstatuses: self@.productstatuses,
                    ..old(self)@
                }),
            ensures
                (self@.productstatuses, reader@) == spec_load_statuses(
                    old(self)@.productstatuses,
                    old(reader)@,
                ),
            decreases reader@.remaining(),
        {
            let mut status = ProductStatus::new();
            status.load_from_xmlreader(reader);
            if reader.depth() < 3 || reader.finished() {
                break ;
            }
            proof {
                lemma_views_push(self.productstatuses@, status);
            }
            self.productstatuses.push(status);
        }
    }

    /// Loads the threats of a `Threats` group and appends them. Fails on a threat
    /// whose description names no severity.
    pub fn handle_threats(&mut self, reader: &mut XmlReader) -> (loaded: Result<
        (),
        ParseSeverityError,
    >)
        requires
            old(reader)@.wf(),
        ensures
            (final(self)@.threats, final(reader)@, loaded is Ok) == spec_load_threats(
                old(self)@.threats,
                old(reader)@,
            ),
            loaded is Err ==> loaded == Err::<(), ParseSeverityError>(
                ParseSeverityError::InvalidSeverity,
            ),
            final(self)@ == (VulnerabilityView { threats: final(self)@.threats, ..old(self)@ }),
            final(reader)@.advanced(old(reader)@),
    {
        proof {
            lemma_load_threats(old(self)@.threats, old(reader)@);
        }
        loop
            invariant_except_break
                spec_load_threats(self@.threats, reader@) == spec_load_threats(
                    old(self)@.threats,
                    old(reader)@,
                ),
            invariant
                reader@.wf(),
                old(reader)@.wf(),
                spec_load_threats(old(self)@.threats, old(reader)@).1.advanced(old(reader)@),
                self@ == (VulnerabilityView { threats: self@.threats, ..old(self)@ }),
            ensures
                (self@.threats, reader@, true) == spec_load_threats(
                    old(self)@.threats,
                    old(reader)@,
                ),
            decreases reader@.remaining(),
        {
            let mut threat = Threat::new();
            match threat.load_from_xmlreader(reader) {
                Ok(()) => {},
                Err(error) => {
                    return Err(error);
                },
            }
            if reader.depth() < 3 || reader.finished() {
                break ;
            }
            proof {
                lemma_views_push(self.threats@, threat);
            }
            self.threats.push(threat);
        }
        Ok(())
    }

    /// Loads the score sets of a `CVSSScoreSets` group and appends them.
    pub fn handle_cvssscoresets(&mut self, reader: &mut XmlReader)
        requires
            old(reader)@.wf(),
        ensures
            (final(self)@.cvssscoresets, final(reader)@) == spec_load_scoresets(
                old(self)@.cvssscoresets,
                old(reader)@,
            ),
            final(self)@ == (VulnerabilityView {
                cvssscoresets: final(self)@.cvssscoresets,
                ..old(self)@
            }),
            final(reader)@.advanced(old(reader)@),
            final(reader)@.closed_below(3),
    {
        proof {
            lemma_load_scoresets(old(self)@.cvssscoresets, old(reader)@);
        }
        loop
            invariant_except_break
                spec_load_scoresets(self@.cvssscoresets, reader@) == spec_load_scoresets(
                    old(self)@.cvssscoresets,
                    old(reader)@,
                ),
            invariant
                reader@.wf(),
                self@ == (VulnerabilityView { cvssscoresets: self@.cvssscoresets, ..old(self)@ }),
            ensures
                (self@.cvssscoresets, reader@) == spec_load_scoresets(
                    old(self)@.cvssscoresets,
                    old(reader)@,
                ),
            decreases reader@.remaining(),
        {
            let mut scoreset = ScoreSet::new();
            scoreset.load_from_xmlreader(reader);
            if reader.depth() < 3 || reader.finished() {
                break ;
            }
            proof {
                lemma_views_push(self.cvssscoresets@, scoreset);
            }
            self.cvssscoresets.push(scoreset);
        }
    }

    /// Loads the remediations of a `Remediations` group and appends them.
    pub fn handle_remediations(&mut self, reader: &mut XmlReader)
        requires
            old(reader)@.wf(),
        ensures
            (final(self)@.remediations, final(reader)@) == spec_load_remediations(
                old(self)@.remediations,
                old(reader)@,
            ),
            final(self)@ == (VulnerabilityView {
                remediations: final(self)@.remediations,
                ..old(self)@
            }),
            final(reader)@.advanced(old(reader)@),
            final(reader)@.closed_below(3),
    {
        proof {
            lemma_load_remediations(old(self)@.remediations, old(reader)@);
        }
        loop
            invariant_except_break
                spec_load_remediations(self@.remediations, reader@) == spec_load_remediations(
                    old(self)@.remediations,
                    old(reader)@,
                ),
            invariant
                reader@.wf(),
                self@ == (VulnerabilityView { remediations: self@.remediations, ..old(self)@ }),
            ensures
                (self@.remediations, reader@) == spec_load_remediations(
                    old(self)@.remediations,
                    old(reader)@,
                ),
            decreases reader@.remaining(),
        {
            let mut remediation = Remediation::new();
            remediation.load_from_xmlreader(reader);
            if reader.depth() < 3 || reader.finished() {
                break ;
            }
            proof {
                lemma_views_push(self.remediations@, remediation);
            }
            self.remediations.push(remediation);
        }
    }
}

} // verus!
