//! Threat severities and their textual form.

use vstd::prelude::*;
use vstd::string::*;

verus! {

/// How severe a threat is, from `Null` (lowest) to `Critical` (highest).
#[derive(Debug, Clone, PartialOrd, Ord, PartialEq, Eq, Structural)]
pub enum Severity {
    Null,
    Low,
    Moderate,
    Important,
    Critical,
}

/// Why a text is no severity.
#[derive(Debug, Clone, PartialEq, Eq, Structural)]
pub enum ParseSeverityError {
    InvalidSeverity,
}

/// The lower-case form of an ASCII capital; any other character is unchanged.
pub open spec fn lower(c: char) -> char {
    if 'A' <= c <= 'Z' {
        ((c as u8) + 32) as char
    } else {
        c
    }
}

/// `text` with every ASCII capital in lower case.
pub open spec fn folded(text: Seq<char>) -> Seq<char> {
    text.map_values(|c: char| lower(c))
}

/// The severity that a text names, whatever its case: `low`; `moderate` or
/// `medium`; `important` or `high`; `critical`. No other text names one.
pub open spec fn severity_named(text: Seq<char>) -> Option<Severity> {
    let word = folded(text);
    if word == "low"@ {
        Some(Severity::Low)
    } else if word == "moderate"@ || word == "medium"@ {
        Some(Severity::Moderate)
    } else if word == "important"@ || word == "high"@ {
        Some(Severity::Important)
    } else if word == "critical"@ {
        Some(Severity::Critical)
    } else {
        None
    }
}

/// Texts that differ only in the case of their ASCII letters name the same
/// severity.
pub proof fn lemma_case_is_ignored(a: Seq<char>, b: Seq<char>)
    requires
        folded(a) == folded(b),
    ensures
        severity_named(a) == severity_named(b),
{
}

fn lower_char(c: char) -> (l: char)
    ensures
        l == lower(c),
{
    if 'A' <= c && c <= 'Z' {
        ((c as u8) + 32) as char
    } else {
        c
    }
}

/// Whether `text` is `word` once its ASCII capitals are in lower case.
fn reads_as(text: &str, word: &str) -> (same: bool)
    ensures
        same == (folded(text@) == word@),
{
    let n = text.unicode_len();
    if n != word.unicode_len() {
        return false;
    }
    let mut i: usize = 0;
    while i < n
        invariant
            n == text@.len(),
            n == word@.len(),
            i <= n,
            forall|k: int| 0 <= k < i ==> lower(text@[k]) == word@[k],
        decreases n - i,
    {
        if lower_char(text.get_char(i)) != word.get_char(i) {
            assert(folded(text@)[i as int] != word@[i as int]);
            return false;
        }
        i += 1;
    }
    assert(folded(text@) =~= word@);
    true
}

impl Severity {
    /// The lowest severity.
    pub fn new() -> (severity: Self)
        ensures
            severity == Severity::Null,
    {
        Severity::Null
    }

    /// The place of a severity in the order `Null < Low < Moderate < Important < Critical`.
    pub open spec fn spec_rank(&self) -> u8 {
        match self {
            Severity::Null => 0,
            Severity::Low => 1,
            Severity::Moderate => 2,
            Severity::Important => 3,
            Severity::Critical => 4,
        }
    }

    /// The place of a severity in the order `Null < Low < Moderate < Important < Critical`.
    #[verifier::when_used_as_spec(spec_rank)]
    pub fn rank(&self) -> (rank: u8)
        ensures
            rank == self.spec_rank(),
    {
        match self {
            Severity::Null => 0,
            Severity::Low => 1,
            Severity::Moderate => 2,
            Severity::Important => 3,
            Severity::Critical => 4,
        }
    }

    /// Reads a severity from its name, whatever its case.
    pub fn from_str(text: &str) -> (parsed: Result<Severity, ParseSeverityError>)
        ensures
            parsed == match severity_named(text@) {
                Some(severity) => Ok::<Severity, ParseSeverityError>(severity),
                None => Err(ParseSeverityError::InvalidSeverity),
            },
    {
        if reads_as(text, "low") {
            Ok(Severity::Low)
        } else if reads_as(text, "moderate") || reads_as(text, "medium") {
            Ok(Severity::Moderate)
        } else if reads_as(text, "important") || reads_as(text, "high") {
            Ok(Severity::Important)
        } else if reads_as(text, "critical") {
            Ok(Severity::Critical)
        } else {
            Err(ParseSeverityError::InvalidSeverity)
        }
    }
}

impl ParseSeverityError {
    /// The error in words.
    pub fn message(&self) -> (message: String)
        ensures
            message@ == "Invalid severity level"@,
    {
        String::from_str("Invalid severity level")
    }
}

impl std::str::FromStr for Severity {
    type Err = ParseSeverityError;

    fn from_str(text: &str) -> (parsed: Result<Self, Self::Err>)
        ensures
            parsed == match severity_named(text@) {
                Some(severity) => Ok::<Severity, ParseSeverityError>(severity),
                None => Err(ParseSeverityError::InvalidSeverity),
            },
    {
        Severity::from_str(text)
    }
}

} // verus!
