//! Loader for CVRF security advisories.
//!
//! An advisory is an XML document of a fixed vocabulary. [`CVRF::load_xml`] reads
//! one in a single forward pass: an [`XmlReader`] pulls the events of the document
//! and keeps the nesting depth, and one loader per element fills the record that
//! the element stands for.

pub mod document;
pub mod event;
pub mod note;
pub mod product;
pub mod publisher;
pub mod reader;
pub mod reference;
pub mod severity;
pub mod source;
pub mod status;
pub mod text;
pub mod textmap;
pub mod tracking;
pub mod vulnerability;

pub use crate::document::{LoadError, CVRF};
pub use crate::event::{Attribute, Event};
pub use crate::note::Note;
pub use crate::product::{Product, ProductTree};
pub use crate::publisher::Publisher;
pub use crate::reader::XmlReader;
pub use crate::reference::Reference;
pub use crate::severity::{ParseSeverityError, Severity};
pub use crate::status::{ProductStatus, Remediation, ScoreSet, Threat};
pub use crate::textmap::TextMap;
pub use crate::tracking::{DocumentTracking, Generator, Identification, Revision};
pub use crate::vulnerability::Vulnerability;
