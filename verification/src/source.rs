//! The boundary to the XML tokenizer.
//!
//! What this module says of the tokenizer is believed, not proved. It is the
//! `xml` crate's `EventReader`, reading a document that is held in memory. What
//! is said of it here is that its events are a function of the document's bytes,
//! that they come to an end, and that the last one is handed out again and again.

use vstd::prelude::*;
use xml::reader::{EventReader, XmlEvent};
use crate::event::{Attribute, Event, Token};

verus! {

/// An `xml::reader::EventReader` over a byte slice.
///
/// The reader's type cannot be declared to the verifier, for its parameter is
/// bound by `std::io::Read`; so it is kept behind this opaque struct.
#[verifier::external_body]
pub struct EventSource<'a> {
    reader: EventReader<&'a [u8]>,
}

/// The events that a fresh reader over the document `xml` yields, each reduced to
/// a [`Token`], up to and including the first terminal one.
pub uninterp spec fn xml_events(xml: Seq<u8>) -> Seq<Token>;

/// The events that a reader has yet to yield, the terminal one last.
pub uninterp spec fn pending_events(source: &EventSource) -> Seq<Token>;

/// A stream is terminated when it is not empty, ends in a terminal token and
/// holds no other terminal token.
pub open spec fn terminated(stream: Seq<Token>) -> bool {
    &&& stream.len() > 0
    &&& stream.last().is_terminal()
    &&& forall|i: int| 0 <= i < stream.len() - 1 ==> !(#[trigger] stream[i]).is_terminal()
}

/// What is left of a stream once its first token has been yielded: a terminal
/// token stays, any other is dropped.
pub open spec fn after_first(stream: Seq<Token>) -> Seq<Token> {
    if stream[0].is_terminal() {
        stream
    } else {
        stream.skip(1)
    }
}

/// Calls `EventReader::new` on the document.
///
/// Claimed of it: the events that the new reader will yield are those that the
/// document's bytes determine, and they form a terminated stream. The reader
/// reads a slice, which has an end; at the end of its input it yields
/// `EndDocument` or an error, and either is final.
#[verifier::external_body]
pub(crate) fn open_events<'a>(xml: &'a [u8]) -> (source: EventSource<'a>)
    ensures
        pending_events(&source) == xml_events(xml@),
        terminated(pending_events(&source)),
{
    EventSource { reader: EventReader::new(xml) }
}

/// Calls `EventReader::next` and reduces the event to what the loaders read: of
/// an opening tag the local name and, of each attribute, local name and value; of
/// character data the text; of everything else only its kind. An error of the
/// reader becomes [`Event::Failure`].
///
/// Claimed of it: the event is the first of those pending, and it leaves the
/// pending ones unless it is terminal. `EventReader::next` documents that after
/// `EndDocument` or an error every further call returns that result again.
#[verifier::external_body]
pub(crate) fn pull_event(source: &mut EventSource) -> (event: Event)
    requires
        terminated(pending_events(old(source))),
    ensures
        event@ == pending_events(old(source))[0],
        pending_events(final(source)) == after_first(pending_events(old(source))),
{
    match source.reader.next() {
        Ok(XmlEvent::StartElement { name, attributes, .. }) => Event::Start {
            name: name.local_name,
            attributes: attributes
                .into_iter()
                .map(|a| Attribute { name: a.name.local_name, value: a.value })
                .collect(),
        },
        Ok(XmlEvent::EndElement { .. }) => Event::End,
        Ok(XmlEvent::Characters(text)) => Event::Text(text),
        Ok(XmlEvent::EndDocument) => Event::EndDocument,
        Ok(_) => Event::Other,
        Err(_) => Event::Failure,
    }
}

} // verus!
