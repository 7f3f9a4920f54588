//! The XML reader behind the descriptor rules.
//!
//! A cursor is built only by [`open_cursor`] and moved only by [`next_event`]; its
//! fields are private, so the document it reads and the number of events read so
//! far cannot be set by anything else.

use vstd::prelude::*;

use quick_xml::events::Event::{Empty, End as Close, Eof as Done, Start, Text as Content};
use quick_xml::Reader;

use crate::xml::XmlEvent;
use crate::xml::XmlEvent::{Element, End, Eof, Malformed, Other, Text};

verus! {

#[verifier::external_type_specification]
#[verifier::external_body]
#[verifier::reject_recursive_types(R)]
pub struct ExReader<R>(Reader<R>);

/// The events that the XML reader, set to trim whitespace around text content, yields
/// for the document `text`, up to and including the first end of document or error.
pub uninterp spec fn xml_events(text: Seq<char>) -> Seq<XmlEvent>;

/// A reader over a document, with the number of events read so far.
pub struct XmlCursor<'a> {
    reader: Reader<&'a [u8]>,
    text: Ghost<Seq<char>>,
    seen: Ghost<nat>,
}

impl<'a> XmlCursor<'a> {
    /// The document the cursor reads.
    pub closed spec fn source(&self) -> Seq<char> {
        self.text@
    }

    /// How many events the cursor has yielded.
    pub closed spec fn position(&self) -> nat {
        self.seen@
    }
}

/// Relies on `quick_xml::Reader::from_str` and `Reader::trim_text(true)`: a reader at
/// the start of `text` that drops whitespace around text content.
#[verifier::external_body]
pub fn open_cursor(text: &str) -> (c: XmlCursor)
    ensures
        c.source() == text@,
        c.position() == 0,
{
    let mut reader = Reader::from_str(text);
    reader.trim_text(true);
    XmlCursor { reader, text: Ghost(text@), seen: Ghost(0) }
}

/// Relies on `quick_xml::Reader::read_event`: successive calls yield the document's
/// events in order, the last being the end of the document or an error. Names and
/// attribute keys are handed over as bytes; the attributes come from
/// `BytesStart::attributes`, skipping malformed ones, each value unescaped by
/// `Attribute::unescape_value`; text is unescaped by `BytesText::unescape`.
#[verifier::external_body]
pub fn next_event(cursor: &mut XmlCursor) -> (e: XmlEvent)
    requires
        old(cursor).position() == 0 || old(cursor).position() < xml_events(old(cursor).source()).len(),
    ensures
        final(cursor).source() == old(cursor).source(),
        final(cursor).position() == old(cursor).position() + 1,
        final(cursor).position() <= xml_events(old(cursor).source()).len(),
        e == xml_events(old(cursor).source())[old(cursor).position() as int],
        (e is Eof || e is Malformed) <==> final(cursor).position() == xml_events(
            old(cursor).source(),
        ).len(),
{
    let (start, self_closing) = match cursor.reader.read_event() {
        Ok(Start(e)) => (e, false),
        Ok(Empty(e)) => (e, true),
        Ok(Close(e)) => return End { name: e.name().0.to_vec() },
        Ok(Content(e)) => return Text { content: e.unescape().ok().map(String::from) },
        Ok(Done) => return Eof,
        Ok(_) => return Other,
        Err(_) => return Malformed,
    };
    let attributes = start.attributes().flatten().map(|a| (a.key.0.to_vec(), a.unescape_value().ok().map(String::from))).collect();
    Element { name: start.name().0.to_vec(), attributes, self_closing }
}

} // verus!
