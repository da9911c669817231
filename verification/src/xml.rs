//! The events of an XML document as plain values, and the reader of
//! `quick_xml` that produces them.

use quick_xml::events::attributes::Attribute;
use quick_xml::events::Event::{Empty, End, Eof, Start, Text};
use quick_xml::Reader;
use vstd::prelude::*;

verus! {

/// The mathematical value of an [`XmlAttribute`].
pub struct AttributeView {
    pub key: Seq<u8>,
    pub value: Seq<u8>,
}

/// One attribute of a tag: its name and its value between the quotes, both
/// as they stand in the document.
#[derive(Debug, PartialEq, Eq)]
pub struct XmlAttribute {
    pub key: Vec<u8>,
    pub value: Vec<u8>,
}

impl View for XmlAttribute {
    type V = AttributeView;

    open spec fn view(&self) -> AttributeView {
        AttributeView { key: self.key@, value: self.value@ }
    }
}

/// The mathematical value of an [`XmlEvent`].
pub enum XmlEventView {
    Start { name: Seq<u8> },
    End { name: Seq<u8> },
    Empty { name: Seq<u8>, attributes: Seq<Option<AttributeView>> },
    Text { content: Seq<u8> },
    Other,
    Eof,
    Failure { message: Seq<char> },
}

/// One event of a document, holding what the importer reads of it.
#[derive(Debug, PartialEq, Eq)]
pub enum XmlEvent {
    /// A start tag, with the name of the element.
    Start(Vec<u8>),
    /// An end tag, with the name of the element.
    End(Vec<u8>),
    /// A self-closing tag, with the name of the element and its attributes
    /// in document order; a malformed or repeated attribute is `None`.
    Empty(Vec<u8>, Vec<Option<XmlAttribute>>),
    /// Character data between tags, still escaped.
    Text(Vec<u8>),
    /// Any other markup: comments, declarations, references and the like.
    Other,
    /// The end of the document.
    Eof,
    /// The reader's error, with its description.
    Failure(String),
}

/// The views of the attributes of a tag, place by place.
pub open spec fn attribute_views(attributes: Seq<Option<XmlAttribute>>) -> Seq<
    Option<AttributeView>,
> {
    Seq::new(
        attributes.len(),
        |i: int|
            match attributes[i] {
                Some(a) => Some(a@),
                None => None,
            },
    )
}

impl View for XmlEvent {
    type V = XmlEventView;

    open spec fn view(&self) -> XmlEventView {
        match self {
            XmlEvent::Start(name) => XmlEventView::Start { name: name@ },
            XmlEvent::End(name) => XmlEventView::End { name: name@ },
            XmlEvent::Empty(name, attributes) => XmlEventView::Empty {
                name: name@,
                attributes: attribute_views(attributes@),
            },
            XmlEvent::Text(content) => XmlEventView::Text { content: content@ },
            XmlEvent::Other => XmlEventView::Other,
            XmlEvent::Eof => XmlEventView::Eof,
            XmlEvent::Failure(message) => XmlEventView::Failure { message: message@ },
        }
    }
}

impl XmlEventView {
    /// Whether reading stops at this event: the end of the document, or an
    /// error of the reader.
    pub open spec fn ends_reading(self) -> bool {
        self is Eof || self is Failure
    }
}

/// `quick_xml::Reader`, carried through as an opaque value.
#[verifier::external_type_specification]
#[verifier::external_body]
#[verifier::reject_recursive_types(R)]
pub struct ExReader<R>(Reader<R>);

/// The events that `quick_xml` reads from the document `xml` with its
/// default configuration, up to and including the first event that ends the
/// reading.
pub uninterp spec fn document_events(xml: Seq<char>) -> Seq<XmlEventView>;

/// The events that a reader has yet to yield, up to and including the first
/// event that ends the reading.
pub uninterp spec fn pending_events(reader: Reader<&[u8]>) -> Seq<XmlEventView>;

/// The text that `quick_xml` makes of an attribute value by decoding it as
/// UTF-8 and resolving its character and predefined entity references, or
/// `None` where it reports an error.
pub uninterp spec fn unescaped(value: Seq<u8>) -> Option<Seq<char>>;

/// `Reader::from_str`: a reader at the start of the document. The contract
/// names the events that it will yield after the document alone, which
/// `quick_xml` determines from the text and its default configuration.
#[verifier::external_body]
pub(crate) fn open_reader(xml: &str) -> (reader: Reader<&[u8]>)
    ensures
        pending_events(reader) == document_events(xml@),
{
    Reader::from_str(xml)
}

/// `Reader::read_event`, its result written as an [`XmlEvent`]. The contract
/// claims that the reader hands out its pending events one by one: there is
/// always one more, and unless that one ends the reading the rest stays
/// pending. Each read but the last consumes input, so the events are
/// finitely many.
#[verifier::external_body]
pub(crate) fn next_event(reader: &mut Reader<&[u8]>) -> (event: XmlEvent)
    ensures
        pending_events(*old(reader)).len() > 0,
        event@ == pending_events(*old(reader))[0],
        !event@.ends_reading() ==> pending_events(*final(reader)) == pending_events(
            *old(reader),
        ).drop_first(),
{
    match reader.read_event() {
        Ok(Start(e)) => XmlEvent::Start(e.name().0.to_vec()),
        Ok(End(e)) => XmlEvent::End(e.name().0.to_vec()),
        Ok(Text(e)) => XmlEvent::Text(e.to_vec()),
        Ok(Empty(e)) => XmlEvent::Empty(
            e.name().0.to_vec(),
            e.attributes().map(|a| a.ok().map(|a| XmlAttribute {
                key: a.key.0.to_vec(),
                value: a.value.to_vec(),
            })).collect(),
        ),
        Ok(Eof) => XmlEvent::Eof,
        Ok(_) => XmlEvent::Other,
        Err(e) => XmlEvent::Failure(e.to_string()),
    }
}

/// `Attribute::unescape_value` on an attribute with the given raw value. The
/// result depends on the value alone; the contract gives it the name
/// [`unescaped`].
#[verifier::external_body]
pub(crate) fn unescape_value(value: &[u8]) -> (text: Option<String>)
    ensures
        match text {
            Some(t) => unescaped(value@) == Some(t@),
            None => unescaped(value@) is None,
        },
{
    Attribute::from((&b""[..], value)).unescape_value().ok().map(|t| t.into_owned())
}

} // verus!
