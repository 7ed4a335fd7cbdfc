//! The XML parser and writer that this library rests on.
//!
//! Everything in this file states what `quick_xml` does; none of it is
//! proved. The text of a document is cut into events by `quick_xml`'s
//! pull parser, and the text of an element is put together by its writer.
//! What they return is a function of what they are given, and is named
//! here, not described: the rest of the library is proved for whatever
//! these names stand for.

use crate::tree::{attributes_view, Attribute};
use quick_xml::events::attributes::Attributes;
use quick_xml::events::{BytesStart, BytesText, Event};
use quick_xml::reader::Reader;
use quick_xml::writer::Writer;
use quick_xml::XmlVersion;
use vstd::prelude::*;

verus! {

/// The pull parser of `quick_xml`.
#[verifier::external_type_specification]
#[verifier::external_body]
#[verifier::reject_recursive_types(R)]
pub struct ExReader<R>(Reader<R>);

/// What kind of markup an event stands for.
#[derive(Clone, Copy, Debug, PartialEq, Eq, Structural)]
pub enum EventKind {
    /// An opening tag, `<name ...>`.
    Start,
    /// A self-closing tag, `<name .../>`.
    Empty,
    /// A closing tag, `</name>`.
    End,
    /// Character data between tags.
    Text,
    /// A `<![CDATA[...]]>` section.
    CData,
    /// A reference inside character data, `&name;` or `&#number;`.
    Reference,
    /// A comment, a declaration, a processing instruction or a document type.
    Other,
    /// The end of the text.
    Eof,
}

/// One event of the parser: its kind and the text that it covers, without
/// the delimiters of the markup.
#[derive(Debug, PartialEq)]
pub struct XmlEvent {
    pub kind: EventKind,
    pub content: String,
}

/// A failure that the parser reports, with the byte offset it gives for it.
#[derive(Debug, PartialEq)]
pub struct XmlFault {
    pub message: String,
    pub position: u64,
}

/// An event as a mathematical value.
pub struct EventView {
    pub kind: EventKind,
    pub content: Seq<char>,
}

/// A failure of the parser as a mathematical value.
pub struct FaultView {
    pub message: Seq<char>,
    pub position: u64,
}

impl View for XmlEvent {
    type V = EventView;

    open spec fn view(&self) -> EventView {
        EventView { kind: self.kind, content: self.content@ }
    }
}

impl View for XmlFault {
    type V = FaultView;

    open spec fn view(&self) -> FaultView {
        FaultView { message: self.message@, position: self.position }
    }
}

/// What one reading step returns, as a mathematical value.
pub open spec fn step_view(r: Result<XmlEvent, XmlFault>) -> Result<EventView, FaultView> {
    match r {
        Ok(event) => Ok(event@),
        Err(fault) => Err(fault@),
    }
}

/// What a list of attributes or a failure message is, as a mathematical value.
pub open spec fn attributes_outcome(r: Result<Vec<Attribute>, String>) -> Result<
    Seq<(Seq<char>, Seq<char>)>,
    Seq<char>,
> {
    match r {
        Ok(attributes) => Ok(attributes_view(attributes@)),
        Err(message) => Err(message@),
    }
}

/// What a text or a failure message is, as a mathematical value.
pub open spec fn text_outcome(r: Result<String, String>) -> Result<Seq<char>, Seq<char>> {
    match r {
        Ok(text) => Ok(text@),
        Err(message) => Err(message@),
    }
}

/// A text with its line ends normalized as XML 1.0 asks: a carriage return
/// with a line feed behind it, and a carriage return alone, is one line feed.
pub open spec fn line_ends_normalized(raw: Seq<char>) -> Seq<char>
    decreases raw.len(),
{
    if raw.len() == 0 {
        raw
    } else if raw[0] == '\r' {
        if raw.len() > 1 && raw[1] == '\n' {
            seq!['\n'] + line_ends_normalized(raw.skip(2))
        } else {
            seq!['\n'] + line_ends_normalized(raw.skip(1))
        }
    } else {
        seq![raw[0]] + line_ends_normalized(raw.skip(1))
    }
}

/// Whether reading ends with this step: at a failure or at the end of the text.
pub open spec fn is_final(step: Result<EventView, FaultView>) -> bool {
    match step {
        Ok(event) => event.kind == EventKind::Eof,
        Err(_) => true,
    }
}

/// The steps that a parser has yet to report, up to and including the
/// first failure or the end of the text.
pub uninterp spec fn pending(reader: Reader<&[u8]>) -> Seq<Result<EventView, FaultView>>;

/// The steps that a parser reports for a text, up to and including the
/// first failure or the end of the text.
pub uninterp spec fn xml_events(text: Seq<char>) -> Seq<Result<EventView, FaultView>>;

/// The attributes that the part of a tag behind its name holds, or the
/// message of the failure to read them.
pub uninterp spec fn xml_attributes(raw: Seq<char>) -> Result<
    Seq<(Seq<char>, Seq<char>)>,
    Seq<char>,
>;

/// The text that an escaped text stands for, or the message of the failure
/// to resolve a reference in it.
pub uninterp spec fn xml_unescaped(raw: Seq<char>) -> Result<Seq<char>, Seq<char>>;

/// The text of an element: its opening tag with the attributes, its
/// character data, escaped, then `inner` as it stands, then its closing tag.
pub uninterp spec fn xml_element(
    name: Seq<char>,
    attributes: Seq<(Seq<char>, Seq<char>)>,
    text: Seq<char>,
    inner: Seq<char>,
) -> Seq<char>;

/// Makes a parser for a text, with `quick_xml::Reader::from_str`. The
/// parser has the steps of the text before it.
#[verifier::external_body]
pub(crate) fn open_reader<'a>(text: &'a str) -> (reader: Reader<&'a [u8]>)
    ensures
        pending(reader) == xml_events(text@),
{
    Reader::from_str(text)
}

/// Reads one event, with `quick_xml::Reader::read_event`. The parser
/// always has a step before it; this is the first one, and unless it is
/// final the parser is left with the steps behind it. The content of an
/// event is the text that the event dereferences to; a failure is given by
/// its message and by `Reader::error_position`.
#[verifier::external_body]
pub(crate) fn read_event<'a>(reader: &mut Reader<&'a [u8]>) -> (r: Result<XmlEvent, XmlFault>)
    ensures
        pending(*old(reader)).len() > 0,
        step_view(r) == pending(*old(reader))[0],
        !is_final(step_view(r)) ==> pending(*final(reader)) == pending(*old(reader)).drop_first(),
{
    let event = reader.read_event().map_err(
        |e| XmlFault { message: e.to_string(), position: reader.error_position() },
    )?;
    let kind = match &event {
        Event::Start(_) => EventKind::Start,
        Event::Empty(_) => EventKind::Empty,
        Event::End(_) => EventKind::End,
        Event::Text(_) => EventKind::Text,
        Event::CData(_) => EventKind::CData,
        Event::GeneralRef(_) => EventKind::Reference,
        Event::Eof => EventKind::Eof,
        _ => EventKind::Other,
    };
    Ok(XmlEvent { kind, content: str::to_owned(&event) })
}

/// Reads the attributes in the part of a tag behind its name, with
/// `quick_xml::events::attributes::Attributes`, and the value of each with
/// `Attribute::normalized_value`. The first failure ends the reading; a
/// position in its message counts from the start of `raw`.
#[verifier::external_body]
pub(crate) fn parse_attributes(raw: &str) -> (r: Result<Vec<Attribute>, String>)
    ensures
        attributes_outcome(r) == xml_attributes(raw@),
{
    let mut attributes = Vec::new();
    for item in Attributes::new(raw, 0) {
        let item = item.map_err(|e| e.to_string())?;
        let value = item.normalized_value(XmlVersion::Implicit1_0).map_err(|e| e.to_string())?;
        attributes.push(Attribute { name: item.key.0.to_string(), value: value.into_owned() });
    }
    Ok(attributes)
}

/// Normalizes the line ends of a run of text, with
/// `quick_xml::events::BytesText::xml10_content`: every carriage return
/// gives a line feed, and a line feed behind a carriage return is dropped.
#[verifier::external_body]
pub(crate) fn character_data(raw: &str) -> (text: String)
    ensures
        text@ == line_ends_normalized(raw@),
{
    BytesText::from_escaped(raw).xml10_content().into_owned()
}

/// Resolves the references in a text, with `quick_xml::escape::unescape`.
#[verifier::external_body]
pub(crate) fn unescape(raw: &str) -> (r: Result<String, String>)
    ensures
        text_outcome(r) == xml_unescaped(raw@),
{
    match quick_xml::escape::unescape(raw) {
        Ok(text) => Ok(text.into_owned()),
        Err(e) => Err(e.to_string()),
    }
}

/// Writes an element with `quick_xml::Writer::write_event`: a start event
/// with the attributes, a text event that escapes `text`, a text event
/// that holds `inner` as it stands, and an end event.
#[verifier::external_body]
pub(crate) fn write_element(name: &str, attributes: &Vec<Attribute>, text: &str, inner: &str) -> (s:
    String)
    ensures
        s@ == xml_element(name@, attributes_view(attributes@), text@, inner@),
{
    let mut tag = BytesStart::new(name);
    for a in attributes {
        tag.push_attribute((a.name.as_str(), a.value.as_str()));
    }
    let mut writer = Writer::new(Vec::new());
    let _ = writer.write_event(Event::Start(tag.borrow()));
    let _ = writer.write_event(Event::Text(BytesText::new(text)));
    let _ = writer.write_event(Event::Text(BytesText::from_escaped(inner)));
    let _ = writer.write_event(Event::End(tag.to_end()));
    String::from_utf8(writer.into_inner()).unwrap_or_default()
}

} // verus!
