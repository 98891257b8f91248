//! The calls into the `xml` crate that parse and emit XML text.

use std::io::{Read, Write};
use vstd::prelude::*;
use crate::event::{ReaderEvent, WriterEvent, XmlAttribute, XmlName};
use xml::reader::XmlEvent as X;

verus! {

#[verifier::external_type_specification]
#[verifier::external_body]
pub struct ExReaderEvent(xml::reader::XmlEvent);

#[verifier::external_type_specification]
#[verifier::external_body]
pub struct ExReaderError(xml::reader::Error);

#[verifier::external_type_specification]
#[verifier::external_body]
pub struct ExOwnedName(xml::name::OwnedName);

#[verifier::external_type_specification]
#[verifier::external_body]
pub struct ExOwnedAttribute(xml::attribute::OwnedAttribute);

#[verifier::external_type_specification]
#[verifier::external_body]
#[verifier::reject_recursive_types(W)]
pub struct ExEventWriter<W>(xml::writer::EventWriter<W>);

/// A pull parser (`xml::reader::EventReader`) over a byte stream of lifetime `'a`. The parser
/// is held in a struct of the library's own, hidden from Verus, because Verus refuses a
/// declaration of the generic type `xml::reader::EventReader<R>`.
#[verifier::external_body]
pub struct XmlSource<'a> {
    parser: xml::reader::EventReader<Box<dyn Read + 'a>>,
}

/// Builds a pull parser over `source` that trims whitespace, turns whitespace and CDATA into
/// characters, drops comments and coalesces adjacent character data
/// (`xml::reader::ParserConfig` builder and `xml::reader::EventReader::new_with_config`).
#[verifier::external_body]
pub(crate) fn configured_source<'a, R: Read + 'a>(source: R) -> XmlSource<'a> {
    let config = xml::reader::ParserConfig::new()
        .trim_whitespace(true)
        .whitespace_to_characters(true)
        .cdata_to_characters(true)
        .ignore_comments(true)
        .coalesce_characters(true);
    let source: Box<dyn Read + 'a> = Box::new(source);
    XmlSource { parser: xml::reader::EventReader::new_with_config(source, config) }
}

/// Pulls the next event from the parser (`xml::reader::EventReader::next`). What comes back
/// depends on the parser's hidden state and the input it reads, so nothing is stated of it.
#[verifier::external_body]
pub(crate) fn pull_event(source: &mut XmlSource) -> Result<xml::reader::XmlEvent, xml::reader::Error> {
    source.parser.next()
}

/// The message of a parse error (`xml::reader::Error::msg`), as an owned string.
#[verifier::external_body]
pub(crate) fn error_message(error: xml::reader::Error) -> String {
    error.msg().to_string()
}

/// An event as the parser read it, where the name and attributes of a tag are still the
/// parser's values.
pub enum ParsedEvent {
    Start { name: xml::name::OwnedName, attributes: Vec<xml::attribute::OwnedAttribute>, namespace: Vec<(String, String)> },
    End { name: xml::name::OwnedName },
    Other(ReaderEvent),
}

/// Moves the fields of a name read by the parser (`xml::name::OwnedName`) into the library's
/// name type.
#[verifier::external_body]
pub(crate) fn name_from_xml(name: xml::name::OwnedName) -> XmlName {
    XmlName { local_name: name.local_name, namespace: name.namespace, prefix: name.prefix }
}

/// Moves the fields of an attribute read by the parser (`xml::attribute::OwnedAttribute`, and
/// the `xml::name::OwnedName` in it) into the library's attribute type.
#[verifier::external_body]
pub(crate) fn attribute_from_xml(attribute: xml::attribute::OwnedAttribute) -> XmlAttribute {
    let name = attribute.name;
    XmlAttribute {
        name: XmlName { local_name: name.local_name, namespace: name.namespace, prefix: name.prefix },
        value: attribute.value,
    }
}

/// Moves the fields of an event read by the parser (`xml::reader::XmlEvent`) into the
/// library's event type, variant for variant: the declaration's version, encoding and
/// standalone flag are not kept, and the bindings of a start tag (`xml::namespace::Namespace`)
/// become a list of (prefix, URI) pairs in the order of its map.
#[verifier::external_body]
pub(crate) fn event_from_xml(event: xml::reader::XmlEvent) -> ParsedEvent {
    match event {
        X::StartElement { name, attributes, namespace } =>
            ParsedEvent::Start { name, attributes, namespace: namespace.0.into_iter().collect() },
        X::EndElement { name } => ParsedEvent::End { name },
        X::ProcessingInstruction { name, data } => ParsedEvent::Other(ReaderEvent::ProcessingInstruction { name, data }),
        X::CData(s) => ParsedEvent::Other(ReaderEvent::CData(s)),
        X::Comment(s) => ParsedEvent::Other(ReaderEvent::Comment(s)),
        X::Characters(s) => ParsedEvent::Other(ReaderEvent::Characters(s)),
        X::Whitespace(s) => ParsedEvent::Other(ReaderEvent::Whitespace(s)),
        X::StartDocument { .. } => ParsedEvent::Other(ReaderEvent::StartDocument),
        X::EndDocument => ParsedEvent::Other(ReaderEvent::EndDocument),
    }
}

#[verifier::external_type_specification]
#[verifier::external_body]
pub struct ExEmitterError(xml::writer::Error);

#[verifier::external_type_specification]
#[verifier::external_body]
pub struct ExWriterEvent<'a>(xml::writer::XmlEvent<'a>);

/// A writer (`xml::writer::EventWriter::new_with_config`) with the default configuration
/// (`xml::writer::EmitterConfig::new`): a document declaration first, CDATA kept as CDATA.
#[verifier::external_body]
pub(crate) fn document_writer<W: Write>(sink: W) -> xml::writer::EventWriter<W> {
    xml::writer::EventWriter::new_with_config(sink, xml::writer::EmitterConfig::new())
}

/// A writer (`xml::writer::EventWriter::new_with_config`) whose configuration is the default
/// one (`xml::writer::EmitterConfig::new`) without the document declaration.
#[verifier::external_body]
pub(crate) fn fragment_writer<W: Write>(sink: W) -> xml::writer::EventWriter<W> {
    xml::writer::EventWriter::new_with_config(sink, xml::writer::EmitterConfig::new().write_document_declaration(false))
}

#[verifier::external_type_specification]
#[verifier::external_body]
pub struct ExStartElementBuilder<'a>(xml::writer::events::StartElementBuilder<'a>);

/// Starts a start tag named `name`, without attributes or bindings
/// (`xml::writer::XmlEvent::start_element`).
#[verifier::external_body]
pub(crate) fn start_element<'a>(name: &'a str) -> xml::writer::events::StartElementBuilder<'a> {
    xml::writer::XmlEvent::start_element(name)
}

/// Adds the attribute `name="value"` to a start tag (`StartElementBuilder::attr`).
#[verifier::external_body]
pub(crate) fn with_attribute<'a>(
    builder: xml::writer::events::StartElementBuilder<'a>,
    name: &'a str,
    value: &'a str,
) -> xml::writer::events::StartElementBuilder<'a> {
    builder.attr(name, value)
}

/// Adds the binding of `prefix` to `uri` to a start tag (`StartElementBuilder::ns`).
#[verifier::external_body]
pub(crate) fn with_namespace<'a>(
    builder: xml::writer::events::StartElementBuilder<'a>,
    prefix: &'a str,
    uri: &'a str,
) -> xml::writer::events::StartElementBuilder<'a> {
    builder.ns(prefix, uri)
}

/// The writer event of a built start tag (`From<StartElementBuilder> for XmlEvent`).
#[verifier::external_body]
pub(crate) fn start_tag_event<'a>(builder: xml::writer::events::StartElementBuilder<'a>) -> xml::writer::XmlEvent<'a> {
    builder.into()
}

/// Builds the writer event that `event` describes, borrowing its strings (the constructors of
/// `xml::writer::XmlEvent`); a start tag becomes one without attributes or bindings, which
/// `Serializer::write` adds with `with_attribute` and `with_namespace`.
#[verifier::external_body]
pub(crate) fn writer_event_to_xml(event: &WriterEvent) -> xml::writer::XmlEvent<'_> {
    match event {
        WriterEvent::ProcessingInstruction { name, data } => xml::writer::XmlEvent::processing_instruction(name, data.as_deref()),
        WriterEvent::StartElement { name, .. } => xml::writer::XmlEvent::start_element(name.as_str()).into(),
        WriterEvent::EndElement { name: None } => xml::writer::XmlEvent::end_element().into(),
        WriterEvent::EndElement { name: Some(name) } => xml::writer::XmlEvent::end_element().name(name.as_str()).into(),
        WriterEvent::CData(s) => xml::writer::XmlEvent::cdata(s),
        WriterEvent::Comment(s) => xml::writer::XmlEvent::comment(s),
        WriterEvent::Characters(s) => xml::writer::XmlEvent::characters(s),
    }
}

/// Writes one event (`xml::writer::EventWriter::write`). Whether it succeeds depends on the
/// sink and on the writer's hidden state, so nothing is stated of the outcome.
#[verifier::external_body]
pub(crate) fn emit<W: Write>(writer: &mut xml::writer::EventWriter<W>, event: xml::writer::XmlEvent) -> Result<(), xml::writer::Error> {
    writer.write(event)
}

/// The text of a writer's error (`<xml::writer::Error as Display>::fmt`, through
/// `ToString`): `emitter error: ` followed by the error's description, which for an I/O
/// error is the sink's own message; nothing more of the description is stated.
#[verifier::external_body]
pub(crate) fn writer_error_message(error: xml::writer::Error) -> (r: String)
    ensures
        "emitter error: "@.is_prefix_of(r@),
{
    error.to_string()
}

/// Takes the sink back out of a writer (`xml::writer::EventWriter::into_inner`).
#[verifier::external_body]
pub(crate) fn writer_into_inner<W: Write>(writer: xml::writer::EventWriter<W>) -> W {
    writer.into_inner()
}

} // verus!
