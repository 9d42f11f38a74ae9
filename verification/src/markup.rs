//! The markup of a page as a stream of events, read and written with
//! `quick_xml`.
//!
//! An event holds as plain values what the rewriting reads: the name and the
//! attributes of a tag, and the text the event is written back as.

use vstd::prelude::*;
use quick_xml::events::attributes::Attribute;
use quick_xml::events::{BytesStart, Event};
use quick_xml::name::QName;
use quick_xml::{Reader, Writer};
use std::borrow::Cow;

verus! {

/// One attribute of a start tag: its key and its raw value.
#[derive(Debug, Clone, PartialEq, Eq)]
pub struct Attr {
    /// The key, as written in the page.
    pub key: String,
    /// The value between the quotes, as written in the page.
    pub value: String,
}

impl View for Attr {
    type V = (Seq<char>, Seq<char>);

    open spec fn view(&self) -> (Seq<char>, Seq<char>) {
        (self.key@, self.value@)
    }
}

/// The attributes in `attrs`, as pairs of character sequences.
pub open spec fn attr_views(attrs: Seq<Attr>) -> Seq<(Seq<char>, Seq<char>)> {
    attrs.map_values(|a: Attr| a@)
}

/// One event of the markup stream.
#[derive(Debug, Clone, PartialEq, Eq)]
pub enum HtmlEvent {
    /// A start tag.
    Start {
        /// Name of the element.
        name: String,
        /// Its attributes, in order.
        attrs: Vec<Attr>,
        /// The tag as it is written back unchanged.
        raw: String,
    },
    /// An end tag.
    End {
        /// Name of the element.
        name: String,
        /// The tag as it is written back unchanged.
        raw: String,
    },
    /// Anything else: text, comments, empty elements, declarations.
    Other {
        /// The event as it is written back unchanged.
        raw: String,
    },
    /// The end of the input.
    Eof,
    /// The input could not be parsed further.
    Malformed,
}

/// The mathematical value of an event.
pub enum EventModel {
    /// A start tag.
    Start { name: Seq<char>, attrs: Seq<(Seq<char>, Seq<char>)>, raw: Seq<char> },
    /// An end tag.
    End { name: Seq<char>, raw: Seq<char> },
    /// Anything else.
    Other { raw: Seq<char> },
    /// The end of the input.
    Eof,
    /// The input could not be parsed further.
    Malformed,
}

impl View for HtmlEvent {
    type V = EventModel;

    open spec fn view(&self) -> EventModel {
        match self {
            HtmlEvent::Start { name, attrs, raw } => EventModel::Start {
                name: name@,
                attrs: attr_views(attrs@),
                raw: raw@,
            },
            HtmlEvent::End { name, raw } => EventModel::End { name: name@, raw: raw@ },
            HtmlEvent::Other { raw } => EventModel::Other { raw: raw@ },
            HtmlEvent::Eof => EventModel::Eof,
            HtmlEvent::Malformed => EventModel::Malformed,
        }
    }
}

/// The events in `events`, as mathematical values.
pub open spec fn event_views(events: Seq<HtmlEvent>) -> Seq<EventModel> {
    events.map_values(|e: HtmlEvent| e@)
}

/// An event after which the stream holds nothing more.
pub open spec fn is_terminal(e: EventModel) -> bool {
    e is Eof || e is Malformed
}

/// A stream ends with its only terminal event.
pub open spec fn well_terminated(events: Seq<EventModel>) -> bool {
    &&& events.len() > 0
    &&& is_terminal(events.last())
    &&& forall|i: int| 0 <= i < events.len() - 1 ==> !is_terminal(#[trigger] events[i])
}

/// The text written for a list of attributes: for each a space, the key,
/// `="`, the value and `"`.
pub open spec fn attrs_markup(attrs: Seq<(Seq<char>, Seq<char>)>) -> Seq<char>
    decreases attrs.len(),
{
    if attrs.len() == 0 {
        Seq::<char>::empty()
    } else {
        attrs_markup(attrs.drop_last()) + seq![' '] + attrs.last().0 + seq!['=', '"']
            + attrs.last().1 + seq!['"']
    }
}

/// The text written for a start tag with the given name and attributes.
pub open spec fn start_markup(name: Seq<char>, attrs: Seq<(Seq<char>, Seq<char>)>) -> Seq<char> {
    seq!['<'] + name + attrs_markup(attrs) + seq!['>']
}

/// What a character of text content is written as.
pub open spec fn text_entity(c: char) -> Seq<char> {
    if c == '<' {
        seq!['&', 'l', 't', ';']
    } else if c == '>' {
        seq!['&', 'g', 't', ';']
    } else if c == '&' {
        seq!['&', 'a', 'm', 'p', ';']
    } else if c == '\'' {
        seq!['&', 'a', 'p', 'o', 's', ';']
    } else if c == '"' {
        seq!['&', 'q', 'u', 'o', 't', ';']
    } else if c == '\r' {
        seq!['&', '#', '1', '3', ';']
    } else {
        seq![c]
    }
}

/// What a character of an attribute value is written as.
pub open spec fn attribute_entity(c: char) -> Seq<char> {
    if c == '\n' {
        seq!['&', '#', '1', '0', ';']
    } else if c == '\t' {
        seq!['&', '#', '9', ';']
    } else {
        text_entity(c)
    }
}

/// Text content with its special characters escaped.
pub open spec fn escaped_text(s: Seq<char>) -> Seq<char> {
    s.map_values(|c: char| text_entity(c)).flatten()
}

/// An attribute value with its special characters escaped.
pub open spec fn escaped_attribute(s: Seq<char>) -> Seq<char> {
    s.map_values(|c: char| attribute_entity(c)).flatten()
}

/// The events that `quick_xml` reads from a page, up to and including the
/// end of the input or the first error.
pub uninterp spec fn parsed_events(content: Seq<u8>) -> Seq<EventModel>;

/// The events a reader has yet to hand out.
pub uninterp spec fn pending(reader: &quick_xml::Reader<&[u8]>) -> Seq<EventModel>;

#[verifier::external_type_specification]
#[verifier::external_body]
#[verifier::reject_recursive_types(R)]
pub struct ExReader<R>(quick_xml::Reader<R>);

/// Opens a reader on a page, with text kept untrimmed and no well-formedness
/// checks.
///
/// Trusted: `quick_xml::Reader::from_reader` with that configuration hands
/// out a sequence of events that depends on the bytes alone, named
/// [`parsed_events`]; the sequence is cut after the end of the input or the
/// first error, whichever comes first, so that it ends with its only terminal
/// event.
#[verifier::external_body]
pub(crate) fn open_reader<'a>(content: &'a [u8]) -> (reader: Reader<&'a [u8]>)
    ensures
        pending(&reader) == parsed_events(content@),
        well_terminated(pending(&reader)),
{
    let mut reader = Reader::from_reader(content);
    reader.config_mut().trim_text(false);
    reader.config_mut().enable_all_checks(false);
    reader
}

/// Takes the next event from a reader.
///
/// Trusted: `Reader::read_event` hands out the first pending
/// event and leaves the others pending. A start or end tag comes with its
/// name, a start tag with those of its attributes that parse, and every
/// event with the text `Writer::write_event` writes for it.
#[verifier::external_body]
pub(crate) fn next_event(reader: &mut Reader<&[u8]>) -> (event: HtmlEvent)
    requires
        pending(old(reader)).len() > 0,
    ensures
        event@ == pending(old(reader))[0],
        pending(final(reader)) == pending(old(reader)).drop_first(),
{
    let Ok(event) = reader.read_event() else { return HtmlEvent::Malformed };
    let mut writer = Writer::new(Vec::new());
    writer.write_event(event.borrow()).ok();
    let raw = String::from_utf8(writer.into_inner()).unwrap_or_default();
    match event {
        Event::Start(e) => HtmlEvent::Start {
            name: e.name().0.to_owned(),
            attrs: e.attributes().flatten().map(|a| Attr { key: a.key.0.to_owned(), value: a.value.into_owned() }).collect(),
            raw,
        },
        Event::End(e) => HtmlEvent::End { name: e.name().0.to_owned(), raw },
        Event::Eof => HtmlEvent::Eof,
        _ => HtmlEvent::Other { raw },
    }
}

/// Writes a start tag with the given name and attributes.
///
/// Trusted: `Writer::write_event` writes a start tag built by
/// `BytesStart::new` and `with_attributes` as `<`, the name, for each
/// attribute a space, the key, `="`, the value as given and `"`, and `>`.
#[verifier::external_body]
pub(crate) fn render_start(name: &str, attrs: &Vec<Attr>) -> (out: String)
    ensures
        out@ == start_markup(name@, attr_views(attrs@)),
{
    let pairs = attrs.iter().map(|a| Attribute {
        key: QName(a.key.as_str()),
        value: Cow::Borrowed(a.value.as_str()),
    });
    let tag = BytesStart::new(name).with_attributes(pairs);
    let mut writer = Writer::new(Vec::new());
    writer.write_event(Event::Start(tag)).ok();
    String::from_utf8(writer.into_inner()).unwrap_or_default()
}

/// Escapes text content.
///
/// Trusted: `quick_xml::escape::escape` replaces `<`, `>`, `&`, `'`, `"` and
/// the carriage return by their entities and keeps every other character.
#[verifier::external_body]
pub(crate) fn escape_text(text: &str) -> (out: String)
    ensures
        out@ == escaped_text(text@),
{
    quick_xml::escape::escape(text).into_owned()
}

/// Escapes an attribute value.
///
/// Trusted: an `Attribute` made from a pair of strings holds the value with
/// `<`, `>`, `&`, `'`, `"`, the carriage return, the line feed and the tab
/// replaced by their entities and every other character kept.
#[verifier::external_body]
pub(crate) fn escape_attribute_value(value: &str) -> (out: String)
    ensures
        out@ == escaped_attribute(value@),
{
    Attribute::from(("", value)).value.into_owned()
}

} // verus!
