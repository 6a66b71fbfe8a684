//! Reading XML as a list of steps, through the pull parser of `quick_xml`.
//!
//! The parser is trusted; what it delivers for a text is a named list of steps. Everything that the
//! library decides from those steps is verified.
use quick_xml::events::{BytesCData, BytesStart, BytesText, Event};
use quick_xml::reader::Reader;
use vstd::prelude::*;
use crate::text;

verus! {

#[verifier::external_type_specification]
#[verifier::external_body]
#[verifier::reject_recursive_types(R)]
pub struct ExReader<R>(quick_xml::reader::Reader<R>);

#[verifier::external_type_specification]
#[verifier::external_body]
pub struct ExBytesStart<'a>(quick_xml::events::BytesStart<'a>);

#[verifier::external_type_specification]
#[verifier::external_body]
pub struct ExBytesText<'a>(quick_xml::events::BytesText<'a>);

#[verifier::external_type_specification]
#[verifier::external_body]
pub struct ExBytesCData<'a>(quick_xml::events::BytesCData<'a>);

/// A text, or the words of the error that took its place.
pub type TextOrError = Result<Seq<char>, Seq<char>>;

/// One attribute of an element as the parser delivers it.
pub enum AttributeView {
    /// The attribute list is malformed from here on.
    Failed(Seq<char>),
    /// An attribute: its whole name, its name after the first colon, and its value with entities
    /// resolved.
    Read { key: Seq<char>, local: Seq<char>, value: TextOrError },
}

/// The opening tag of an element.
pub struct ElementView {
    /// The whole name.
    pub name: Seq<char>,
    /// The name after its first colon.
    pub local: Seq<char>,
    pub attributes: Seq<AttributeView>,
}

/// What one step of the parser delivers.
pub enum EventView {
    Start(ElementView),
    Empty(ElementView),
    End,
    Text(TextOrError),
    CData(TextOrError),
    Eof,
    Other,
    Failed(Seq<char>),
}

/// One step of the parser, with the byte position after it.
pub struct StepView {
    pub event: EventView,
    pub position: nat,
}

/// Whether a step ends the parse.
pub open spec fn is_last(step: StepView) -> bool {
    step.event is Eof || step.event is Failed
}

/// Whether a list of steps runs to its end and no further.
pub open spec fn runs_to_end(steps: Seq<StepView>) -> bool {
    &&& steps.len() > 0
    &&& is_last(steps.last())
    &&& forall|i: int| 0 <= i < steps.len() - 1 ==> !is_last(#[trigger] steps[i])
}

/// What follows a step that does not end the parse runs to the end too.
pub proof fn rest_runs_to_end(steps: Seq<StepView>)
    requires
        runs_to_end(steps),
        !is_last(steps[0]),
    ensures
        runs_to_end(steps.drop_first()),
{
    let left = steps.drop_first();
    assert(steps.len() > 1);
    assert(left.last() == steps.last());
    assert forall|i: int| 0 <= i < left.len() - 1 implies !is_last(#[trigger] left[i]) by {
        assert(!is_last(steps[i + 1]));
    }
}

// Plain spelling.

/// What a character of content is in XML.
pub open spec fn content_char(c: char, in_attribute: bool) -> Seq<char> {
    if c == '&' {
        "&amp;"@
    } else if c == '<' {
        "&lt;"@
    } else if c == '>' {
        "&gt;"@
    } else if in_attribute && c == '"' {
        "&quot;"@
    } else {
        seq![c]
    }
}

/// Content with the characters of markup replaced.
pub open spec fn content(words: Seq<char>, in_attribute: bool) -> Seq<char> {
    text::rewritten(words, |c: char| content_char(c, in_attribute))
}

/// The attributes of an opening tag.
pub open spec fn attributes_text(attrs: Seq<(Seq<char>, Seq<char>)>, n: nat) -> Seq<char>
    decreases n,
{
    if n == 0 || n > attrs.len() {
        Seq::empty()
    } else {
        attributes_text(attrs, (n - 1) as nat) + " "@ + attrs[n - 1].0 + "=\""@ + content(
            attrs[n - 1].1,
            true,
        ) + "\""@
    }
}

/// Whether a character separates names in a tag or has a meaning there.
pub open spec fn is_tag_mark(c: char) -> bool {
    ||| c == ' ' || c == '\t' || c == '\r' || c == '\n'
    ||| c == '<' || c == '>' || c == '/' || c == '!' || c == '?'
    ||| c == '=' || c == '"' || c == '\'' || c == '&' || c == ':'
}

/// Whether a name can stand in a tag as it is, and has no prefix.
pub open spec fn is_plain_name(name: Seq<char>) -> bool {
    name.len() > 0 && forall|i: int| 0 <= i < name.len() ==> !is_tag_mark(#[trigger] name[i])
}

/// Whether attributes have plain names, and no two of them the same.
pub open spec fn are_plain_attributes(attrs: Seq<(Seq<char>, Seq<char>)>) -> bool {
    &&& forall|i: int| 0 <= i < attrs.len() ==> is_plain_name((#[trigger] attrs[i]).0)
    &&& forall|i: int, j: int|
        0 <= i < j < attrs.len() ==> (#[trigger] attrs[i]).0 != (#[trigger] attrs[j]).0
}

/// An element to be spelled out: its name and attributes, the text at its start, the elements in it,
/// and the text behind it.
pub struct Branch {
    pub name: Seq<char>,
    pub attrs: Seq<(Seq<char>, Seq<char>)>,
    pub lead: Seq<char>,
    pub inner: Seq<Branch>,
    pub tail: Seq<char>,
}

/// The markup of an element: an opening and a closing tag, or one tag for an element that is empty.
pub open spec fn branch_text(b: Branch) -> Seq<char>
    decreases b, 0nat,
{
    let opening = "<"@ + b.name + attributes_text(b.attrs, b.attrs.len());
    (if b.lead.len() == 0 && b.inner.len() == 0 {
        opening + "/>"@
    } else {
        opening + ">"@ + content(b.lead, false) + branches_text(b.inner, b.inner.len()) + "</"@
            + b.name + ">"@
    }) + content(b.tail, false)
}

/// The markup of the first `n` elements of a list.
pub open spec fn branches_text(list: Seq<Branch>, n: nat) -> Seq<char>
    decreases list, n,
{
    if n == 0 || n > list.len() {
        Seq::empty()
    } else {
        branches_text(list, (n - 1) as nat) + branch_text(list[n - 1])
    }
}

/// The tag of an element as the parser delivers it.
pub open spec fn branch_tag(name: Seq<char>, attrs: Seq<(Seq<char>, Seq<char>)>) -> ElementView {
    ElementView {
        name,
        local: name,
        attributes: attrs.map_values(
            |p: (Seq<char>, Seq<char>)|
                AttributeView::Read { key: p.0, local: p.0, value: Ok(p.1) },
        ),
    }
}

/// What the parser delivers for a text; nothing where there is none.
pub open spec fn words_read(words: Seq<char>) -> Seq<EventView> {
    if words.len() == 0 {
        Seq::empty()
    } else {
        seq![EventView::Text(Ok(words))]
    }
}

/// What the parser delivers for an element.
pub open spec fn branch_events(b: Branch) -> Seq<EventView>
    decreases b, 0nat,
{
    (if b.lead.len() == 0 && b.inner.len() == 0 {
        seq![EventView::Empty(branch_tag(b.name, b.attrs))]
    } else {
        seq![EventView::Start(branch_tag(b.name, b.attrs))] + words_read(b.lead) + branches_events(
            b.inner,
            b.inner.len(),
        ) + seq![EventView::End]
    }) + words_read(b.tail)
}

/// What the parser delivers for the first `n` elements of a list.
pub open spec fn branches_events(list: Seq<Branch>, n: nat) -> Seq<EventView>
    decreases list, n,
{
    if n == 0 || n > list.len() {
        Seq::empty()
    } else {
        branches_events(list, (n - 1) as nat) + branch_events(list[n - 1])
    }
}

/// Whether an element and all those in it have plain names and attributes.
pub open spec fn is_plain_branch(b: Branch) -> bool
    decreases b,
{
    &&& is_plain_name(b.name)
    &&& are_plain_attributes(b.attrs)
    &&& forall|i: int| 0 <= i < b.inner.len() ==> is_plain_branch(#[trigger] b.inner[i])
}

/// The text of a document: a declaration on a line of its own, and the root element.
pub open spec fn spelled(root: Branch) -> Seq<char> {
    "<?xml version='1.0' encoding='UTF-8'?>\n"@ + branch_text(root)
}

/// The events of steps.
pub open spec fn events_of(steps: Seq<StepView>) -> Seq<EventView> {
    steps.map_values(|s: StepView| s.event)
}

/// Whether steps deliver what a document spells out: the declaration, the end of its line, the root
/// element and the end.
pub open spec fn reads_as(steps: Seq<StepView>, root: Branch) -> bool {
    &&& steps.len() > 0
    &&& steps.last().event is Eof
    &&& events_of(steps.drop_last()) == seq![EventView::Other, EventView::Text(Ok("\n"@))]
        + branch_events(root)
}

// The parser.

/// The steps that the parser delivers for a text, up to the end or the first error.
pub uninterp spec fn steps_of(source: Seq<char>) -> Seq<StepView>;

/// Whether the steps of a text deliver what it spells out, where it spells out plain elements.
pub open spec fn is_read_as_spelled(source: Seq<char>) -> bool {
    forall|root: Branch|
        is_plain_branch(root) && source == #[trigger] spelled(root) ==> reads_as(
            steps_of(source),
            root,
        )
}

/// The steps that a reader has still to deliver.
pub uninterp spec fn steps_left(reader: quick_xml::reader::Reader<&[u8]>) -> Seq<StepView>;

/// The byte position of a reader.
pub uninterp spec fn position_of(reader: quick_xml::reader::Reader<&[u8]>) -> nat;

/// What an opening tag holds.
pub uninterp spec fn element_of(start: quick_xml::events::BytesStart<'_>) -> ElementView;

/// What a run of text holds, with entities resolved.
pub uninterp spec fn text_held(text: quick_xml::events::BytesText<'_>) -> TextOrError;

/// What a literal section holds.
pub uninterp spec fn cdata_held(text: quick_xml::events::BytesCData<'_>) -> TextOrError;

/// One event, holding the parser's own values.
pub enum XmlEvent<'a> {
    Start(BytesStart<'a>),
    Empty(BytesStart<'a>),
    End,
    Text(BytesText<'a>),
    CData(BytesCData<'a>),
    Eof,
    Other,
}

/// One attribute of an element.
pub enum XmlAttribute {
    Failed(String),
    Read { key: String, local: String, value: Result<String, String> },
}

/// What a text or an error holds.
pub open spec fn text_view(value: Result<String, String>) -> TextOrError {
    match value {
        Ok(text) => Ok(text@),
        Err(message) => Err(message@),
    }
}

impl View for XmlAttribute {
    type V = AttributeView;

    open spec fn view(&self) -> AttributeView {
        match self {
            XmlAttribute::Failed(message) => AttributeView::Failed(message@),
            XmlAttribute::Read { key, local, value } => AttributeView::Read {
                key: key@,
                local: local@,
                value: text_view(*value),
            },
        }
    }
}

/// What a list of attributes holds.
pub open spec fn attribute_views(list: Seq<XmlAttribute>) -> Seq<AttributeView> {
    list.map_values(|a: XmlAttribute| a@)
}

/// Whether the outcome of a read is the event of a step.
pub open spec fn delivers(r: Result<XmlEvent, String>, event: EventView) -> bool {
    match (r, event) {
        (Ok(XmlEvent::Start(e)), EventView::Start(v)) => element_of(e) == v,
        (Ok(XmlEvent::Empty(e)), EventView::Empty(v)) => element_of(e) == v,
        (Ok(XmlEvent::End), EventView::End) => true,
        (Ok(XmlEvent::Text(t)), EventView::Text(v)) => text_held(t) == v,
        (Ok(XmlEvent::CData(t)), EventView::CData(v)) => cdata_held(t) == v,
        (Ok(XmlEvent::Eof), EventView::Eof) => true,
        (Ok(XmlEvent::Other), EventView::Other) => true,
        (Err(message), EventView::Failed(v)) => message@ == v,
        _ => false,
    }
}

/// Calls `quick_xml::reader::Reader::from_str`. The reader will deliver the steps of the text, and
/// those run to the end of the input or to the first error and no further. A document that is spelled
/// out plainly, with the characters of markup replaced by the entities that the parser resolves, is
/// delivered tag by tag and text by text as it was spelled.
#[verifier::external_body]
pub(crate) fn open_reader<'a>(source: &'a str) -> (r: Reader<&'a [u8]>)
    ensures
        steps_left(r) == steps_of(source@),
        runs_to_end(steps_left(r)),
        forall|root: Branch|
            is_plain_branch(root) && source@ == #[trigger] spelled(root) ==> reads_as(
                steps_left(r),
                root,
            ),
{
    Reader::from_str(source)
}

/// Calls `quick_xml::reader::Reader::read_event`, turning the parser's event into one of this
/// module and an error into its words. It delivers the next step and moves past it.
#[verifier::external_body]
pub(crate) fn read_event<'a>(reader: &mut Reader<&'a [u8]>) -> (r: Result<XmlEvent<'a>, String>)
    requires
        steps_left(*old(reader)).len() > 0,
    ensures
        delivers(r, steps_left(*old(reader))[0].event),
        steps_left(*final(reader)) == steps_left(*old(reader)).drop_first(),
        position_of(*final(reader)) == steps_left(*old(reader))[0].position,
{
    match reader.read_event() {
        Ok(Event::Start(e)) => Ok(XmlEvent::Start(e)),
        Ok(Event::Empty(e)) => Ok(XmlEvent::Empty(e)),
        Ok(Event::End(_)) => Ok(XmlEvent::End),
        Ok(Event::Text(t)) => Ok(XmlEvent::Text(t)),
        Ok(Event::CData(t)) => Ok(XmlEvent::CData(t)),
        Ok(Event::Eof) => Ok(XmlEvent::Eof),
        Ok(_) => Ok(XmlEvent::Other),
        Err(e) => Err(e.to_string()),
    }
}

/// Calls `quick_xml::reader::Reader::buffer_position`: the byte position of the reader.
#[verifier::external_body]
pub(crate) fn buffer_position(reader: &Reader<&[u8]>) -> (r: u64)
    ensures
        r as nat == position_of(*reader),
{
    reader.buffer_position()
}

/// Calls `quick_xml::events::BytesStart::name`: the whole name of the tag, as text.
#[verifier::external_body]
pub(crate) fn tag_name(start: &BytesStart<'_>) -> (r: String)
    ensures
        r@ == element_of(*start).name,
{
    String::from_utf8_lossy(start.name().as_ref()).into_owned()
}

/// Calls `quick_xml::events::BytesStart::local_name`: the name of the tag after its first colon, as
/// text.
#[verifier::external_body]
pub(crate) fn tag_local_name(start: &BytesStart<'_>) -> (r: String)
    ensures
        r@ == element_of(*start).local,
{
    String::from_utf8_lossy(start.local_name().as_ref()).into_owned()
}

/// Calls `quick_xml::events::BytesStart::attributes` and converts each attribute to plain texts, its
/// value through `Attribute::unescape_value`.
#[verifier::external_body]
pub(crate) fn tag_attributes(start: &BytesStart<'_>) -> (r: Vec<XmlAttribute>)
    ensures
        attribute_views(r@) == element_of(*start).attributes,
{
    let read = |a: quick_xml::events::attributes::Attribute<'_>| XmlAttribute::Read {
        key: String::from_utf8_lossy(a.key.as_ref()).into_owned(),
        local: String::from_utf8_lossy(a.key.local_name().as_ref()).into_owned(),
        value: a.unescape_value().map(|v| v.into_owned()).map_err(|e| e.to_string()),
    };
    start.attributes().map(|a| a.map_or_else(|e| XmlAttribute::Failed(e.to_string()), read)).collect()
}

/// Calls `quick_xml::events::BytesText::unescape`: the text with entities resolved, or the words of
/// the error.
#[verifier::external_body]
pub(crate) fn unescape(text: &BytesText<'_>) -> (r: Result<String, String>)
    ensures
        text_view(r) == text_held(*text),
{
    text.unescape().map(|t| t.into_owned()).map_err(|e| e.to_string())
}

/// Calls `quick_xml::events::BytesCData::decode`: the literal text, or the words of the error.
#[verifier::external_body]
pub(crate) fn decode(text: &BytesCData<'_>) -> (r: Result<String, String>)
    ensures
        text_view(r) == cdata_held(*text),
{
    text.decode().map(|t| t.into_owned()).map_err(|e| e.to_string())
}

} // verus!
