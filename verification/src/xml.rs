//! Structural XML events: what the tokenizer hands to the parsers. Names are
//! already stripped to their local part; attribute values are unescaped.
//! The tokenizer itself is quick_xml, behind trusted wrappers; everything
//! that reads the events is verified.

use vstd::prelude::*;

verus! {

/// One attribute of a tag: local name and unescaped value.
#[derive(Debug, Clone)]
pub struct XmlAttr {
    pub name: String,
    pub value: String,
}

/// Mathematical view of an [`XmlAttr`].
pub struct XmlAttrV {
    pub name: Seq<char>,
    pub value: Seq<char>,
}

impl View for XmlAttr {
    type V = XmlAttrV;

    open spec fn view(&self) -> XmlAttrV {
        XmlAttrV { name: self.name@, value: self.value@ }
    }
}

impl DeepView for XmlAttr {
    type V = XmlAttrV;

    open spec fn deep_view(&self) -> XmlAttrV {
        self.view()
    }
}

/// A structural XML event.
#[derive(Debug, Clone)]
pub enum XmlEvent {
    /// Start tag `<tag attr="value">`.
    Start { name: String, attrs: Vec<XmlAttr> },
    /// Empty element tag `<tag attr="value"/>`.
    Empty { name: String, attrs: Vec<XmlAttr> },
    /// End tag `</tag>`.
    End { name: String },
    /// Character data between tags, unescaped.
    Text { text: String },
    /// Anything else: comments, declarations, processing instructions.
    Other,
}

/// Mathematical view of an [`XmlEvent`].
pub enum XmlEventV {
    Start { name: Seq<char>, attrs: Seq<XmlAttrV> },
    Empty { name: Seq<char>, attrs: Seq<XmlAttrV> },
    End { name: Seq<char> },
    Text { text: Seq<char> },
    Other,
}

impl View for XmlEvent {
    type V = XmlEventV;

    open spec fn view(&self) -> XmlEventV {
        match self {
            XmlEvent::Start { name, attrs } => XmlEventV::Start {
                name: name@,
                attrs: attrs.deep_view(),
            },
            XmlEvent::Empty { name, attrs } => XmlEventV::Empty {
                name: name@,
                attrs: attrs.deep_view(),
            },
            XmlEvent::End { name } => XmlEventV::End { name: name@ },
            XmlEvent::Text { text } => XmlEventV::Text { text: text@ },
            XmlEvent::Other => XmlEventV::Other,
        }
    }
}

impl DeepView for XmlEvent {
    type V = XmlEventV;

    open spec fn deep_view(&self) -> XmlEventV {
        self.view()
    }
}

/// The underlying token stream was malformed: fatal to the whole run.
#[derive(Debug, Clone, Copy, PartialEq, Eq, Structural)]
pub struct StreamError;

/// What the tokenizer yields on a document text, when the text is well
/// formed: the sequence of structural events. The events are a function of
/// the text alone.
pub uninterp spec fn spec_tokens(text: Seq<char>) -> Option<Seq<XmlEventV>>;

#[verifier::external_type_specification]
#[verifier::external_body]
pub struct ExBytesStart<'a>(quick_xml::events::BytesStart<'a>);

#[verifier::external_type_specification]
#[verifier::external_body]
pub struct ExBytesEnd<'a>(quick_xml::events::BytesEnd<'a>);

#[verifier::external_type_specification]
#[verifier::external_body]
pub struct ExBytesText<'a>(quick_xml::events::BytesText<'a>);

#[verifier::external_type_specification]
#[verifier::external_body]
pub struct ExEvent<'a>(quick_xml::events::Event<'a>);

/// Relies on quick_xml's `BytesStart::local_name`: the tag name with any
/// namespace prefix removed.
#[verifier::external_body]
fn start_local_name(e: &quick_xml::events::BytesStart) -> String {
    e.local_name().as_ref().to_string()
}

/// Relies on quick_xml's `BytesStart::attributes` and
/// `Attribute::normalized_value`: the attribute list of a tag, keys stripped
/// to their local part, values unescaped and normalized (a value that cannot
/// be unescaped stands in raw; a malformed attribute is dropped).
#[verifier::external_body]
fn start_attrs(e: &quick_xml::events::BytesStart) -> Vec<XmlAttr> {
    e.attributes().filter_map(|a| a.ok()).map(
        |a| XmlAttr {
            name: a.key.local_name().as_ref().to_string(),
            value: match a.normalized_value(quick_xml::XmlVersion::Implicit1_0) {
                Ok(v) => v.into_owned(),
                Err(_) => a.value.as_ref().to_string(),
            },
        },
    ).collect()
}

/// Relies on quick_xml's `BytesEnd::local_name`: the closing tag name with
/// any namespace prefix removed.
#[verifier::external_body]
fn end_local_name(e: &quick_xml::events::BytesEnd) -> String {
    e.local_name().as_ref().to_string()
}

/// Relies on quick_xml's `BytesText::xml10_content`: the unescaped character
/// data of a text event.
#[verifier::external_body]
fn text_content(e: &quick_xml::events::BytesText) -> String {
    e.xml10_content().into_owned()
}

/// Relies on quick_xml's `Event`: one tokenizer event converted to the
/// library's form, variant by variant; what the library does not read
/// becomes `Other`.
#[verifier::external_body]
fn convert_event(e: quick_xml::events::Event) -> XmlEvent {
    match e {
        quick_xml::events::Event::Start(t) => XmlEvent::Start {
            name: start_local_name(&t),
            attrs: start_attrs(&t),
        },
        quick_xml::events::Event::Empty(t) => XmlEvent::Empty {
            name: start_local_name(&t),
            attrs: start_attrs(&t),
        },
        quick_xml::events::Event::End(t) => XmlEvent::End { name: end_local_name(&t) },
        quick_xml::events::Event::Text(t) => XmlEvent::Text { text: text_content(&t) },
        _ => XmlEvent::Other,
    }
}

/// Relies on quick_xml's `Reader::from_str` and `Reader::read_event`:
/// tokenizes a document into structural events, which are a function of the
/// text alone (`spec_tokens`); a malformed stream yields the error instead.
#[verifier::external_body]
pub fn tokenize(text: &str) -> (r: Result<Vec<XmlEvent>, StreamError>)
    ensures
        r is Ok <==> spec_tokens(text@) is Some,
        r is Ok ==> r->Ok_0.deep_view() == spec_tokens(text@)->0,
{
    let mut rd = quick_xml::Reader::from_str(text);
    let mut out: Vec<XmlEvent> = Vec::new();
    loop {
        match rd.read_event() {
            Err(_) => return Err(StreamError),
            Ok(quick_xml::events::Event::Eof) => return Ok(out),
            Ok(ev) => out.push(convert_event(ev)),
        }
    }
}

} // verus!
