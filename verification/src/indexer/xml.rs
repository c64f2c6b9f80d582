//! XML events, from the `quick-xml` crate, as plain values.

use crate::text::{opt_view, views};
use quick_xml::events::BytesStart;
use quick_xml::events::Event::{Empty, End, Eof, Start, Text};
use vstd::prelude::*;

verus! {

/// A streaming XML reader.
#[verifier::external_type_specification]
#[verifier::external_body]
#[verifier::reject_recursive_types(R)]
pub struct ExReader<R>(quick_xml::Reader<R>);

/// One attribute of a tag.
pub enum XmlAttr {
    /// The attribute could not be read.
    Broken,
    /// Key and unescaped value; no value where it could not be unescaped.
    Pair { key: String, value: Option<String> },
}

pub enum XmlAttrView {
    Broken,
    Pair { key: Seq<char>, value: Option<Seq<char>> },
}

impl View for XmlAttr {
    type V = XmlAttrView;

    open spec fn view(&self) -> XmlAttrView {
        match self {
            XmlAttr::Broken => XmlAttrView::Broken,
            XmlAttr::Pair { key, value } => XmlAttrView::Pair { key: key@, value: opt_view(*value) },
        }
    }
}

/// An opening or self-closing tag.
pub struct XmlTag {
    pub name: String,
    pub attrs: Vec<XmlAttr>,
}

pub struct XmlTagView {
    pub name: Seq<char>,
    pub attrs: Seq<XmlAttrView>,
}

impl View for XmlTag {
    type V = XmlTagView;

    open spec fn view(&self) -> XmlTagView {
        XmlTagView { name: self.name@, attrs: views(self.attrs@) }
    }
}

/// One step of reading a document.
pub enum XmlEvent {
    Start(XmlTag),
    Empty(XmlTag),
    Text(String),
    End(String),
    /// Comments, declarations, character references and the like.
    Other,
    Eof,
    /// The reader could not go on.
    Failed,
}

pub enum XmlEventView {
    Start(XmlTagView),
    Empty(XmlTagView),
    Text(Seq<char>),
    End(Seq<char>),
    Other,
    Eof,
    Failed,
}

impl View for XmlEvent {
    type V = XmlEventView;

    open spec fn view(&self) -> XmlEventView {
        match self {
            XmlEvent::Start(t) => XmlEventView::Start(t@),
            XmlEvent::Empty(t) => XmlEventView::Empty(t@),
            XmlEvent::Text(s) => XmlEventView::Text(s@),
            XmlEvent::End(s) => XmlEventView::End(s@),
            XmlEvent::Other => XmlEventView::Other,
            XmlEvent::Eof => XmlEventView::Eof,
            XmlEvent::Failed => XmlEventView::Failed,
        }
    }
}

/// Reading stops here.
pub open spec fn is_last(e: XmlEventView) -> bool {
    e is Eof || e is Failed
}

/// A finished reading: it stops at its last event and nowhere before.
pub open spec fn stops_once(events: Seq<XmlEventView>) -> bool {
    &&& events.len() > 0
    &&& is_last(events.last())
    &&& forall|i: int| 0 <= i < events.len() - 1 ==> !is_last(#[trigger] events[i])
}

/// What `quick-xml` reads from a text, leniently (closing tags need not match):
/// every event up to the end of the text or the first failure.
pub uninterp spec fn xml_events(text: Seq<char>) -> Seq<XmlEventView>;

/// The events that a reader has still to give.
pub uninterp spec fn events_left(r: quick_xml::Reader<&[u8]>) -> Seq<XmlEventView>;

/// `Reader::from_str` starts reading a text; with `check_end_names` off a closing
/// tag need not match its opening tag. Every document ends: each event but the
/// last consumes some of the text.
#[verifier::external_body]
pub(crate) fn new_reader<'a>(text: &'a str) -> (r: quick_xml::Reader<&'a [u8]>)
    ensures
        events_left(r) == xml_events(text@),
        stops_once(events_left(r)),
{
    let mut reader = quick_xml::Reader::from_str(text);
    reader.config_mut().check_end_names = false;
    reader
}

/// `Reader::read_event` gives the next event. Of a tag come the name and, in
/// order, the attributes of `BytesStart::attributes`, each with its value as
/// `Attribute::unescape_value` gives it; of a text its content as it stands.
#[allow(deprecated)]
#[verifier::external_body]
pub(crate) fn next_event<'a>(r: &mut quick_xml::Reader<&'a [u8]>) -> (e: XmlEvent)
    requires
        events_left(*old(r)).len() > 0,
    ensures
        e@ == events_left(*old(r))[0],
        events_left(*final(r)) == events_left(*old(r)).drop_first(),
{
    let tag = |t: BytesStart| XmlTag {
        name: t.name().0.to_owned(),
        attrs: t.attributes().map(|a| a.map_or(XmlAttr::Broken, |a| XmlAttr::Pair {
            key: a.key.0.to_owned(), value: a.unescape_value().ok().map(String::from),
        })).collect(),
    };
    r.read_event().map_or(XmlEvent::Failed, |e| match e {
        Start(t) => XmlEvent::Start(tag(t)),
        Empty(t) => XmlEvent::Empty(tag(t)),
        Text(t) => XmlEvent::Text(t.to_string()),
        End(t) => XmlEvent::End(t.name().0.to_owned()),
        Eof => XmlEvent::Eof,
        _ => XmlEvent::Other,
    })
}

} // verus!
