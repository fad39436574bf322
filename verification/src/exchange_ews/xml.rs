//! XML, as the `quick_xml` crate reads it.

use quick_xml::events::Event;
use vstd::prelude::*;
use vstd::string::*;

verus! {

/// The reader of `quick_xml`, which knows about namespaces.
#[verifier::external_type_specification]
#[verifier::external_body]
#[verifier::reject_recursive_types(R)]
pub struct ExNsReader<R>(quick_xml::NsReader<R>);

/// A piece of a document. Names of elements come without their prefix.
#[derive(Debug)]
pub enum XmlEvent {
    Start(Vec<u8>),
    End(Vec<u8>),
    Text(String),
    CData(Vec<u8>),
    /// What stands between `&` and `;`.
    Reference(Vec<u8>),
    Other,
    Eof,
}

/// The view of an [`XmlEvent`].
pub enum XmlEventView {
    Start(Seq<u8>),
    End(Seq<u8>),
    Text(Seq<char>),
    CData(Seq<u8>),
    Reference(Seq<u8>),
    Other,
    Eof,
}

impl View for XmlEvent {
    type V = XmlEventView;

    open spec fn view(&self) -> XmlEventView {
        match self {
            XmlEvent::Start(n) => XmlEventView::Start(n@),
            XmlEvent::End(n) => XmlEventView::End(n@),
            XmlEvent::Text(t) => XmlEventView::Text(t@),
            XmlEvent::CData(b) => XmlEventView::CData(b@),
            XmlEvent::Reference(b) => XmlEventView::Reference(b@),
            XmlEvent::Other => XmlEventView::Other,
            XmlEvent::Eof => XmlEventView::Eof,
        }
    }
}

/// The pieces that a document has before its end, or before the first place that
/// is not XML, with whitespace around texts left out. The last one is an error
/// where there is such a place.
pub uninterp spec fn xml_events(body: Seq<u8>) -> Seq<Result<XmlEventView, Seq<char>>>;

/// The pieces that a reader has still to give.
pub uninterp spec fn upcoming(r: quick_xml::NsReader<&[u8]>) -> Seq<Result<XmlEventView, Seq<char>>>;

/// How many elements stand open around the place that a reader has reached.
pub uninterp spec fn nesting(r: quick_xml::NsReader<&[u8]>) -> nat;

/// How deep a reader may have come: it counts the open elements in 16 bits.
pub const DEEPEST: u32 = 65535;

/// How many elements stand open behind a piece. An end mark more than there were
/// elements changes nothing.
pub open spec fn nested(depth: nat, e: XmlEventView) -> nat {
    match e {
        XmlEventView::Start(_) => depth + 1,
        XmlEventView::End(_) => if depth > 0 {
            (depth - 1) as nat
        } else {
            0
        },
        _ => depth,
    }
}

/// `quick_xml::NsReader::from_reader`, with `Config::trim_text` set: a reader at
/// the start of a document, where no element is open. What it gives depends on the
/// document alone.
#[verifier::external_body]
pub(crate) fn open_document(body: &[u8]) -> (r: quick_xml::NsReader<&[u8]>)
    ensures
        upcoming(r) == xml_events(body@),
        nesting(r) == 0,
{
    let mut r = quick_xml::NsReader::from_reader(body);
    r.config_mut().trim_text(true);
    r
}

/// `quick_xml::NsReader::read_resolved_event_into`: the next piece. A text that
/// cannot be decoded counts as empty. At the end of the document, and only there,
/// the piece is `Eof`; every other one is taken from those still to come, so that
/// there are fewer afterwards. The reader counts the elements that stand open; it is
/// not asked for more where that count is full.
#[verifier::external_body]
pub(crate) fn next_event(r: &mut quick_xml::NsReader<&[u8]>) -> (e: Result<XmlEvent, String>)
    requires
        nesting(*old(r)) < DEEPEST,
    ensures
        e matches Ok(x) ==> nesting(*final(r)) == nested(nesting(*old(r)), x@),
        match e {
            Ok(XmlEvent::Eof) => upcoming(*old(r)).len() == 0,
            Ok(x) => upcoming(*old(r)).len() > 0 && upcoming(*old(r))[0] == Ok::<XmlEventView, Seq<char>>(x@)
                && upcoming(*final(r)) == upcoming(*old(r)).drop_first(),
            Err(m) => upcoming(*old(r)).len() > 0 && upcoming(*old(r))[0] == Err::<XmlEventView, Seq<char>>(m@),
        },
{
    let mut buf = Vec::new();
    let (_, event) = r.read_resolved_event_into(&mut buf).map_err(|e| e.to_string())?;
    Ok(match event {
        Event::Start(e) => XmlEvent::Start(e.local_name().as_ref().to_vec()),
        Event::End(e) => XmlEvent::End(e.local_name().as_ref().to_vec()),
        Event::Text(t) => XmlEvent::Text(t.decode().map(|c| c.into_owned()).unwrap_or_default()),
        Event::CData(c) => XmlEvent::CData(c.to_vec()),
        Event::GeneralRef(g) => XmlEvent::Reference(g.to_vec()),
        Event::Eof => XmlEvent::Eof,
        _ => XmlEvent::Other,
    })
}

/// `char::from_u32`: the character with a number, where there is one.
#[verifier::external_body]
pub(crate) fn char_with(n: u32) -> (r: Option<char>)
    ensures
        r == if n <= 0xd7ff || 0xe000 <= n <= 0x10ffff {
            Some(n as char)
        } else {
            None
        },
{
    char::from_u32(n)
}

} // verus!
