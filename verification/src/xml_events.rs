//! XML events as plain values, and the boundary to the `xml-rs` reader and
//! writer.
use vstd::prelude::*;
use xml::reader::EventReader;
use xml::reader::XmlEvent::{CData, Characters, Comment, EndDocument, EndElement, StartElement, Whitespace};
use xml::writer::EventWriter;
use xml::writer::XmlEvent as WriteEvent;

verus! {

/// An attribute of an element, by its written name and its value.
pub struct XmlAttribute {
    pub name: String,
    pub value: String,
}

/// One event of an XML document as the reader reports it.  `Other` holds
/// the `Debug` text of an event that nothing here looks into (the start of
/// the document, a processing instruction); `Error` holds the `Display`
/// and the `Debug` text of a reader error.
pub enum XmlItem {
    Start(String, Vec<XmlAttribute>),
    End(String),
    CData(String),
    Characters(String),
    Comment(String),
    Whitespace(String),
    EndDocument,
    Other(String),
    Error(String, String),
}

/// An event handed to the XML writer: an element start with its
/// attributes, an element end, or text.
pub enum OutEvent {
    Start(String, Vec<XmlAttribute>),
    End(String),
    Text(String),
}

pub struct XmlAttributeView {
    pub name: Seq<char>,
    pub value: Seq<char>,
}

pub enum XmlItemView {
    Start(Seq<char>, Seq<XmlAttributeView>),
    End(Seq<char>),
    CData(Seq<char>),
    Characters(Seq<char>),
    Comment(Seq<char>),
    Whitespace(Seq<char>),
    EndDocument,
    Other(Seq<char>),
    Error(Seq<char>, Seq<char>),
}

pub enum OutEventView {
    Start(Seq<char>, Seq<XmlAttributeView>),
    End(Seq<char>),
    Text(Seq<char>),
}

impl View for XmlAttribute {
    type V = XmlAttributeView;

    open spec fn view(&self) -> XmlAttributeView {
        XmlAttributeView { name: self.name@, value: self.value@ }
    }
}

pub open spec fn attributes_view(a: Seq<XmlAttribute>) -> Seq<XmlAttributeView> {
    a.map_values(|x: XmlAttribute| x@)
}

impl View for XmlItem {
    type V = XmlItemView;

    open spec fn view(&self) -> XmlItemView {
        match self {
            XmlItem::Start(n, a) => XmlItemView::Start(n@, attributes_view(a@)),
            XmlItem::End(n) => XmlItemView::End(n@),
            XmlItem::CData(d) => XmlItemView::CData(d@),
            XmlItem::Characters(d) => XmlItemView::Characters(d@),
            XmlItem::Comment(d) => XmlItemView::Comment(d@),
            XmlItem::Whitespace(d) => XmlItemView::Whitespace(d@),
            XmlItem::EndDocument => XmlItemView::EndDocument,
            XmlItem::Other(d) => XmlItemView::Other(d@),
            XmlItem::Error(m, d) => XmlItemView::Error(m@, d@),
        }
    }
}

impl View for OutEvent {
    type V = OutEventView;

    open spec fn view(&self) -> OutEventView {
        match self {
            OutEvent::Start(n, a) => OutEventView::Start(n@, attributes_view(a@)),
            OutEvent::End(n) => OutEventView::End(n@),
            OutEvent::Text(t) => OutEventView::Text(t@),
        }
    }
}

/// The reader stops at the end of the document and at an error: it reports
/// either of them again on every later read.
pub open spec fn is_terminal(i: XmlItemView) -> bool {
    i is EndDocument || i is Error
}

/// A list of events that ends with its only terminal event.
pub open spec fn ends_with_terminal(s: Seq<XmlItemView>) -> bool {
    &&& s.len() > 0
    &&& is_terminal(s.last())
    &&& forall|i: int| 0 <= i < s.len() - 1 ==> !is_terminal(#[trigger] s[i])
}

/// An `xml-rs` reader over a borrowed text.  Verus refuses to declare
/// `EventReader` itself (its `Read` bound), so it is held here, out of
/// Verus's sight.
#[verifier::external_body]
pub struct XmlReader<'a> {
    reader: EventReader<&'a [u8]>,
}

#[verifier::external_type_specification]
#[verifier::external_body]
#[verifier::reject_recursive_types(W)]
pub struct ExEventWriter<W>(EventWriter<W>);

/// The events that `xml-rs` reads from a text, up to and including the end
/// of the document or the first error.
pub uninterp spec fn xml_document_events(text: Seq<char>) -> Seq<XmlItemView>;

/// The events a reader has still to report; the last is repeated forever.
pub uninterp spec fn xml_reader_pending(r: XmlReader) -> Seq<XmlItemView>;

/// The events handed to a writer so far.
pub uninterp spec fn xml_writer_log(w: EventWriter<Vec<u8>>) -> Seq<OutEventView>;

/// The bytes that an `xml-rs` writer over an empty buffer holds after the
/// events were handed to it in turn, each write's outcome ignored (a write
/// the writer refuses adds what the writer adds for it, if anything).
pub uninterp spec fn xml_emitted(events: Seq<OutEventView>) -> Seq<u8>;

/// `xml::EventReader::from_str`: a reader over the text.  Claimed: the
/// reader will report the events `xml_document_events(text)`, which end with
/// the document's end or an error and hold no earlier one (the crate
/// documents that such an event is reported again on every later read).
#[verifier::external_body]
pub(crate) fn xml_reader_open<'a>(text: &'a str) -> (r: XmlReader<'a>)
    ensures
        xml_reader_pending(r) == xml_document_events(text@),
        ends_with_terminal(xml_reader_pending(r)),
{
    XmlReader { reader: EventReader::from_str(text) }
}

/// `xml::EventReader::next`, with the event turned into an `XmlItem`
/// (names by their `Display` text).  Claimed: it reports the first pending
/// event and drops it, unless it is the last one, which stays.
#[verifier::external_body]
pub(crate) fn xml_reader_next(r: &mut XmlReader) -> (item: XmlItem)
    requires
        xml_reader_pending(*old(r)).len() > 0,
    ensures
        item@ == xml_reader_pending(*old(r))[0],
        xml_reader_pending(*final(r)) == if xml_reader_pending(*old(r)).len() > 1 {
            xml_reader_pending(*old(r)).drop_first()
        } else {
            xml_reader_pending(*old(r))
        },
{
    match r.reader.next() {
        Ok(StartElement { name, attributes, .. }) => XmlItem::Start(name.to_string(),
            attributes.into_iter().map(|a| XmlAttribute { name: a.name.to_string(), value: a.value }).collect()),
        Ok(EndElement { name }) => XmlItem::End(name.to_string()),
        Ok(CData(d)) => XmlItem::CData(d),
        Ok(Characters(d)) => XmlItem::Characters(d),
        Ok(Comment(d)) => XmlItem::Comment(d),
        Ok(Whitespace(d)) => XmlItem::Whitespace(d),
        Ok(EndDocument) => XmlItem::EndDocument,
        Ok(other) => XmlItem::Other(format!("{other:?}")),
        Err(e) => XmlItem::Error(e.to_string(), format!("{e:?}")),
    }
}

/// `xml::EventWriter::new` over an empty `Vec<u8>`.  Claimed: nothing has
/// been written yet.
#[verifier::external_body]
pub(crate) fn xml_writer_open() -> (w: EventWriter<Vec<u8>>)
    ensures
        xml_writer_log(w) == Seq::<OutEventView>::empty(),
{
    EventWriter::new(Vec::new())
}

/// `xml::EventWriter::write` of one event, its outcome not looked at.
/// Claimed: the event is appended to what was handed to the writer, whether
/// the write succeeded or not.
#[verifier::external_body]
pub(crate) fn xml_writer_write(w: &mut EventWriter<Vec<u8>>, ev: &OutEvent)
    ensures
        xml_writer_log(*final(w)) == xml_writer_log(*old(w)).push(ev@),
{
    let _ = match ev {
        OutEvent::Start(n, a) => w.write(a.iter().fold(WriteEvent::start_element(n.as_str()),
            |b, x| b.attr(x.name.as_str(), x.value.as_str()))),
        OutEvent::End(n) => w.write(WriteEvent::end_element().name(n.as_str())),
        OutEvent::Text(t) => w.write(WriteEvent::characters(t.as_str())),
    };
}

/// `xml::EventWriter::into_inner`.  Claimed: the bytes are what `xml-rs`
/// writes for the events handed to the writer.
#[verifier::external_body]
pub(crate) fn xml_writer_bytes(w: EventWriter<Vec<u8>>) -> (r: Vec<u8>)
    ensures
        r@ == xml_emitted(xml_writer_log(w)),
{
    w.into_inner()
}

/// A text read as an XML document: the events up to and including the end
/// of the document or the first error.
pub fn read_xml_document(text: &str) -> (items: Vec<XmlItem>)
    ensures
        items@.map_values(|x: XmlItem| x@) == xml_document_events(text@),
{
    let mut r = xml_reader_open(text);
    let ghost all = xml_reader_pending(r);
    let mut items: Vec<XmlItem> = Vec::new();
    loop
        invariant
            all == xml_document_events(text@),
            ends_with_terminal(all),
            ends_with_terminal(xml_reader_pending(r)),
            items@.len() + xml_reader_pending(r).len() == all.len(),
            xml_reader_pending(r) == all.skip(items@.len() as int),
            forall|k: int| 0 <= k < items@.len() ==> (#[trigger] items@[k])@ == all[k],
        decreases xml_reader_pending(r).len(),
    {
        let ghost before = xml_reader_pending(r);
        let item = xml_reader_next(&mut r);
        let terminal = match &item {
            XmlItem::EndDocument => true,
            XmlItem::Error(_, _) => true,
            _ => false,
        };
        proof {
            if before.len() > 1 {
                assert(!is_terminal(before[0])) by {
                    assert(before[0] == all[items@.len() as int]);
                }
            }
        }
        items.push(item);
        if terminal {
            proof {
                assert(before.len() == 1);
                assert(items@.map_values(|x: XmlItem| x@) =~= all);
            }
            return items;
        }
        proof {
            assert(xml_reader_pending(r) =~= all.skip(items@.len() as int));
        }
    }
}

} // verus!
