//! The XML events that the library reads and writes, and the streaming
//! reader and writer of xml-rs that turn them into and out of bytes.
use vstd::prelude::*;
use vstd::string::*;
use xml::name::Name;
use xml::{EmitterConfig, EventWriter};
use xml::writer::XmlEvent as XmlOut;

verus! {

/// A qualified XML name as a client wrote it.
pub struct QName {
    pub local_name: String,
    pub namespace: Option<String>,
    pub prefix: Option<String>,
}

/// The mathematical value of a `QName`.
pub struct QNameV {
    pub local_name: Seq<char>,
    pub namespace: Option<Seq<char>>,
    pub prefix: Option<Seq<char>>,
}

pub open spec fn opt_view(o: Option<String>) -> Option<Seq<char>> {
    match o {
        Some(s) => Some(s@),
        None => None,
    }
}

impl View for QName {
    type V = QNameV;

    open spec fn view(&self) -> QNameV {
        QNameV {
            local_name: self.local_name@,
            namespace: opt_view(self.namespace),
            prefix: opt_view(self.prefix),
        }
    }
}

impl QName {
    pub fn clone_name(&self) -> (r: QName)
        ensures
            r@ == self@,
    {
        QName {
            local_name: self.local_name.clone(),
            namespace: match &self.namespace {
                Some(s) => Some(s.clone()),
                None => None,
            },
            prefix: match &self.prefix {
                Some(s) => Some(s.clone()),
                None => None,
            },
        }
    }
}

/// One event of a request body, as the parser of xml-rs reports it.
pub enum ReadEvent {
    StartDocument,
    StartElement(QName),
    EndElement,
    /// Any other event, with its description.
    Other(String),
    /// The body is not well-formed XML from here on; the parser's message.
    Malformed(String),
}

/// The mathematical value of a `ReadEvent`.
pub enum ReadEventV {
    StartDocument,
    StartElement(QNameV),
    EndElement,
    Other(Seq<char>),
    Malformed(Seq<char>),
}

impl View for ReadEvent {
    type V = ReadEventV;

    open spec fn view(&self) -> ReadEventV {
        match self {
            ReadEvent::StartDocument => ReadEventV::StartDocument,
            ReadEvent::StartElement(n) => ReadEventV::StartElement(n@),
            ReadEvent::EndElement => ReadEventV::EndElement,
            ReadEvent::Other(d) => ReadEventV::Other(d@),
            ReadEvent::Malformed(m) => ReadEventV::Malformed(m@),
        }
    }
}

impl ReadEvent {
    pub fn clone_event(&self) -> (r: ReadEvent)
        ensures
            r@ == self@,
    {
        match self {
            ReadEvent::StartDocument => ReadEvent::StartDocument,
            ReadEvent::StartElement(n) => ReadEvent::StartElement(n.clone_name()),
            ReadEvent::EndElement => ReadEvent::EndElement,
            ReadEvent::Other(d) => ReadEvent::Other(d.clone()),
            ReadEvent::Malformed(m) => ReadEvent::Malformed(m.clone()),
        }
    }
}

pub open spec fn events_view(v: Seq<ReadEvent>) -> Seq<ReadEventV> {
    v.map_values(|e: ReadEvent| e@)
}

/// A name with a prefix also has a namespace.
pub open spec fn prefix_bound(n: QNameV) -> bool {
    n.prefix is Some ==> n.namespace is Some
}

/// Every element start among `evs` has its prefix, if any, bound.
pub open spec fn events_prefixes_bound(evs: Seq<ReadEventV>) -> bool {
    forall|i: int|
        0 <= i < evs.len() && (#[trigger] evs[i]) is StartElement ==> prefix_bound(
            evs[i]->StartElement_0,
        )
}

/// The events that xml-rs reads from a body, whitespace-only text dropped,
/// up to and including the end of the document or the first error.
pub uninterp spec fn xml_events_of(body: Seq<u8>) -> Seq<ReadEventV>;

/// Relies on xml::reader::EventReader (its `Events` iterator): the events of
/// `body` depend on its bytes alone, and the iterator ends after the end of
/// the document or after the first error. An element whose prefix is unbound,
/// or bound to the empty namespace, is an error, so every prefixed element
/// name that it reports has a namespace.
#[verifier::external_body]
pub(crate) fn read_events(body: &[u8]) -> (r: Vec<ReadEvent>)
    ensures
        events_view(r@) == xml_events_of(body@),
        events_prefixes_bound(events_view(r@)),
{
    let config = xml::ParserConfig::new().trim_whitespace(true);
    xml::reader::EventReader::new_with_config(body, config).into_iter().map(|ev| match ev {
        Ok(xml::reader::XmlEvent::StartDocument { .. }) => ReadEvent::StartDocument,
        Ok(xml::reader::XmlEvent::StartElement { name, .. }) => ReadEvent::StartElement(
            QName { local_name: name.local_name, namespace: name.namespace, prefix: name.prefix },
        ),
        Ok(xml::reader::XmlEvent::EndElement { .. }) => ReadEvent::EndElement,
        Ok(other) => ReadEvent::Other(format!("{:?}", other)),
        Err(e) => ReadEvent::Malformed(e.to_string()),
    }).collect()
}

/// One event of a document that the library writes. The writer opens every
/// document with the declaration of XML 1.0 in UTF-8.
pub enum WEvent {
    /// An element start.
    Start(QName),
    /// An element start that also binds `prefix` to the namespace `uri`.
    StartNs(QName, String, String),
    /// Text content.
    Text(String),
    /// The end of the innermost open element.
    End,
}

/// The mathematical value of a `WEvent`.
pub enum WEventV {
    Start(QNameV),
    StartNs(QNameV, Seq<char>, Seq<char>),
    Text(Seq<char>),
    End,
}

impl View for WEvent {
    type V = WEventV;

    open spec fn view(&self) -> WEventV {
        match self {
            WEvent::Start(n) => WEventV::Start(n@),
            WEvent::StartNs(n, p, u) => WEventV::StartNs(n@, p@, u@),
            WEvent::Text(t) => WEventV::Text(t@),
            WEvent::End => WEventV::End,
        }
    }
}

pub open spec fn wevents_view(v: Seq<WEvent>) -> Seq<WEventV> {
    v.map_values(|e: WEvent| e@)
}

/// Appends one event to `out`.
pub fn put(out: &mut Vec<WEvent>, e: WEvent)
    ensures
        wevents_view(final(out)@) == wevents_view(old(out)@).push(e@),
{
    let ghost before = out@;
    out.push(e);
    assert(wevents_view(out@) =~= wevents_view(before).push(e@));
}

/// The name `D:<local>` of an element that the server writes; `D` is bound
/// to `DAV:` on the document's root.
pub open spec fn dav_name(local: Seq<char>) -> QNameV {
    QNameV { local_name: local, namespace: None, prefix: Some("D"@) }
}

pub fn dav_element(local: &str) -> (r: QName)
    ensures
        r@ == dav_name(local@),
{
    QName { local_name: String::from_str(local), namespace: None, prefix: Some(String::from_str("D")) }
}

/// Appends the start of `D:<local>`.
pub fn put_start(out: &mut Vec<WEvent>, local: &str)
    ensures
        wevents_view(final(out)@) == wevents_view(old(out)@).push(WEventV::Start(dav_name(local@))),
{
    put(out, WEvent::Start(dav_element(local)));
}

/// Appends the text `t`.
pub fn put_text(out: &mut Vec<WEvent>, t: &str)
    ensures
        wevents_view(final(out)@) == wevents_view(old(out)@).push(WEventV::Text(t@)),
{
    put(out, WEvent::Text(String::from_str(t)));
}

/// Appends the end of the innermost open element.
pub fn put_end(out: &mut Vec<WEvent>)
    ensures
        wevents_view(final(out)@) == wevents_view(old(out)@).push(WEventV::End),
{
    put(out, WEvent::End);
}

/// The document that xml-rs writes for `events` on a fresh writer, with
/// indentation where `indent` is set: the bytes, or the message of the first
/// event that the writer refused.
pub uninterp spec fn xml_document_of(events: Seq<WEventV>, indent: bool) -> Result<Seq<u8>, Seq<char>>;

/// Relies on xml::writer::EventWriter (new_with_config, write, into_inner):
/// the output depends on the events and the configuration alone, a refused
/// event comes back as an error, and the document declaration is written
/// before the first event.
#[verifier::external_body]
fn emit_document<'a>(events: &'a Vec<WEvent>, indent: bool) -> (r: Result<Vec<u8>, String>)
    ensures
        match r {
            Ok(b) => xml_document_of(wevents_view(events@), indent) == Ok::<Seq<u8>, Seq<char>>(b@),
            Err(m) => xml_document_of(wevents_view(events@), indent) == Err::<Seq<u8>, Seq<char>>(m@),
        },
{
    let mut w = EventWriter::new_with_config(Vec::new(), EmitterConfig::new().perform_indent(indent));
    let xml_name = |n: &'a QName| Name { local_name: &n.local_name, namespace: n.namespace.as_deref(), prefix: n.prefix.as_deref() };
    for e in events {
        match e {
            WEvent::Start(n) => w.write(XmlOut::start_element(xml_name(n))),
            WEvent::StartNs(n, p, u) => w.write(XmlOut::start_element(xml_name(n)).ns(p.as_str(), u.as_str())),
            WEvent::Text(t) => w.write(XmlOut::characters(t)),
            WEvent::End => w.write(XmlOut::end_element()),
        }.map_err(|err| err.to_string())?;
    }
    Ok(w.into_inner())
}

/// Writes `events` as one document with xml-rs: the bytes, or the writer's
/// message where it refused an event.
pub fn write_document(events: &Vec<WEvent>, indent: bool) -> (r: Result<Vec<u8>, String>)
    ensures
        match r {
            Ok(b) => xml_document_of(wevents_view(events@), indent) == Ok::<Seq<u8>, Seq<char>>(b@),
            Err(m) => xml_document_of(wevents_view(events@), indent) == Err::<Seq<u8>, Seq<char>>(m@),
        },
{
    emit_document(events, indent)
}

} // verus!
