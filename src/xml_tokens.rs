//! The events of an XML document, as plain values, read with xml-rs.

use vstd::prelude::*;
use xml::reader::EventReader;
use xml::reader::XmlEvent::{CData, Characters, EndElement, StartElement};

verus! {

/// A qualified element name: its local part and its namespace URI.
#[derive(Clone, Debug)]
pub struct QName {
    pub local: String,
    pub namespace: Option<String>,
}

/// An attribute of a start tag: its local name and its value.
#[derive(Clone, Debug)]
pub struct Attribute {
    pub name: String,
    pub value: String,
}

/// One event of a streamed XML document.
#[derive(Clone, Debug)]
pub enum XmlToken {
    /// A start tag with its attributes in document order.
    Start { name: QName, attributes: Vec<Attribute> },
    /// An end tag.
    End { name: QName },
    /// Character data, from text or from a CDATA section.
    Text { content: String },
    /// An event that carries nothing read here: declarations, comments,
    /// processing instructions, whitespace between tags, end of document.
    Other,
    /// The point at which the document stops being well-formed; nothing
    /// follows it.
    Malformed,
}

/// The events that xml-rs reads from a document, in order.
pub uninterp spec fn xml_tokens_of(doc: Seq<char>) -> Seq<XmlToken>;

/// Relies on xml-rs's `EventReader` with its default configuration: the
/// events of the document, which depend on its text alone. The reader stops
/// after the first error, which is given here as `Malformed`.
#[verifier::external_body]
pub(crate) fn read_xml_tokens(doc: &str) -> (r: Vec<XmlToken>)
    ensures
        r@ == xml_tokens_of(doc@),
{
    EventReader::new(doc.as_bytes()).into_iter().map(|e| match e {
        Ok(StartElement { name, attributes, .. }) => XmlToken::Start {
            name: QName { local: name.local_name, namespace: name.namespace },
            attributes: attributes.into_iter().map(|a| Attribute { name: a.name.local_name, value: a.value }).collect(),
        },
        Ok(EndElement { name }) => XmlToken::End { name: QName { local: name.local_name, namespace: name.namespace } },
        Ok(Characters(s) | CData(s)) => XmlToken::Text { content: s },
        Ok(_) => XmlToken::Other,
        Err(_) => XmlToken::Malformed,
    }).collect()
}

/// Whether `s` holds exactly the characters of `lit`.
pub fn text_is(s: &String, lit: &str) -> (r: bool)
    ensures
        r == (s@ == lit@),
{
    *s == lit.to_owned()
}

} // verus!
