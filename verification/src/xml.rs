//! The vector data model: a rooted tree of elements, each with a tag name,
//! an attribute list with unique keys and an ordered list of child nodes.
//! The `xmltree` crate parses bytes into its own document type and writes it
//! back; the tree is rebuilt in the library's model at that boundary, and
//! every rewrite in between is verified.

use vstd::prelude::*;

verus! {

use crate::error::EngineError;

#[verifier::external_type_specification]
#[verifier::external_body]
pub struct ExElement(xmltree::Element);

#[verifier::external_type_specification]
#[verifier::external_body]
pub struct ExXMLNode(xmltree::XMLNode);

/// One node of a vector document.
#[derive(Debug)]
pub enum XmlNode {
    Element(XmlElement),
    Comment(String),
    CData(String),
    Text(String),
    ProcessingInstruction(String, Option<String>),
}

/// One element of a vector document: a tag name, attributes with unique
/// keys, ordered children, and the namespace bookkeeping the serializer
/// needs to round-trip a document.
#[derive(Debug)]
pub struct XmlElement {
    pub prefix: Option<String>,
    pub namespace: Option<String>,
    pub namespaces: Vec<(String, String)>,
    pub name: String,
    pub attributes: Vec<(String, String)>,
    pub children: Vec<XmlNode>,
}

/// Relies on moving the public fields of xmltree::XMLNode, one variant
/// each: rebuilds a node in the library's model.
#[verifier::external_body]
fn node_from_tree(n: xmltree::XMLNode) -> XmlNode {
    match n {
        xmltree::XMLNode::Element(e) => XmlNode::Element(elem_from_tree(e)),
        xmltree::XMLNode::Comment(s) => XmlNode::Comment(s),
        xmltree::XMLNode::CData(s) => XmlNode::CData(s),
        xmltree::XMLNode::Text(s) => XmlNode::Text(s),
        xmltree::XMLNode::ProcessingInstruction(t, d) => XmlNode::ProcessingInstruction(t, d),
    }
}

/// Relies on moving the public fields of xmltree::Element: rebuilds an
/// element and its subtree in the library's model.
#[verifier::external_body]
fn elem_from_tree(e: xmltree::Element) -> XmlElement {
    XmlElement {
        prefix: e.prefix,
        namespace: e.namespace,
        namespaces: match e.namespaces {
            Some(ns) => ns.0.into_iter().collect(),
            None => Vec::new(),
        },
        name: e.name,
        attributes: e.attributes.into_iter().collect(),
        children: e.children.into_iter().map(node_from_tree).collect(),
    }
}

/// Relies on moving the library model's fields back into xmltree::XMLNode,
/// one variant each.
#[verifier::external_body]
fn node_to_tree(n: XmlNode) -> xmltree::XMLNode {
    match n {
        XmlNode::Element(e) => xmltree::XMLNode::Element(elem_to_tree(e)),
        XmlNode::Comment(s) => xmltree::XMLNode::Comment(s),
        XmlNode::CData(s) => xmltree::XMLNode::CData(s),
        XmlNode::Text(s) => xmltree::XMLNode::Text(s),
        XmlNode::ProcessingInstruction(t, d) => xmltree::XMLNode::ProcessingInstruction(t, d),
    }
}

/// Relies on moving the library model's fields back into xmltree::Element.
#[verifier::external_body]
fn elem_to_tree(e: XmlElement) -> xmltree::Element {
    xmltree::Element {
        prefix: e.prefix,
        namespace: e.namespace,
        namespaces: if e.namespaces.is_empty() {
            None
        } else {
            Some(xmltree::Namespace(e.namespaces.into_iter().collect()))
        },
        name: e.name,
        attributes: e.attributes.into_iter().collect(),
        children: e.children.into_iter().map(node_to_tree).collect(),
    }
}

/// Whether the bytes parse as a well-formed XML document.  Parse success
/// depends on the bytes alone; the tree that comes back does not (its
/// attribute order follows a per-process hash seed), so only success is
/// named and no claim ties the tree to the bytes.
pub uninterp spec fn parses_ok(b: Seq<u8>) -> bool;

/// Relies on xmltree::Element::parse: reads one XML document from the bytes
/// and yields its root element, succeeding exactly on well-formed documents.
/// Which tree comes back is stated nowhere: every function that rewrites
/// the tree takes it as an argument and is verified for all trees.
#[verifier::external_body]
pub(crate) fn parse_xml(bytes: &[u8]) -> (r: Result<XmlElement, EngineError>)
    ensures
        r is Ok <==> parses_ok(bytes@),
        r matches Err(e) ==> e == EngineError::MalformedDocument,
{
    match xmltree::Element::parse(bytes) {
        Ok(e) => Ok(elem_from_tree(e)),
        Err(_) => Err(EngineError::MalformedDocument),
    }
}

/// Relies on xmltree::Element::write: serializes the element as an XML
/// document, the XML declaration first, or fails when the writer rejects
/// the tree.
#[verifier::external_body]
pub(crate) fn write_xml(e: XmlElement) -> (r: Result<Vec<u8>, EngineError>)
    ensures
        r matches Err(err) ==> err == EngineError::SerializationFailure,
{
    let mut out: Vec<u8> = Vec::new();
    match elem_to_tree(e).write(&mut out) {
        Ok(()) => Ok(out),
        Err(_) => Err(EngineError::SerializationFailure),
    }
}

} // verus!
