use vstd::prelude::*;

use crate::tree::XmlElem;
use crate::tree::XmlNode;

verus! {

#[verifier::external_type_specification]
#[verifier::external_body]
pub struct ExXmlTreeElement(xmltree::Element);

#[verifier::external_type_specification]
#[verifier::external_body]
pub struct ExXmlTreeNode(xmltree::XMLNode);

/// The outcome of parsing the text: the root element tree when the text
/// is a well-formed document, else the parser's rendered diagnostic. It
/// names what `xmltree::Element::parse` returns, which depends on the
/// text alone.
pub uninterp spec fn parsed(content: Seq<char>) -> Result<XmlElem, Seq<char>>;

/// The outcome of serializing the tree under the given indent unit and
/// line separator: the text written, or nothing when the writer rejects
/// the tree. It names what `xmltree::Element::write_with_config` does,
/// which depends on the tree and those two settings alone.
pub uninterp spec fn rendered(root: XmlElem, indent_unit: Seq<char>, sep: Seq<char>) -> Option<
    Seq<char>,
>;

/// Carries one element of the outside tree over, field for field; the
/// attribute order is the document order (`xmltree`'s `attribute-order`
/// feature keeps it), the namespace mapping comes out sorted by its key.
#[verifier::external_body]
fn elem_of_outside(e: &xmltree::Element) -> XmlElem {
    XmlElem {
        prefix: e.prefix.clone(),
        namespace: e.namespace.clone(),
        namespaces: e.namespaces.as_ref().map(
            |n| n.0.iter().map(|(k, v)| (k.clone(), v.clone())).collect(),
        ),
        name: e.name.clone(),
        attrs: e.attributes.iter().map(|(k, v)| (k.clone(), v.clone())).collect(),
        children: e.children.iter().map(node_of_outside).collect(),
    }
}

/// Carries one node of the outside tree over, one arm per kind, moving
/// the fields only.
#[verifier::external_body]
fn node_of_outside(n: &xmltree::XMLNode) -> XmlNode {
    match n {
        xmltree::XMLNode::Element(e) => XmlNode::Element(elem_of_outside(e)),
        xmltree::XMLNode::Comment(c) => XmlNode::Comment(c.clone()),
        xmltree::XMLNode::CData(c) => XmlNode::CData(c.clone()),
        xmltree::XMLNode::Text(t) => XmlNode::Text(t.clone()),
        xmltree::XMLNode::ProcessingInstruction(a, b) => XmlNode::Instruction(a.clone(), b.clone()),
    }
}

/// Rebuilds one outside element from the library's tree, field for field.
#[verifier::external_body]
fn elem_to_outside(e: &XmlElem) -> xmltree::Element {
    xmltree::Element {
        prefix: e.prefix.clone(),
        namespace: e.namespace.clone(),
        namespaces: e.namespaces.as_ref().map(
            |n| xmltree::Namespace(n.iter().cloned().collect()),
        ),
        name: e.name.clone(),
        attributes: e.attrs.iter().cloned().collect(),
        children: e.children.iter().map(node_to_outside).collect(),
    }
}

/// Rebuilds one outside node from the library's tree, one arm per kind.
#[verifier::external_body]
fn node_to_outside(n: &XmlNode) -> xmltree::XMLNode {
    match n {
        XmlNode::Element(e) => xmltree::XMLNode::Element(elem_to_outside(e)),
        XmlNode::Comment(c) => xmltree::XMLNode::Comment(c.clone()),
        XmlNode::CData(c) => xmltree::XMLNode::CData(c.clone()),
        XmlNode::Text(t) => xmltree::XMLNode::Text(t.clone()),
        XmlNode::Instruction(a, b) => xmltree::XMLNode::ProcessingInstruction(a.clone(), b.clone()),
    }
}

/// Relies on `xmltree::Element::parse`: it reads the document's root
/// element with its namespace data, name, attributes in document order
/// (kept by the `attribute-order` feature) and children in document
/// order, or rejects text that is not a well-formed document with a
/// diagnostic; for one and the same text it always answers the same.
#[verifier::external_body]
pub(crate) fn parse_content(content: &str) -> (r: Result<XmlElem, String>)
    ensures
        match r {
            Ok(t) => parsed(content@) == Ok::<XmlElem, Seq<char>>(t),
            Err(m) => parsed(content@) == Err::<XmlElem, Seq<char>>(m@),
        },
{
    match xmltree::Element::parse(content.as_bytes()) {
        Ok(e) => Ok(elem_of_outside(&e)),
        Err(e) => Err(e.to_string()),
    }
}

/// Relies on `xmltree::Element::write_with_config` with indentation on and
/// the given indent unit and line separator: for one and the same tree and
/// settings it writes one and the same text, or fails the same way (the
/// buffer is in memory, so nothing outside the arguments decides).
#[verifier::external_body]
pub(crate) fn render_tree(root: &XmlElem, indent_unit: &str, sep: &str) -> (r: Result<
    String,
    String,
>)
    ensures
        match r {
            Ok(s) => rendered(*root, indent_unit@, sep@) == Some(s@),
            Err(_) => rendered(*root, indent_unit@, sep@) is None,
        },
{
    let config = xmltree::EmitterConfig::new().perform_indent(true).line_separator(
        sep.to_string(),
    ).indent_string(indent_unit.to_string());
    let mut buf: Vec<u8> = Vec::new();
    match elem_to_outside(root).write_with_config(&mut buf, config) {
        Ok(()) => String::from_utf8(buf).map_err(|e| e.to_string()),
        Err(e) => Err(e.to_string()),
    }
}

} // verus!
