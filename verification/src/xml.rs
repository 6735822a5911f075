//! A parsed XML document as plain values, and the queries that the catalog
//! readers make on it.

use vstd::prelude::*;
use crate::text::{opt_view, trim, trim_exec, chars_of, string_of, str_eq};

verus! {

/// A node among an element's children.
#[derive(Debug)]
pub enum XmlNode {
    Element(XmlElement),
    Text(String),
    CData(String),
    /// A comment or processing instruction.
    Other,
}

/// An element: its local name, its attributes (by local name, in name
/// order) and its children in document order.
#[derive(Debug)]
pub struct XmlElement {
    pub name: String,
    pub attributes: Vec<(String, String)>,
    pub children: Vec<XmlNode>,
}

#[verifier::external_type_specification]
#[verifier::external_body]
pub struct ExXmlTreeElement(xmltree::Element);

/// The document that `xmltree::Element::parse` reads from some bytes, as a
/// tree of plain values (`None` when the bytes are not well-formed XML).
pub uninterp spec fn xml_document(bytes: Seq<u8>) -> Option<XmlElement>;

/// Parses XML with `xmltree::Element::parse`; the result is named by
/// `xml_document`.
#[verifier::external_body]
pub(crate) fn parse_xml(bytes: &[u8]) -> (r: Option<XmlElement>)
    ensures
        r == xml_document(bytes@),
{
    xmltree::Element::parse(bytes).ok().map(|e| element_of(&e))
}

/// Copies an `xmltree::Element` into an `XmlElement`, node for node; the
/// attributes come in name order (the crate's "attribute-sorted" feature
/// keeps them in a `BTreeMap`).
#[verifier::external_body]
fn element_of(e: &xmltree::Element) -> XmlElement {
    XmlElement {
        name: e.name.clone(),
        attributes: e.attributes.iter().map(|(k, v)| (k.clone(), v.clone())).collect(),
        children: e.children.iter().map(|n| match n {
            xmltree::XMLNode::Element(c) => XmlNode::Element(element_of(c)),
            xmltree::XMLNode::Text(t) => XmlNode::Text(t.clone()),
            xmltree::XMLNode::CData(t) => XmlNode::CData(t.clone()),
            _ => XmlNode::Other,
        }).collect(),
    }
}

/// Whether a node carries text (`Text` or `CData`).
pub open spec fn is_texty(n: XmlNode) -> bool {
    n is Text || n is CData
}

pub open spec fn node_text(n: XmlNode) -> Seq<char> {
    match n {
        XmlNode::Text(t) => t@,
        XmlNode::CData(t) => t@,
        _ => Seq::empty(),
    }
}

pub open spec fn has_text(ns: Seq<XmlNode>) -> bool
    decreases ns.len(),
{
    ns.len() > 0 && (has_text(ns.drop_last()) || is_texty(ns.last()))
}

pub open spec fn all_text(ns: Seq<XmlNode>) -> Seq<char>
    decreases ns.len(),
{
    if ns.len() == 0 {
        Seq::empty()
    } else {
        all_text(ns.drop_last()) + node_text(ns.last())
    }
}

/// An element's text as `get_text` gives it: its text and CDATA children
/// joined, or `None` when it has none.
pub open spec fn text_of(e: XmlElement) -> Option<Seq<char>> {
    if has_text(e.children@) {
        Some(all_text(e.children@))
    } else {
        None
    }
}

/// An element's text, trimmed.
pub open spec fn trimmed_text(e: XmlElement) -> Option<Seq<char>> {
    match text_of(e) {
        Some(t) => Some(trim(t)),
        None => None,
    }
}

/// The value of the last attribute with this name.
pub open spec fn attr_last(attrs: Seq<(String, String)>, key: Seq<char>) -> Option<Seq<char>>
    decreases attrs.len(),
{
    if attrs.len() == 0 {
        None
    } else if attrs.last().0@ == key {
        Some(attrs.last().1@)
    } else {
        attr_last(attrs.drop_last(), key)
    }
}

/// The value of an element's attribute.
pub open spec fn attr_of(e: XmlElement, key: Seq<char>) -> Option<Seq<char>> {
    attr_last(e.attributes@, key)
}

/// The first child element with this name.
pub open spec fn first_named(ns: Seq<XmlNode>, name: Seq<char>) -> Option<XmlElement>
    decreases ns.len(),
{
    if ns.len() == 0 {
        None
    } else {
        match ns[0] {
            XmlNode::Element(c) => if c.name@ == name {
                Some(c)
            } else {
                first_named(ns.drop_first(), name)
            },
            _ => first_named(ns.drop_first(), name),
        }
    }
}

/// The child elements, in order.
pub open spec fn elements_of(ns: Seq<XmlNode>) -> Seq<XmlElement>
    decreases ns.len(),
{
    if ns.len() == 0 {
        Seq::empty()
    } else {
        elements_of(ns.drop_last()) + match ns.last() {
            XmlNode::Element(c) => seq![c],
            _ => Seq::empty(),
        }
    }
}

pub proof fn lemma_rest(s: Seq<XmlNode>, i: int)
    requires
        0 <= i < s.len(),
    ensures
        s.subrange(i, s.len() as int).drop_first() == s.subrange(i + 1, s.len() as int),
        s.subrange(i, s.len() as int)[0] == s[i],
{
    assert(s.subrange(i, s.len() as int).drop_first() =~= s.subrange(i + 1, s.len() as int));
}

pub proof fn lemma_prefix(s: Seq<XmlNode>, i: int)
    requires
        0 <= i < s.len(),
    ensures
        s.subrange(0, i + 1).drop_last() == s.subrange(0, i),
        s.subrange(0, i + 1).last() == s[i],
{
    assert(s.subrange(0, i + 1).drop_last() =~= s.subrange(0, i));
}

/// An element's text (its text and CDATA children joined).
pub fn text_exec(e: &XmlElement) -> (r: Option<String>)
    ensures
        opt_view(r) == text_of(*e),
{
    let ns = &e.children;
    let mut acc: Vec<char> = Vec::new();
    let mut any = false;
    let mut i: usize = 0;
    while i < ns.len()
        invariant
            0 <= i <= ns@.len(),
            acc@ == all_text(ns@.subrange(0, i as int)),
            any == has_text(ns@.subrange(0, i as int)),
        decreases ns@.len() - i,
    {
        proof {
            lemma_prefix(ns@, i as int);
        }
        match &ns[i] {
            XmlNode::Text(t) => {
                crate::text::push_str(&mut acc, t.as_str());
                any = true;
            },
            XmlNode::CData(t) => {
                crate::text::push_str(&mut acc, t.as_str());
                any = true;
            },
            _ => {
                assert(acc@ =~= acc@ + Seq::<char>::empty());
            },
        }
        i += 1;
    }
    assert(ns@.subrange(0, i as int) =~= ns@);
    if any {
        Some(string_of(&acc))
    } else {
        None
    }
}

/// An element's text, trimmed.
pub fn trimmed_text_exec(e: &XmlElement) -> (r: Option<String>)
    ensures
        opt_view(r) == trimmed_text(*e),
{
    match text_exec(e) {
        Some(t) => {
            let v = trim_exec(&chars_of(t.as_str()));
            Some(string_of(&v))
        },
        None => None,
    }
}

/// The value of an element's attribute.
pub fn attr_exec(e: &XmlElement, key: &str) -> (r: Option<String>)
    ensures
        opt_view(r) == attr_of(*e, key@),
{
    let attrs = &e.attributes;
    let mut found: Option<String> = None;
    let mut i: usize = 0;
    while i < attrs.len()
        invariant
            0 <= i <= attrs@.len(),
            opt_view(found) == attr_last(attrs@.subrange(0, i as int), key@),
        decreases attrs@.len() - i,
    {
        assert(attrs@.subrange(0, i + 1).drop_last() =~= attrs@.subrange(0, i as int));
        if str_eq(attrs[i].0.as_str(), key) {
            found = Some(attrs[i].1.clone());
        }
        i += 1;
    }
    assert(attrs@.subrange(0, i as int) =~= attrs@);
    found
}

/// The first child element with this name.
pub fn find_child<'a>(e: &'a XmlElement, name: &str) -> (r: Option<&'a XmlElement>)
    ensures
        match r {
            Some(c) => first_named(e.children@, name@) == Some(*c),
            None => first_named(e.children@, name@) is None,
        },
{
    let ns = &e.children;
    let mut i: usize = 0;
    assert(ns@.subrange(0, ns@.len() as int) =~= ns@);
    while i < ns.len()
        invariant
            0 <= i <= ns@.len(),
            first_named(ns@, name@) == first_named(ns@.subrange(i as int, ns@.len() as int), name@),
            ns@ == e.children@,
        decreases ns@.len() - i,
    {
        proof {
            lemma_rest(ns@, i as int);
        }
        if let XmlNode::Element(c) = &ns[i] {
            if str_eq(c.name.as_str(), name) {
                proof {
                    let sub = ns@.subrange(i as int, ns@.len() as int);
                    assert(sub[0] == XmlNode::Element(*c));
                    assert(c.name@ == name@);
                    assert(first_named(sub, name@) == Some(*c));
                }
                return Some(c);
            }
        }
        i += 1;
    }
    assert(ns@.subrange(i as int, ns@.len() as int) =~= Seq::<XmlNode>::empty());
    None
}

} // verus!
