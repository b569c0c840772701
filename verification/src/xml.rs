//! The elements of a record as plain values.
//!
//! An element is held as its name and its attributes in the order in which
//! they are written. An attribute whose value cannot be unescaped keeps its
//! key; text that is no attribute is kept as a mark in its place, and what
//! follows such a mark cannot be relied on.

use crate::error::{attr_name, Attr, ConvertError, Tag};
use vstd::prelude::*;
use vstd::string::*;

verus! {

/// One attribute of an element, as the reader found it.
#[derive(Clone, Debug, PartialEq, Eq)]
pub enum Attribute {
    /// A key with its value, the value unescaped.
    Pair { key: String, value: String },
    /// A key whose value could not be unescaped.
    Undecodable { key: String },
    /// Text that is no attribute.
    Malformed,
}

/// What an attribute holds.
pub enum AttributeView {
    Pair { key: Seq<char>, value: Seq<char> },
    Undecodable { key: Seq<char> },
    Malformed,
}

impl View for Attribute {
    type V = AttributeView;

    open spec fn view(&self) -> AttributeView {
        match *self {
            Attribute::Pair { key, value } => AttributeView::Pair { key: key@, value: value@ },
            Attribute::Undecodable { key } => AttributeView::Undecodable { key: key@ },
            Attribute::Malformed => AttributeView::Malformed,
        }
    }
}

/// An element: its name and its attributes in their order.
#[derive(Clone, Debug, PartialEq, Eq)]
pub struct Element {
    pub name: String,
    pub attributes: Vec<Attribute>,
}

/// What an element holds.
pub struct ElementView {
    pub name: Seq<char>,
    pub attributes: Seq<AttributeView>,
}

/// What a sequence of attributes holds, one by one.
pub open spec fn attribute_views(attributes: Seq<Attribute>) -> Seq<AttributeView> {
    attributes.map_values(|a: Attribute| a@)
}

impl View for Element {
    type V = ElementView;

    open spec fn view(&self) -> ElementView {
        ElementView { name: self.name@, attributes: attribute_views(self.attributes@) }
    }
}

/// One piece of a record: an element that opens, an element that stands
/// alone, or anything else, such as text, a comment or a closing tag.
#[derive(Clone, Debug, PartialEq, Eq)]
pub enum XmlNode {
    Open(Element),
    Leaf(Element),
    Other,
}

/// What a piece of a record holds.
pub enum XmlNodeView {
    Open(ElementView),
    Leaf(ElementView),
    Other,
}

impl View for XmlNode {
    type V = XmlNodeView;

    open spec fn view(&self) -> XmlNodeView {
        match *self {
            XmlNode::Open(e) => XmlNodeView::Open(e@),
            XmlNode::Leaf(e) => XmlNodeView::Leaf(e@),
            XmlNode::Other => XmlNodeView::Other,
        }
    }
}

/// What a sequence of pieces holds, one by one.
pub open spec fn node_views(nodes: Seq<XmlNode>) -> Seq<XmlNodeView> {
    nodes.map_values(|n: XmlNode| n@)
}

/// What looking for a key among attributes gives.
pub enum Lookup {
    /// The value of the first attribute with the key.
    Found(Seq<char>),
    /// No attribute has the key.
    Absent,
    /// The search met text that is no attribute, or the first attribute
    /// with the key has a value that cannot be unescaped.
    Broken,
}

/// Looks for a key among attributes, from the first on, and stops at the
/// first attribute with the key or at the first text that is no attribute.
pub open spec fn lookup(attributes: Seq<AttributeView>, key: Seq<char>) -> Lookup
    decreases attributes.len(),
{
    if attributes.len() == 0 {
        Lookup::Absent
    } else {
        match attributes[0] {
            AttributeView::Malformed => Lookup::Broken,
            AttributeView::Pair { key: k, value } => if k == key {
                Lookup::Found(value)
            } else {
                lookup(attributes.drop_first(), key)
            },
            AttributeView::Undecodable { key: k } => if k == key {
                Lookup::Broken
            } else {
                lookup(attributes.drop_first(), key)
            },
        }
    }
}

/// Whether one of the attributes has the key, as far as the attributes can
/// be read: the search goes from the first on and stops at the first
/// attribute with the key, whatever its value, or at the first text that is
/// no attribute, where it fails.
pub open spec fn has_key(attributes: Seq<AttributeView>, key: Seq<char>) -> Option<bool>
    decreases attributes.len(),
{
    if attributes.len() == 0 {
        Some(false)
    } else {
        match attributes[0] {
            AttributeView::Malformed => None,
            AttributeView::Pair { key: k, .. } => if k == key {
                Some(true)
            } else {
                has_key(attributes.drop_first(), key)
            },
            AttributeView::Undecodable { key: k } => if k == key {
                Some(true)
            } else {
                has_key(attributes.drop_first(), key)
            },
        }
    }
}

/// Whether the element `tag` has an attribute. The value of the attribute
/// does not matter.
pub open spec fn present(e: ElementView, tag: Tag, attribute: Attr) -> Result<bool, ConvertError> {
    match has_key(e.attributes, attr_name(attribute)) {
        Some(found) => Ok(found),
        None => Err(ConvertError::MalformedValue { tag, attribute }),
    }
}

/// The value of an attribute of the element `tag` that may be absent.
pub open spec fn optional(e: ElementView, tag: Tag, attribute: Attr) -> Result<
    Option<Seq<char>>,
    ConvertError,
> {
    match lookup(e.attributes, attr_name(attribute)) {
        Lookup::Found(value) => Ok(Some(value)),
        Lookup::Absent => Ok(None),
        Lookup::Broken => Err(ConvertError::MalformedValue { tag, attribute }),
    }
}

/// The value of an attribute that the element `tag` must have.
pub open spec fn required(e: ElementView, tag: Tag, attribute: Attr) -> Result<
    Seq<char>,
    ConvertError,
> {
    match optional(e, tag, attribute) {
        Ok(Some(value)) => Ok(value),
        Ok(None) => Err(ConvertError::MissingAttribute { tag, attribute }),
        Err(e) => Err(e),
    }
}

/// The text of a string that may be absent.
pub open spec fn text_view(value: Option<&String>) -> Option<Seq<char>> {
    match value {
        Some(s) => Some(s@),
        None => None,
    }
}

/// The text, or the failure, of a looked-up value.
pub open spec fn lookup_view(r: Result<Option<&String>, ConvertError>) -> Result<
    Option<Seq<char>>,
    ConvertError,
> {
    match r {
        Ok(value) => Ok(text_view(value)),
        Err(e) => Err(e),
    }
}

/// The text, or the failure, of a value that must be there.
pub open spec fn required_view(r: Result<&String, ConvertError>) -> Result<
    Seq<char>,
    ConvertError,
> {
    match r {
        Ok(value) => Ok(value@),
        Err(e) => Err(e),
    }
}

impl Element {
    /// Looks up an attribute of the element `tag`. The value is malformed
    /// where the search meets text that is no attribute or a value that
    /// cannot be unescaped.
    pub fn attribute(&self, tag: Tag, attribute: Attr) -> (r: Result<Option<&String>, ConvertError>)
        ensures
            lookup_view(r) == optional(self@, tag, attribute),
    {
        let key = String::from_str(attribute.name());
        let ghost all = self@.attributes;
        let mut i: usize = 0;
        assert(all.skip(0) =~= all);
        while i < self.attributes.len()
            invariant
                i <= self.attributes@.len(),
                all == self@.attributes,
                key@ == attr_name(attribute),
                lookup(all, key@) == lookup(all.skip(i as int), key@),
            decreases self.attributes@.len() - i,
        {
            let ghost rest = all.skip(i as int);
            assert(rest[0] == self.attributes@[i as int]@);
            assert(rest.drop_first() =~= all.skip(i + 1));
            match &self.attributes[i] {
                Attribute::Malformed => {
                    return Err(ConvertError::MalformedValue { tag, attribute });
                },
                Attribute::Pair { key: k, value } => {
                    if *k == key {
                        return Ok(Some(value));
                    }
                },
                Attribute::Undecodable { key: k } => {
                    if *k == key {
                        return Err(ConvertError::MalformedValue { tag, attribute });
                    }
                },
            }
            i = i + 1;
        }
        Ok(None)
    }

    /// Whether the element `tag` has an attribute, whatever its value. The
    /// search fails where it meets text that is no attribute.
    pub fn has_attribute(&self, tag: Tag, attribute: Attr) -> (r: Result<bool, ConvertError>)
        ensures
            r == present(self@, tag, attribute),
    {
        let key = String::from_str(attribute.name());
        let ghost all = self@.attributes;
        let mut i: usize = 0;
        assert(all.skip(0) =~= all);
        while i < self.attributes.len()
            invariant
                i <= self.attributes@.len(),
                all == self@.attributes,
                key@ == attr_name(attribute),
                has_key(all, key@) == has_key(all.skip(i as int), key@),
            decreases self.attributes@.len() - i,
        {
            let ghost rest = all.skip(i as int);
            assert(rest[0] == self.attributes@[i as int]@);
            assert(rest.drop_first() =~= all.skip(i + 1));
            match &self.attributes[i] {
                Attribute::Malformed => {
                    return Err(ConvertError::MalformedValue { tag, attribute });
                },
                Attribute::Pair { key: k, .. } => {
                    if *k == key {
                        return Ok(true);
                    }
                },
                Attribute::Undecodable { key: k } => {
                    if *k == key {
                        return Ok(true);
                    }
                },
            }
            i = i + 1;
        }
        Ok(false)
    }

    /// Looks up an attribute that the element `tag` must have.
    pub fn required_attribute(&self, tag: Tag, attribute: Attr) -> (r: Result<
        &String,
        ConvertError,
    >)
        ensures
            required_view(r) == required(self@, tag, attribute),
    {
        match self.attribute(tag, attribute) {
            Ok(Some(value)) => Ok(value),
            Ok(None) => Err(ConvertError::MissingAttribute { tag, attribute }),
            Err(e) => Err(e),
        }
    }
}

} // verus!
