//! Elements of a document as plain values.

use vstd::prelude::*;

verus! {

/// One attribute of an element, with its qualified name.
#[derive(Clone, Debug, PartialEq, Eq)]
pub struct Attribute {
    /// Prefix of the qualified name, if it has one.
    pub prefix: Option<String>,
    /// Namespace of the qualified name; empty for an ordinary attribute.
    pub namespace: String,
    /// Local name.
    pub name: String,
    /// Value, as written in the document.
    pub value: String,
}

/// What an [`Attribute`] is in contracts.
pub ghost struct AttributeView {
    pub prefix: Option<Seq<char>>,
    pub namespace: Seq<char>,
    pub name: Seq<char>,
    pub value: Seq<char>,
}

impl View for Attribute {
    type V = AttributeView;

    open spec fn view(&self) -> AttributeView {
        AttributeView {
            prefix: match self.prefix {
                Some(p) => Some(p@),
                None => None,
            },
            namespace: self.namespace@,
            name: self.name@,
            value: self.value@,
        }
    }
}

/// One element of a document: its attributes and the text below it.
#[derive(Clone, Debug, PartialEq, Eq)]
pub struct Element {
    /// The attributes, in the order in which the document tree holds them.
    pub attrs: Vec<Attribute>,
    /// The text nodes below the element, joined in document order.
    pub text: String,
}

/// What an [`Element`] is in contracts.
pub ghost struct ElementView {
    pub attrs: Seq<AttributeView>,
    pub text: Seq<char>,
}

impl View for Element {
    type V = ElementView;

    open spec fn view(&self) -> ElementView {
        ElementView { attrs: self.attrs@.map_values(|a: Attribute| a@), text: self.text@ }
    }
}

/// The views of a list of elements, one for one.
pub open spec fn views(elements: Seq<Element>) -> Seq<ElementView> {
    elements.map_values(|e: Element| e@)
}

impl AttributeView {
    /// Whether this is the attribute that a document writes as plain
    /// `name`: no prefix, no namespace, and that local name.
    pub open spec fn is_named(self, name: Seq<char>) -> bool {
        self.prefix is None && self.namespace.len() == 0 && self.name == name
    }
}

/// The value of the first of `attrs` that is named `name`.
pub open spec fn attr_value(attrs: Seq<AttributeView>, name: Seq<char>) -> Option<Seq<char>>
    decreases attrs.len(),
{
    if attrs.len() == 0 {
        None
    } else if attrs.first().is_named(name) {
        Some(attrs.first().value)
    } else {
        attr_value(attrs.drop_first(), name)
    }
}

impl ElementView {
    /// The value of the attribute `name`, where the element has it.
    pub open spec fn attr(self, name: Seq<char>) -> Option<Seq<char>> {
        attr_value(self.attrs, name)
    }
}

impl Attribute {
    /// An attribute without prefix or namespace, as an HTML document
    /// writes it.
    pub fn new(name: &str, value: &str) -> (attribute: Attribute)
        ensures
            attribute@ == (AttributeView {
                prefix: None,
                namespace: Seq::empty(),
                name: name@,
                value: value@,
            }),
    {
        Attribute {
            prefix: None,
            namespace: String::new(),
            name: name.to_owned(),
            value: value.to_owned(),
        }
    }

    /// Whether this is the attribute that a document writes as plain
    /// `name`.
    pub fn is_named(&self, name: &String) -> (b: bool)
        ensures
            b == self@.is_named(name@),
    {
        self.prefix.is_none() && self.namespace.as_str().is_empty() && self.name == *name
    }
}

impl Element {
    /// The value of the attribute `name`, where the element has it.
    pub fn attr(&self, name: &str) -> (value: Option<&str>)
        ensures
            match value {
                Some(v) => self@.attr(name@) == Some(v@),
                None => self@.attr(name@) is None,
            },
    {
        let wanted = name.to_owned();
        let mut i: usize = 0;
        assert(self@.attrs.skip(0) == self@.attrs);
        while i < self.attrs.len()
            invariant
                i <= self.attrs.len(),
                wanted@ == name@,
                self@.attr(name@) == attr_value(self@.attrs.skip(i as int), name@),
            decreases self.attrs.len() - i,
        {
            if self.attrs[i].is_named(&wanted) {
                return Some(self.attrs[i].value.as_str());
            }
            assert(self@.attrs.skip(i as int).drop_first() == self@.attrs.skip(i + 1));
            i += 1;
        }
        None
    }
}

} // verus!
