//! The document tree and the selector queries on it.

use crate::element::{views, Attribute, Element, ElementView};
use scraper::{Html, Selector};
use vstd::prelude::*;

verus! {

/// `scraper::Html`, a parsed document. It is carried from the parser to
/// the queries; nothing inside it is read here.
#[verifier::external_type_specification]
#[verifier::external_body]
pub struct ExHtml(scraper::Html);

/// `scraper::Selector`, a compiled pattern. It is carried from the
/// compiler to the queries; nothing inside it is read here.
#[verifier::external_type_specification]
#[verifier::external_body]
pub struct ExSelector(scraper::Selector);

/// The tree that the parser builds from a text.
pub uninterp spec fn parsed(text: Seq<char>) -> Html;

/// The selector that a pattern compiles to, or `None` for a pattern with
/// a syntax error.
pub uninterp spec fn compiled(pattern: Seq<char>) -> Option<Selector>;

/// The elements of a tree that a selector matches, in the order in which
/// the tree holds them.
pub uninterp spec fn selected(document: Html, selector: Selector) -> Seq<ElementView>;

/// `scraper::Html::parse_document`: the tree depends on the text alone.
/// The parser repairs what is malformed and does not fail.
#[verifier::external_body]
pub(crate) fn parse_document(text: &str) -> (document: Html)
    ensures
        document == parsed(text@),
{
    Html::parse_document(text)
}

/// `scraper::Selector::parse`: whether a pattern compiles, and to what,
/// depends on the pattern alone. What the parser says of a pattern that
/// does not compile is dropped.
#[verifier::external_body]
pub(crate) fn compile(pattern: &str) -> (selector: Option<Selector>)
    ensures
        selector == compiled(pattern@),
{
    Selector::parse(pattern).ok()
}

/// `scraper::Html::select`, with each element that it yields copied out:
/// its attributes from `scraper::node::Element::attrs` and its text from
/// `scraper::ElementRef::text`. What is found depends on the tree and the
/// selector alone.
#[verifier::external_body]
pub(crate) fn select(document: &Html, selector: &Selector) -> (found: Vec<Element>)
    ensures
        views(found@) == selected(*document, *selector),
{
    document.select(selector).map(|el| Element {
        attrs: el.value().attrs.iter().map(|(name, value)| Attribute {
            prefix: name.prefix.as_ref().map(|p| p.to_string()),
            namespace: name.ns.to_string(),
            name: name.local.to_string(),
            value: value.to_string(),
        }).collect(),
        text: el.text().collect(),
    }).collect()
}

} // verus!
