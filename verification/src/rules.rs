//! The rules that one element can break.

use crate::color::{is_contrast_ok, written_contrast_ok};
use crate::element::{views, Element, ElementView};
use crate::style::{css_color, extract_css_color};
use crate::text::{
    contains, is_blank, is_blank_text, lowercase, occurs, parse_decimal, same_text, to_chars,
    to_lowercase, trim, trimmed, word,
};
use vstd::prelude::*;

verus! {

/// The side of an image, in pixels, above which it counts as heavy.
pub const HEAVY_SIDE: usize = 1000;

/// An image has no `alt`, or one that holds nothing but white space.
pub open spec fn lacks_alt(e: ElementView) -> bool {
    match e.attr("alt"@) {
        Some(alt) => is_blank(alt),
        None => true,
    }
}

/// A text, already in lower case, holds one of the phrases that say
/// nothing of where a link leads.
pub open spec fn has_weak_phrase(lowered: Seq<char>) -> bool {
    ||| occurs(lowered, "clicca qui"@)
    ||| occurs(lowered, "link"@)
    ||| occurs(lowered, "qui"@)
    ||| occurs(lowered, "leggi"@)
}

/// The text of a link, whatever its case, holds one of the weak
/// phrases.
pub open spec fn has_weak_text(e: ElementView) -> bool {
    has_weak_phrase(lowercase(e.text))
}

/// An image is not marked for lazy loading: it has no `loading`, or one
/// that, trimmed and in lower case, is not `lazy`.
pub open spec fn lacks_lazy(e: ElementView) -> bool {
    match e.attr("loading"@) {
        Some(loading) => lowercase(trim(loading)) != "lazy"@,
        None => true,
    }
}

/// An image declares both sides as numbers, and one of them is above
/// [`HEAVY_SIDE`]. A side that is no number, or one too large for a
/// machine word, counts as not declared.
pub open spec fn is_heavy(e: ElementView) -> bool {
    match (e.attr("width"@), e.attr("height"@)) {
        (Some(width), Some(height)) => match (word(width), word(height)) {
            (Some(w), Some(h)) => w > HEAVY_SIDE || h > HEAVY_SIDE,
            _ => false,
        },
        _ => false,
    }
}

/// A script is loaded from elsewhere and holds up the page: it has
/// `src`, and neither `async` nor `defer`, whatever their values.
pub open spec fn is_blocking(e: ElementView) -> bool {
    e.attr("src"@) is Some && e.attr("async"@) is None && e.attr("defer"@) is None
}

/// An inline style gives both a colour and a background colour, and the
/// two are too close, or one of them is no colour.
pub open spec fn style_has_low_contrast(style: Seq<char>) -> bool {
    match (css_color(style, "color"@), css_color(style, "background-color"@)) {
        (Some(fg), Some(bg)) => !written_contrast_ok(fg, bg),
        _ => false,
    }
}

/// An element's inline style has low contrast.
pub open spec fn has_low_contrast(e: ElementView) -> bool {
    match e.attr("style"@) {
        Some(style) => style_has_low_contrast(style),
        None => false,
    }
}

/// One of `labels` is for the element with this `id`.
pub open spec fn is_labelled(id: Seq<char>, labels: Seq<ElementView>) -> bool {
    exists|i: int| 0 <= i < labels.len() && (#[trigger] labels[i]).attr("for"@) == Some(id)
}

/// A form field has nothing that names it: no `aria-label`, and no
/// `id` that one of `labels` is for.
pub open spec fn is_unlabelled(field: ElementView, labels: Seq<ElementView>) -> bool {
    field.attr("aria-label"@) is None && match field.attr("id"@) {
        Some(id) => !is_labelled(id, labels),
        None => true,
    }
}

/// A rule that an element breaks or keeps by itself.
#[derive(Clone, Copy, Debug, PartialEq, Eq)]
pub enum Rule {
    /// An image has an `alt` that says something.
    Alt,
    /// A link's text says where it leads.
    LinkText,
    /// An image is loaded lazily.
    LazyLoading,
    /// An image is not heavy.
    ImageSize,
    /// A script does not hold up the page.
    ScriptLoading,
    /// An inline style keeps its two colours apart.
    Contrast,
}

impl Rule {
    /// Whether an element breaks this rule.
    pub open spec fn broken_by(self, e: ElementView) -> bool {
        match self {
            Rule::Alt => lacks_alt(e),
            Rule::LinkText => has_weak_text(e),
            Rule::LazyLoading => lacks_lazy(e),
            Rule::ImageSize => is_heavy(e),
            Rule::ScriptLoading => is_blocking(e),
            Rule::Contrast => has_low_contrast(e),
        }
    }

    /// How many of `elements` break this rule.
    pub open spec fn breaches(self, elements: Seq<ElementView>) -> nat
        decreases elements.len(),
    {
        if elements.len() == 0 {
            0
        } else {
            self.breaches(elements.drop_last()) + if self.broken_by(elements.last()) {
                1nat
            } else {
                0nat
            }
        }
    }

    /// No more elements break a rule than there are.
    pub proof fn lemma_breaches_bounded(self, elements: Seq<ElementView>)
        ensures
            self.breaches(elements) <= elements.len(),
        decreases elements.len(),
    {
        if elements.len() > 0 {
            self.lemma_breaches_bounded(elements.drop_last());
        }
    }

    /// The count of a rule is the number of the elements that break it:
    /// the length of what is left when the others are taken away.
    pub proof fn lemma_breaches_is_number_broken(self, elements: Seq<ElementView>)
        ensures
            self.breaches(elements) == elements.filter(|e: ElementView| self.broken_by(e)).len(),
        decreases elements.len(),
    {
        reveal(Seq::filter);
        if elements.len() > 0 {
            self.lemma_breaches_is_number_broken(elements.drop_last());
        }
    }

    /// Whether an element breaks this rule.
    pub fn is_broken_by(self, e: &Element) -> (broken: bool)
        ensures
            broken == self.broken_by(e@),
    {
        match self {
            Rule::Alt => is_missing_alt(e),
            Rule::LinkText => is_weak_link(e),
            Rule::LazyLoading => is_missing_lazy(e),
            Rule::ImageSize => is_heavy_image(e),
            Rule::ScriptLoading => is_blocking_script(e),
            Rule::Contrast => is_low_contrast(e),
        }
    }

    /// How many of `elements` break this rule.
    pub fn count(self, elements: &[Element]) -> (n: usize)
        ensures
            n == self.breaches(views(elements@)),
    {
        let ghost all = views(elements@);
        let mut n: usize = 0;
        let mut i: usize = 0;
        while i < elements.len()
            invariant
                i <= elements.len(),
                all == views(elements@),
                n == self.breaches(all.take(i as int)),
                n <= i,
            decreases elements.len() - i,
        {
            assert(all.take(i + 1).drop_last() == all.take(i as int));
            if self.is_broken_by(&elements[i]) {
                n += 1;
            }
            i += 1;
        }
        assert(all.take(i as int) == all);
        n
    }
}

/// Whether an image has no `alt`, or a blank one.
pub fn is_missing_alt(e: &Element) -> (missing: bool)
    ensures
        missing == lacks_alt(e@),
{
    match e.attr("alt") {
        Some(alt) => is_blank_text(alt),
        None => true,
    }
}

/// Whether a text, already in lower case, holds one of the weak phrases.
pub fn is_weak_phrase(lowered: &str) -> (weak: bool)
    ensures
        weak == has_weak_phrase(lowered@),
{
    let text = to_chars(lowered);
    let first = to_chars("clicca qui");
    let second = to_chars("link");
    let third = to_chars("qui");
    let fourth = to_chars("leggi");
    contains(text.as_slice(), first.as_slice()) || contains(text.as_slice(), second.as_slice())
        || contains(text.as_slice(), third.as_slice()) || contains(
        text.as_slice(),
        fourth.as_slice(),
    )
}

/// Whether a link's text holds one of the weak phrases, whatever its
/// case.
pub fn is_weak_link(e: &Element) -> (weak: bool)
    ensures
        weak == has_weak_text(e@),
{
    let lowered = to_lowercase(e.text.as_str());
    is_weak_phrase(lowered.as_str())
}

/// Whether an image is not marked for lazy loading.
pub fn is_missing_lazy(e: &Element) -> (missing: bool)
    ensures
        missing == lacks_lazy(e@),
{
    match e.attr("loading") {
        Some(loading) => {
            let lowered = to_lowercase(trimmed(loading));
            !same_text(lowered.as_str(), "lazy")
        },
        None => true,
    }
}

/// Whether an image declares a side above [`HEAVY_SIDE`].
pub fn is_heavy_image(e: &Element) -> (heavy: bool)
    ensures
        heavy == is_heavy(e@),
{
    match (e.attr("width"), e.attr("height")) {
        (Some(width), Some(height)) => match (parse_decimal(width), parse_decimal(height)) {
            (Some(w), Some(h)) => w > HEAVY_SIDE || h > HEAVY_SIDE,
            _ => false,
        },
        _ => false,
    }
}

/// Whether a script holds up the page.
pub fn is_blocking_script(e: &Element) -> (blocking: bool)
    ensures
        blocking == is_blocking(e@),
{
    e.attr("src").is_some() && e.attr("async").is_none() && e.attr("defer").is_none()
}

/// Whether an inline style gives two colours that are too close.
pub fn is_low_contrast_style(style: &str) -> (low: bool)
    ensures
        low == style_has_low_contrast(style@),
{
    match (extract_css_color(style, "color"), extract_css_color(style, "background-color")) {
        (Some(fg), Some(bg)) => !is_contrast_ok(fg.as_str(), bg.as_str()),
        _ => false,
    }
}

/// Whether an element's inline style has low contrast.
pub fn is_low_contrast(e: &Element) -> (low: bool)
    ensures
        low == has_low_contrast(e@),
{
    match e.attr("style") {
        Some(style) => is_low_contrast_style(style),
        None => false,
    }
}

/// Whether one of `labels` is for the element with this `id`.
pub fn has_label(id: &str, labels: &[Element]) -> (labelled: bool)
    ensures
        labelled == is_labelled(id@, views(labels@)),
{
    let mut i: usize = 0;
    while i < labels.len()
        invariant
            i <= labels.len(),
            forall|j: int| 0 <= j < i ==> (#[trigger] views(labels@)[j]).attr("for"@) != Some(id@),
        decreases labels.len() - i,
    {
        let target = labels[i].attr("for");
        assert(views(labels@)[i as int] == labels@[i as int]@);
        match target {
            Some(name) => {
                if same_text(name, id) {
                    return true;
                }
            },
            None => {},
        }
        i += 1;
    }
    false
}

/// Whether a form field has nothing that names it.
pub fn is_inaccessible(field: &Element, labels: &[Element]) -> (inaccessible: bool)
    ensures
        inaccessible == is_unlabelled(field@, views(labels@)),
{
    if field.attr("aria-label").is_some() {
        return false;
    }
    match field.attr("id") {
        Some(id) => !has_label(id, labels),
        None => true,
    }
}

/// How many of `fields` have nothing that names them.
pub open spec fn unlabelled(fields: Seq<ElementView>, labels: Seq<ElementView>) -> nat
    decreases fields.len(),
{
    if fields.len() == 0 {
        0
    } else {
        unlabelled(fields.drop_last(), labels) + if is_unlabelled(fields.last(), labels) {
            1nat
        } else {
            0nat
        }
    }
}

/// No more fields are without a name than there are fields.
pub proof fn lemma_unlabelled_bounded(fields: Seq<ElementView>, labels: Seq<ElementView>)
    ensures
        unlabelled(fields, labels) <= fields.len(),
    decreases fields.len(),
{
    if fields.len() > 0 {
        lemma_unlabelled_bounded(fields.drop_last(), labels);
    }
}

/// The count of fields without a name is the number of the fields that
/// have none: the length of what is left when the others are taken away.
pub proof fn lemma_unlabelled_is_number_unlabelled(
    fields: Seq<ElementView>,
    labels: Seq<ElementView>,
)
    ensures
        unlabelled(fields, labels) == fields.filter(
            |field: ElementView| is_unlabelled(field, labels),
        ).len(),
    decreases fields.len(),
{
    reveal(Seq::filter);
    if fields.len() > 0 {
        lemma_unlabelled_is_number_unlabelled(fields.drop_last(), labels);
    }
}

/// A label whose `for` is the `id` of a field makes the field
/// accessible, with or without an `aria-label`.
pub proof fn lemma_label_names_field(
    field: ElementView,
    labels: Seq<ElementView>,
    id: Seq<char>,
    at: int,
)
    requires
        field.attr("id"@) == Some(id),
        0 <= at < labels.len(),
        labels[at].attr("for"@) == Some(id),
    ensures
        !is_unlabelled(field, labels),
{
}

/// A field with an `id` and without `aria-label` is inaccessible where
/// no label is for that `id`: where there is no label at all, or where
/// each is for something else.
pub proof fn lemma_field_needs_its_label(
    field: ElementView,
    labels: Seq<ElementView>,
    id: Seq<char>,
)
    requires
        field.attr("aria-label"@) is None,
        field.attr("id"@) == Some(id),
        forall|i: int| 0 <= i < labels.len() ==> (#[trigger] labels[i]).attr("for"@) != Some(id),
    ensures
        is_unlabelled(field, labels),
{
}

/// How many of `fields` have nothing that names them.
pub fn count_inaccessible(fields: &[Element], labels: &[Element]) -> (n: usize)
    ensures
        n == unlabelled(views(fields@), views(labels@)),
{
    let ghost all = views(fields@);
    let mut n: usize = 0;
    let mut i: usize = 0;
    while i < fields.len()
        invariant
            i <= fields.len(),
            all == views(fields@),
            n == unlabelled(all.take(i as int), views(labels@)),
            n <= i,
        decreases fields.len() - i,
    {
        assert(all.take(i + 1).drop_last() == all.take(i as int));
        if is_inaccessible(&fields[i], labels) {
            n += 1;
        }
        i += 1;
    }
    assert(all.take(i as int) == all);
    n
}

} // verus!
