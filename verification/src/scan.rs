//! The scan of one document: the queries, and the record that the rules
//! give for what the queries find.

use crate::element::{views, Element, ElementView};
use crate::query::{compile, compiled, parse_document, parsed, select, selected};
use crate::rules::{count_inaccessible, lemma_unlabelled_bounded, unlabelled, Rule};
use crate::text::same_text;
use scraper::Selector;
use vstd::prelude::*;

verus! {

/// What a scan finds in one document.
#[derive(Clone, Copy, Debug, PartialEq, Eq, Structural)]
pub struct ScanResult {
    /// The document has exactly one `title`.
    pub has_title: bool,
    /// The document has a `meta` named `description`.
    pub has_meta_description: bool,
    /// An `html` element has a `lang`.
    pub has_lang: bool,
    /// How many `h1` there are.
    pub h1_count: usize,
    /// How many images have no `alt`, or a blank one.
    pub img_missing_alt: usize,
    /// How many links have a text that says nothing of where they lead.
    pub weak_links: usize,
    /// How many `input` elements have nothing that names them.
    pub inputs_without_label: usize,
    /// The document has a `main` or a `nav`.
    pub has_main_or_nav: bool,
    /// The document has more than one `title`, or more than one `meta`
    /// named `description`.
    pub has_duplicate_title: bool,
    /// How many images are not marked for lazy loading.
    pub images_without_lazy: usize,
    /// How many inline styles give two colours that are too close.
    pub low_contrast_count: usize,
    /// How many `input`, `textarea` and `select` elements have nothing
    /// that names them.
    pub inaccessible_form_fields: usize,
    /// The document has a `meta` named `viewport`.
    pub has_viewport: bool,
    /// The document has a `link` whose `rel` is `canonical`.
    pub has_canonical: bool,
    /// How many scripts in `head` hold up the page.
    pub blocking_scripts: usize,
    /// How many images declare a side above a thousand pixels.
    pub heavy_images: usize,
}

/// What the queries of a scan find in one document, each list in the
/// order of the tree.
#[derive(Clone, Debug, PartialEq, Eq)]
pub struct Selections {
    /// `title`
    pub titles: Vec<Element>,
    /// `meta[name='description']`
    pub descriptions: Vec<Element>,
    /// `h1`
    pub headings: Vec<Element>,
    /// `img`
    pub images: Vec<Element>,
    /// `a`
    pub links: Vec<Element>,
    /// `input`
    pub inputs: Vec<Element>,
    /// `textarea`
    pub textareas: Vec<Element>,
    /// `select`
    pub selects: Vec<Element>,
    /// `label`
    pub labels: Vec<Element>,
    /// `html`
    pub roots: Vec<Element>,
    /// `main`
    pub mains: Vec<Element>,
    /// `nav`
    pub navs: Vec<Element>,
    /// `meta`
    pub metas: Vec<Element>,
    /// `meta[name='viewport']`
    pub viewports: Vec<Element>,
    /// `link[rel='canonical']`
    pub canonicals: Vec<Element>,
    /// `head script`
    pub head_scripts: Vec<Element>,
    /// `[style]`
    pub styled: Vec<Element>,
}

/// What [`Selections`] is in contracts.
pub ghost struct SelectionsView {
    pub titles: Seq<ElementView>,
    pub descriptions: Seq<ElementView>,
    pub headings: Seq<ElementView>,
    pub images: Seq<ElementView>,
    pub links: Seq<ElementView>,
    pub inputs: Seq<ElementView>,
    pub textareas: Seq<ElementView>,
    pub selects: Seq<ElementView>,
    pub labels: Seq<ElementView>,
    pub roots: Seq<ElementView>,
    pub mains: Seq<ElementView>,
    pub navs: Seq<ElementView>,
    pub metas: Seq<ElementView>,
    pub viewports: Seq<ElementView>,
    pub canonicals: Seq<ElementView>,
    pub head_scripts: Seq<ElementView>,
    pub styled: Seq<ElementView>,
}

impl View for Selections {
    type V = SelectionsView;

    open spec fn view(&self) -> SelectionsView {
        SelectionsView {
            titles: views(self.titles@),
            descriptions: views(self.descriptions@),
            headings: views(self.headings@),
            images: views(self.images@),
            links: views(self.links@),
            inputs: views(self.inputs@),
            textareas: views(self.textareas@),
            selects: views(self.selects@),
            labels: views(self.labels@),
            roots: views(self.roots@),
            mains: views(self.mains@),
            navs: views(self.navs@),
            metas: views(self.metas@),
            viewports: views(self.viewports@),
            canonicals: views(self.canonicals@),
            head_scripts: views(self.head_scripts@),
            styled: views(self.styled@),
        }
    }
}

/// A count as a machine word holds it: itself, or the largest word
/// where it is above that.
pub open spec fn capped(n: nat) -> usize {
    if n <= usize::MAX {
        n as usize
    } else {
        usize::MAX
    }
}

/// One of `elements` has the attribute `name`.
pub open spec fn some_has(elements: Seq<ElementView>, name: Seq<char>) -> bool {
    exists|i: int| 0 <= i < elements.len() && (#[trigger] elements[i]).attr(name) is Some
}

/// How many of `elements` have `value` as their attribute `name`.
pub open spec fn with_value(elements: Seq<ElementView>, name: Seq<char>, value: Seq<char>) -> nat
    decreases elements.len(),
{
    if elements.len() == 0 {
        0
    } else {
        with_value(elements.drop_last(), name, value) + if elements.last().attr(name) == Some(
            value,
        ) {
            1nat
        } else {
            0nat
        }
    }
}

/// How many form fields of the three kinds have nothing that names them.
pub open spec fn unlabelled_fields(found: SelectionsView) -> nat {
    unlabelled(found.inputs, found.labels) + unlabelled(found.textareas, found.labels)
        + unlabelled(found.selects, found.labels)
}

/// The record that the rules give for what the queries found.
pub open spec fn report(found: SelectionsView) -> ScanResult {
    ScanResult {
        has_title: found.titles.len() == 1,
        has_meta_description: found.descriptions.len() > 0,
        has_lang: some_has(found.roots, "lang"@),
        h1_count: capped(found.headings.len()),
        img_missing_alt: capped(Rule::Alt.breaches(found.images)),
        weak_links: capped(Rule::LinkText.breaches(found.links)),
        inputs_without_label: capped(unlabelled(found.inputs, found.labels)),
        has_main_or_nav: found.mains.len() > 0 || found.navs.len() > 0,
        has_duplicate_title: found.titles.len() > 1 || with_value(
            found.metas,
            "name"@,
            "description"@,
        ) > 1,
        images_without_lazy: capped(Rule::LazyLoading.breaches(found.images)),
        low_contrast_count: capped(Rule::Contrast.breaches(found.styled)),
        inaccessible_form_fields: capped(unlabelled_fields(found)),
        has_viewport: found.viewports.len() > 0,
        has_canonical: found.canonicals.len() > 0,
        blocking_scripts: capped(Rule::ScriptLoading.breaches(found.head_scripts)),
        heavy_images: capped(Rule::ImageSize.breaches(found.images)),
    }
}

/// Each count that is taken over one list is the number itself: the cap
/// of [`capped`] did not come into it.
pub open spec fn is_exact(result: ScanResult, found: SelectionsView) -> bool {
    &&& result.h1_count == found.headings.len()
    &&& result.img_missing_alt == Rule::Alt.breaches(found.images)
    &&& result.weak_links == Rule::LinkText.breaches(found.links)
    &&& result.inputs_without_label == unlabelled(found.inputs, found.labels)
    &&& result.images_without_lazy == Rule::LazyLoading.breaches(found.images)
    &&& result.low_contrast_count == Rule::Contrast.breaches(found.styled)
    &&& result.blocking_scripts == Rule::ScriptLoading.breaches(found.head_scripts)
    &&& result.heavy_images == Rule::ImageSize.breaches(found.images)
}

/// A document with no `title`, or with more than one, is reported as
/// having none.
pub proof fn lemma_title_must_be_single(found: SelectionsView)
    requires
        found.titles.len() != 1,
    ensures
        !report(found).has_title,
{
}

/// The reported number of `h1` is the number of `h1` found, zero
/// included, and so is every count that is taken over one list.
pub proof fn lemma_counts_are_exact(found: Selections)
    ensures
        report(found@).h1_count == found.headings@.len(),
        is_exact(report(found@), found@),
{
    assert(found.headings.len() == found@.headings.len());
    assert(found.images.len() == found@.images.len());
    assert(found.links.len() == found@.links.len());
    assert(found.inputs.len() == found@.inputs.len());
    assert(found.styled.len() == found@.styled.len());
    assert(found.head_scripts.len() == found@.head_scripts.len());
    Rule::Alt.lemma_breaches_bounded(found@.images);
    Rule::LinkText.lemma_breaches_bounded(found@.links);
    Rule::LazyLoading.lemma_breaches_bounded(found@.images);
    Rule::Contrast.lemma_breaches_bounded(found@.styled);
    Rule::ScriptLoading.lemma_breaches_bounded(found@.head_scripts);
    Rule::ImageSize.lemma_breaches_bounded(found@.images);
    lemma_unlabelled_bounded(found@.inputs, found@.labels);
}

/// Whether one of `elements` has the attribute `name`.
pub fn any_has(elements: &[Element], name: &str) -> (any: bool)
    ensures
        any == some_has(views(elements@), name@),
{
    let mut i: usize = 0;
    while i < elements.len()
        invariant
            i <= elements.len(),
            forall|j: int| 0 <= j < i ==> (#[trigger] views(elements@)[j]).attr(name@) is None,
        decreases elements.len() - i,
    {
        assert(views(elements@)[i as int] == elements@[i as int]@);
        if elements[i].attr(name).is_some() {
            return true;
        }
        i += 1;
    }
    false
}

/// How many of `elements` have `value` as their attribute `name`.
pub fn count_with_value(elements: &[Element], name: &str, value: &str) -> (n: usize)
    ensures
        n == with_value(views(elements@), name@, value@),
{
    let ghost all = views(elements@);
    let mut n: usize = 0;
    let mut i: usize = 0;
    while i < elements.len()
        invariant
            i <= elements.len(),
            all == views(elements@),
            n == with_value(all.take(i as int), name@, value@),
            n <= i,
        decreases elements.len() - i,
    {
        assert(all.take(i + 1).drop_last() == all.take(i as int));
        match elements[i].attr(name) {
            Some(found) => {
                if same_text(found, value) {
                    n += 1;
                }
            },
            None => {},
        }
        i += 1;
    }
    assert(all.take(i as int) == all);
    n
}

/// Applies the rules to what the queries found.
pub fn evaluate(found: &Selections) -> (result: ScanResult)
    ensures
        result == report(found@),
        is_exact(result, found@),
{
    let inputs_without_label = count_inaccessible(
        found.inputs.as_slice(),
        found.labels.as_slice(),
    );
    let textareas_without_label = count_inaccessible(
        found.textareas.as_slice(),
        found.labels.as_slice(),
    );
    let selects_without_label = count_inaccessible(
        found.selects.as_slice(),
        found.labels.as_slice(),
    );
    ScanResult {
        has_title: found.titles.len() == 1,
        has_meta_description: found.descriptions.len() > 0,
        has_lang: any_has(found.roots.as_slice(), "lang"),
        h1_count: found.headings.len(),
        img_missing_alt: Rule::Alt.count(found.images.as_slice()),
        weak_links: Rule::LinkText.count(found.links.as_slice()),
        inputs_without_label,
        has_main_or_nav: found.mains.len() > 0 || found.navs.len() > 0,
        has_duplicate_title: found.titles.len() > 1 || count_with_value(
            found.metas.as_slice(),
            "name",
            "description",
        ) > 1,
        images_without_lazy: Rule::LazyLoading.count(found.images.as_slice()),
        low_contrast_count: Rule::Contrast.count(found.styled.as_slice()),
        inaccessible_form_fields: inputs_without_label.saturating_add(
            textareas_without_label,
        ).saturating_add(selects_without_label),
        has_viewport: found.viewports.len() > 0,
        has_canonical: found.canonicals.len() > 0,
        blocking_scripts: Rule::ScriptLoading.count(found.head_scripts.as_slice()),
        heavy_images: Rule::ImageSize.count(found.images.as_slice()),
    }
}

/// The elements that `pattern` matches in the document written in
/// `text`. It has a meaning where the pattern compiles.
pub open spec fn matches(text: Seq<char>, pattern: Seq<char>) -> Seq<ElementView> {
    selected(parsed(text), compiled(pattern)->0)
}

/// What the queries of a scan find in the document written in `text`.
pub open spec fn found_in(text: Seq<char>) -> SelectionsView {
    SelectionsView {
        titles: matches(text, "title"@),
        descriptions: matches(text, "meta[name='description']"@),
        headings: matches(text, "h1"@),
        images: matches(text, "img"@),
        links: matches(text, "a"@),
        inputs: matches(text, "input"@),
        textareas: matches(text, "textarea"@),
        selects: matches(text, "select"@),
        labels: matches(text, "label"@),
        roots: matches(text, "html"@),
        mains: matches(text, "main"@),
        navs: matches(text, "nav"@),
        metas: matches(text, "meta"@),
        viewports: matches(text, "meta[name='viewport']"@),
        canonicals: matches(text, "link[rel='canonical']"@),
        head_scripts: matches(text, "head script"@),
        styled: matches(text, "[style]"@),
    }
}

/// Every pattern of a scan compiles.
pub open spec fn patterns_compile() -> bool {
    &&& compiled("title"@) is Some
    &&& compiled("meta[name='description']"@) is Some
    &&& compiled("h1"@) is Some
    &&& compiled("img"@) is Some
    &&& compiled("a"@) is Some
    &&& compiled("input"@) is Some
    &&& compiled("textarea"@) is Some
    &&& compiled("select"@) is Some
    &&& compiled("label"@) is Some
    &&& compiled("html"@) is Some
    &&& compiled("main"@) is Some
    &&& compiled("nav"@) is Some
    &&& compiled("meta"@) is Some
    &&& compiled("meta[name='viewport']"@) is Some
    &&& compiled("link[rel='canonical']"@) is Some
    &&& compiled("head script"@) is Some
    &&& compiled("[style]"@) is Some
}

/// The patterns of a scan, compiled. One scanner serves any number of
/// documents.
pub struct Scanner {
    title: Selector,
    description: Selector,
    heading: Selector,
    image: Selector,
    link: Selector,
    input: Selector,
    textarea: Selector,
    select: Selector,
    label: Selector,
    root: Selector,
    main: Selector,
    nav: Selector,
    meta: Selector,
    viewport: Selector,
    canonical: Selector,
    head_script: Selector,
    styled: Selector,
}

impl Scanner {
    /// Each selector is what its pattern compiles to.
    #[verifier::type_invariant]
    spec fn holds_compiled_patterns(self) -> bool {
        &&& compiled("title"@) == Some(self.title)
        &&& compiled("meta[name='description']"@) == Some(self.description)
        &&& compiled("h1"@) == Some(self.heading)
        &&& compiled("img"@) == Some(self.image)
        &&& compiled("a"@) == Some(self.link)
        &&& compiled("input"@) == Some(self.input)
        &&& compiled("textarea"@) == Some(self.textarea)
        &&& compiled("select"@) == Some(self.select)
        &&& compiled("label"@) == Some(self.label)
        &&& compiled("html"@) == Some(self.root)
        &&& compiled("main"@) == Some(self.main)
        &&& compiled("nav"@) == Some(self.nav)
        &&& compiled("meta"@) == Some(self.meta)
        &&& compiled("meta[name='viewport']"@) == Some(self.viewport)
        &&& compiled("link[rel='canonical']"@) == Some(self.canonical)
        &&& compiled("head script"@) == Some(self.head_script)
        &&& compiled("[style]"@) == Some(self.styled)
    }

    /// Compiles the patterns. `None` where one of them does not compile.
    pub fn new() -> (scanner: Option<Scanner>)
        ensures
            scanner is Some <==> patterns_compile(),
    {
        Some(
            Scanner {
                title: compile("title")?,
                description: compile("meta[name='description']")?,
                heading: compile("h1")?,
                image: compile("img")?,
                link: compile("a")?,
                input: compile("input")?,
                textarea: compile("textarea")?,
                select: compile("select")?,
                label: compile("label")?,
                root: compile("html")?,
                main: compile("main")?,
                nav: compile("nav")?,
                meta: compile("meta")?,
                viewport: compile("meta[name='viewport']")?,
                canonical: compile("link[rel='canonical']")?,
                head_script: compile("head script")?,
                styled: compile("[style]")?,
            },
        )
    }

    /// Parses a document and runs the queries of a scan on it.
    pub fn query(&self, html: &str) -> (found: Selections)
        ensures
            found@ == found_in(html@),
    {
        proof {
            use_type_invariant(self);
        }
        let document = parse_document(html);
        Selections {
            titles: select(&document, &self.title),
            descriptions: select(&document, &self.description),
            headings: select(&document, &self.heading),
            images: select(&document, &self.image),
            links: select(&document, &self.link),
            inputs: select(&document, &self.input),
            textareas: select(&document, &self.textarea),
            selects: select(&document, &self.select),
            labels: select(&document, &self.label),
            roots: select(&document, &self.root),
            mains: select(&document, &self.main),
            navs: select(&document, &self.nav),
            metas: select(&document, &self.meta),
            viewports: select(&document, &self.viewport),
            canonicals: select(&document, &self.canonical),
            head_scripts: select(&document, &self.head_script),
            styled: select(&document, &self.styled),
        }
    }

    /// Scans one document.
    pub fn scan(&self, html: &str) -> (result: ScanResult)
        ensures
            result == report(found_in(html@)),
            is_exact(result, found_in(html@)),
    {
        let found = self.query(html);
        evaluate(&found)
    }
}

/// Whether `result` is what a scan of the document written in `text`
/// gives: the record of what the queries find in it, or `None` where a
/// pattern of the scan does not compile.
pub open spec fn is_scan_of(result: Option<ScanResult>, text: Seq<char>) -> bool {
    match result {
        Some(record) => patterns_compile() && record == report(found_in(text)) && is_exact(
            record,
            found_in(text),
        ),
        None => !patterns_compile(),
    }
}

/// Scans one document. `None` where a pattern of the scan does not
/// compile; the document has no part in that.
pub fn scan_html(html: &str) -> (result: Option<ScanResult>)
    ensures
        is_scan_of(result, html@),
{
    match Scanner::new() {
        Some(scanner) => Some(scanner.scan(html)),
        None => None,
    }
}

/// Two scans of one text give the same record, field for field.
pub proof fn lemma_scan_is_repeatable(
    text: Seq<char>,
    first: Option<ScanResult>,
    second: Option<ScanResult>,
)
    requires
        is_scan_of(first, text),
        is_scan_of(second, text),
    ensures
        first == second,
{
}

} // verus!
