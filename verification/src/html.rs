//! HTML parsing and CSS selection, done by the `scraper` crate.
//!
//! A parsed document is kept together with the text it was parsed from, and a
//! compiled selector together with the text that spells it. An element is
//! spoken of by its number: its place among the nodes of the document in
//! document order, the root being node 0. So everything that `scraper` finds is
//! a function of texts and numbers, and has a name in contracts.

use crate::dom::Node;
use vstd::prelude::*;

verus! {

/// `scraper::Html`, a parsed document. Nothing inside it is visible here.
#[verifier::external_type_specification]
#[verifier::external_body]
pub struct ExHtml(scraper::Html);

/// `scraper::Selector`, a compiled group of CSS selectors. Nothing inside it is
/// visible here.
#[verifier::external_type_specification]
#[verifier::external_body]
pub struct ExSelector(scraper::Selector);

/// A document as `parse_document` has parsed it. To a contract it is the text
/// that it was parsed from.
pub struct Page<'a> {
    text: &'a str,
    html: scraper::Html,
}

impl<'a> View for Page<'a> {
    type V = Seq<char>;

    closed spec fn view(&self) -> Seq<char> {
        self.text@
    }
}

/// A selector group as `compile_selector` has compiled it. To a contract it is
/// the text that spells it.
pub struct Css<'a> {
    text: &'a str,
    selector: scraper::Selector,
}

impl<'a> View for Css<'a> {
    type V = Seq<char>;

    closed spec fn view(&self) -> Seq<char> {
        self.text@
    }
}

/// Whether `Selector::parse` accepts `css` as a selector group.
pub uninterp spec fn selector_compiles(css: Seq<char>) -> bool;

/// The number of the first element that `Html::select` yields for the selector
/// group `css` in the document parsed from `document`. `None` where it yields no
/// element, or one that is not below the root and so has no number.
pub uninterp spec fn first_selected(document: Seq<char>, css: Seq<char>) -> Option<usize>;

/// The numbers of the elements that `ElementRef::select` yields for the selector
/// group `css` on the element `scope` of the document parsed from `document`: the
/// descendants of `scope` that match, in document order. Empty where node `scope`
/// is no element.
pub uninterp spec fn selected_below(document: Seq<char>, scope: usize, css: Seq<char>) -> Seq<
    usize,
>;

/// The text nodes below the element `node` of the document parsed from
/// `document`, as `ElementRef::text` yields them, concatenated. `None` where node
/// `node` is no element.
pub uninterp spec fn text_below(document: Seq<char>, node: usize) -> Option<Seq<char>>;

/// The value that `ElementRef::attr` gives for the attribute `name` of the
/// element `node` of the document parsed from `document`. `None` where the
/// element has no such attribute and where node `node` is no element.
pub uninterp spec fn attribute(document: Seq<char>, node: usize, name: Seq<char>) -> Option<
    Seq<char>,
>;

/// The element `node` of the document parsed from `document` with all that is
/// below it, as plain values: its tag name as `Element::name` gives it, its
/// `class` attribute as `Element::attr` gives it, and its children as
/// `NodeRef::children` yields them, a text node with its text, an element in the
/// same way, any other node as `Node::Other`. `None` where node `node` is no
/// element.
pub uninterp spec fn subtree(document: Seq<char>, node: usize) -> Option<Node>;

/// `Html::parse_document`: parses `document` as a whole HTML document. Parsing
/// never fails. The page remembers the text.
#[verifier::external_body]
pub(crate) fn parse_document<'a>(document: &'a str) -> (page: Page<'a>)
    ensures
        page@ == document@,
{
    Page { text: document, html: scraper::Html::parse_document(document) }
}

/// `Selector::parse`: the selector group that `css` spells, or `None` where
/// `css` is no selector group. The compiled selector remembers the text.
#[verifier::external_body]
pub(crate) fn compile_selector<'a>(css: &'a str) -> (compiled: Option<Css<'a>>)
    ensures
        compiled is Some <==> selector_compiles(css@),
        compiled matches Some(selector) ==> selector@ == css@,
{
    scraper::Selector::parse(css).ok().map(|selector| Css { text: css, selector })
}

/// The first element that `Html::select` yields for `css`, by its number.
#[verifier::external_body]
pub(crate) fn first_in_document(page: &Page, css: &Css) -> (found: Option<usize>)
    ensures
        found == first_selected(page@, css@),
{
    let found = page.html.select(&css.selector).next()?;
    page.html.tree.root().descendants().position(|node| node == *found)
}

/// All elements that `ElementRef::select` yields for `css` on the element
/// `scope`, by their numbers.
#[verifier::external_body]
pub(crate) fn select_in_element(page: &Page, scope: usize, css: &Css) -> (found: Vec<usize>)
    ensures
        found@ == selected_below(page@, scope, css@),
{
    let nodes = page.html.tree.root().descendants();
    let scope = nodes.clone().nth(scope).and_then(scraper::ElementRef::wrap);
    scope.map_or(Vec::new(), |scope| {
        let found = scope.select(&css.selector);
        let numbers = found.map(|one| nodes.clone().position(|node| node == *one));
        numbers.collect::<Option<_>>().unwrap_or_default()
    })
}

/// The text nodes below the element `node` that `ElementRef::text` yields,
/// concatenated.
#[verifier::external_body]
pub(crate) fn element_text(page: &Page, node: usize) -> (text: Option<String>)
    ensures
        text.deep_view() == text_below(page@, node),
{
    let node = page.html.tree.root().descendants().nth(node)?;
    Some(scraper::ElementRef::wrap(node)?.text().collect())
}

/// `ElementRef::attr`: the value of the attribute `name` of the element `node`,
/// if it has one.
#[verifier::external_body]
pub(crate) fn element_attr(page: &Page, node: usize, name: &str) -> (value: Option<String>)
    ensures
        value.deep_view() == attribute(page@, node, name@),
{
    let node = page.html.tree.root().descendants().nth(node)?;
    scraper::ElementRef::wrap(node)?.attr(name).map(|value| value.to_string())
}

/// The element `node` with all that is below it, as plain values: tag name
/// from `Element::name`, `class` attribute from `Element::attr`, children from
/// `NodeRef::children`.
#[verifier::external_body]
pub(crate) fn element_tree(page: &Page, node: usize) -> (tree: Option<Node>)
    ensures
        tree == subtree(page@, node),
{
    let nodes = page.html.tree.root().descendants();
    let element = scraper::ElementRef::wrap(nodes.clone().nth(node)?)?;
    let children = element.children().map(|child| match child.value() {
        scraper::Node::Text(text) => Node::Text(text.to_string()),
        scraper::Node::Element(_) => nodes.clone().position(|node| node == child).and_then(
            |at| element_tree(page, at),
        ).unwrap_or(Node::Other),
        _ => Node::Other,
    });
    let tag = element.value().name().to_string();
    let class = element.value().attr("class").map(|class| class.to_string());
    Some(Node::Element { tag, class, children: children.collect() })
}

} // verus!
