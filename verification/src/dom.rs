//! The parsed page. Parsing HTML and matching CSS selectors is the `scraper`
//! crate's work; this module declares its two types and gives each call that
//! the extractors make a contract over a named result.

use scraper::{ElementRef, Html};
use vstd::prelude::*;

verus! {

/// Finds the element that holds all others of a parsed page.
pub const SELECT_ROOT: &'static str = "html";

#[verifier::external_type_specification]
#[verifier::external_body]
pub struct ExHtml(scraper::Html);

#[verifier::external_type_specification]
#[verifier::external_body]
pub struct ExElementRef<'a>(scraper::ElementRef<'a>);

/// The tree that `scraper::Html::parse_document` builds from `text`.
pub uninterp spec fn document_of(text: Seq<char>) -> Html;

/// The tree that `scraper::Html::parse_fragment` builds from `text`.
pub uninterp spec fn fragment_of(text: Seq<char>) -> Html;

/// The elements that `scraper::Html::select` yields for `selector`, in its
/// order. `None` where `scraper::Selector::parse` rejects `selector`.
pub uninterp spec fn selected_in_page(page: &Html, selector: Seq<char>) -> Option<
    Seq<ElementRef>,
>;

/// The descendants of `scope` that `scraper::ElementRef::select` yields for
/// `selector`, in its order. `None` where `scraper::Selector::parse` rejects
/// `selector`.
pub uninterp spec fn selected_in(scope: ElementRef, selector: Seq<char>) -> Option<
    Seq<ElementRef>,
>;

/// The value that `scraper::ElementRef::attr` returns for the attribute `name`.
pub uninterp spec fn attribute_of(element: ElementRef, name: Seq<char>) -> Option<Seq<char>>;

/// The text nodes that `scraper::ElementRef::text` yields, in its order.
pub uninterp spec fn texts_of(element: ElementRef) -> Seq<Seq<char>>;

/// The markup that `scraper::ElementRef::html` returns: the element with its
/// own tags.
pub uninterp spec fn markup_of(element: ElementRef) -> Seq<char>;

/// The markup that `scraper::ElementRef::inner_html` returns: what stands
/// between the element's tags.
pub uninterp spec fn inner_markup_of(element: ElementRef) -> Seq<char>;

/// The parent of `element` where that is an element itself.
pub uninterp spec fn parent_of(element: ElementRef) -> Option<ElementRef>;

/// Calls `scraper::Html::parse_document`, which accepts any text.
#[verifier::external_body]
pub(crate) fn parse_document(text: &str) -> (r: Html)
    ensures
        r == document_of(text@),
{
    Html::parse_document(text)
}

/// Calls `scraper::Html::parse_fragment`, which accepts any text.
#[verifier::external_body]
pub(crate) fn parse_fragment(text: &str) -> (r: Html)
    ensures
        r == fragment_of(text@),
{
    Html::parse_fragment(text)
}

/// Parses `selector` with `scraper::Selector::parse` and collects what
/// `scraper::Html::select` yields.
#[verifier::external_body]
pub(crate) fn select_in_page<'a>(page: &'a Html, selector: &str) -> (r: Option<Vec<ElementRef<'a>>>)
    ensures
        match r {
            Some(found) => selected_in_page(page, selector@) == Some(found@),
            None => selected_in_page(page, selector@) is None,
        },
{
    match scraper::Selector::parse(selector) {
        Ok(compiled) => Some(page.select(&compiled).collect()),
        Err(_) => None,
    }
}

/// Parses `selector` with `scraper::Selector::parse` and collects what
/// `scraper::ElementRef::select` yields.
#[verifier::external_body]
pub(crate) fn select<'a>(scope: ElementRef<'a>, selector: &str) -> (r: Option<Vec<ElementRef<'a>>>)
    ensures
        match r {
            Some(found) => selected_in(scope, selector@) == Some(found@),
            None => selected_in(scope, selector@) is None,
        },
{
    match scraper::Selector::parse(selector) {
        Ok(compiled) => Some(scope.select(&compiled).collect()),
        Err(_) => None,
    }
}

/// Calls `scraper::ElementRef::attr`.
#[verifier::external_body]
pub(crate) fn attribute(element: ElementRef, name: &str) -> (r: Option<String>)
    ensures
        r.deep_view() == attribute_of(element, name@),
{
    element.attr(name).map(|value| value.to_string())
}

/// Collects what `scraper::ElementRef::text` yields.
#[verifier::external_body]
pub(crate) fn texts(element: ElementRef) -> (r: Vec<String>)
    ensures
        r.deep_view() == texts_of(element),
{
    element.text().map(|chunk| chunk.to_string()).collect()
}

/// Calls `scraper::ElementRef::html`.
#[verifier::external_body]
pub(crate) fn markup(element: ElementRef) -> (r: String)
    ensures
        r@ == markup_of(element),
{
    element.html()
}

/// Calls `scraper::ElementRef::inner_html`.
#[verifier::external_body]
pub(crate) fn inner_markup(element: ElementRef) -> (r: String)
    ensures
        r@ == inner_markup_of(element),
{
    element.inner_html()
}

/// Calls `ego_tree::NodeRef::parent` on the element's node and keeps the
/// parent where `scraper::ElementRef::wrap` accepts it.
#[verifier::external_body]
pub(crate) fn parent_element<'a>(element: ElementRef<'a>) -> (r: Option<ElementRef<'a>>)
    ensures
        r == parent_of(element),
{
    element.parent().and_then(ElementRef::wrap)
}

/// The first element that `selector` finds below `scope`.
pub open spec fn first_selected(scope: ElementRef, selector: Seq<char>) -> Option<ElementRef> {
    match selected_in(scope, selector) {
        Some(found) => if found.len() > 0 {
            Some(found[0])
        } else {
            None
        },
        None => None,
    }
}

/// The first element that `selector` finds in `page`.
pub open spec fn first_selected_in_page(page: &Html, selector: Seq<char>) -> Option<ElementRef> {
    match selected_in_page(page, selector) {
        Some(found) => if found.len() > 0 {
            Some(found[0])
        } else {
            None
        },
        None => None,
    }
}

/// The element that holds all others of a parsed page: its `html` element.
/// A tree without one has no root.
pub open spec fn root_of(page: &Html) -> Option<ElementRef> {
    first_selected_in_page(page, SELECT_ROOT@)
}

/// The first text node below `element`.
pub open spec fn first_text_of(element: ElementRef) -> Option<Seq<char>> {
    if texts_of(element).len() > 0 {
        Some(texts_of(element)[0])
    } else {
        None
    }
}

/// The first element that `selector` finds below `scope`.
pub fn select_first<'a>(scope: ElementRef<'a>, selector: &str) -> (r: Option<ElementRef<'a>>)
    ensures
        r == first_selected(scope, selector@),
{
    match select(scope, selector) {
        Some(found) => if found.len() > 0 {
            Some(found[0])
        } else {
            None
        },
        None => None,
    }
}

/// The first element that `selector` finds in `page`.
pub fn select_first_in_page<'a>(page: &'a Html, selector: &str) -> (r: Option<ElementRef<'a>>)
    ensures
        r == first_selected_in_page(page, selector@),
{
    match select_in_page(page, selector) {
        Some(found) => if found.len() > 0 {
            Some(found[0])
        } else {
            None
        },
        None => None,
    }
}

/// The `html` element of a parsed page.
pub fn root_element<'a>(page: &'a Html) -> (r: Option<ElementRef<'a>>)
    ensures
        r == root_of(page),
{
    select_first_in_page(page, SELECT_ROOT)
}

/// The first text node below `element`.
pub fn first_text(element: ElementRef) -> (r: Option<String>)
    ensures
        r.deep_view() == first_text_of(element),
{
    let mut all = texts(element);
    if all.len() > 0 {
        Some(all.swap_remove(0))
    } else {
        None
    }
}

/// The attribute `name` of the first element that `selector` finds below
/// `scope`.
pub open spec fn selected_attribute_of(
    scope: ElementRef,
    selector: Seq<char>,
    name: Seq<char>,
) -> Option<Seq<char>> {
    match first_selected(scope, selector) {
        Some(found) => attribute_of(found, name),
        None => None,
    }
}

/// The first text node of the first element that `selector` finds below
/// `scope`.
pub open spec fn selected_text_of(scope: ElementRef, selector: Seq<char>) -> Option<Seq<char>> {
    match first_selected(scope, selector) {
        Some(found) => first_text_of(found),
        None => None,
    }
}

/// What stands between the tags of the first element that `selector` finds
/// below `scope`.
pub open spec fn selected_inner_markup_of(scope: ElementRef, selector: Seq<char>) -> Option<
    Seq<char>,
> {
    match first_selected(scope, selector) {
        Some(found) => Some(inner_markup_of(found)),
        None => None,
    }
}

/// The attribute `name` of the first element that `selector` finds below
/// `scope`.
pub fn selected_attribute(scope: ElementRef, selector: &str, name: &str) -> (r: Option<String>)
    ensures
        r.deep_view() == selected_attribute_of(scope, selector@, name@),
{
    match select_first(scope, selector) {
        Some(found) => attribute(found, name),
        None => None,
    }
}

/// The first text node of the first element that `selector` finds below
/// `scope`.
pub fn selected_text(scope: ElementRef, selector: &str) -> (r: Option<String>)
    ensures
        r.deep_view() == selected_text_of(scope, selector@),
{
    match select_first(scope, selector) {
        Some(found) => first_text(found),
        None => None,
    }
}

/// What stands between the tags of the first element that `selector` finds
/// below `scope`.
pub fn selected_inner_markup(scope: ElementRef, selector: &str) -> (r: Option<String>)
    ensures
        r.deep_view() == selected_inner_markup_of(scope, selector@),
{
    match select_first(scope, selector) {
        Some(found) => Some(inner_markup(found)),
        None => None,
    }
}

} // verus!
