//! The boundary to the HTML engine.  Parsing a document and selecting
//! with a CSS selector, and flattening a fragment to its text content,
//! are deterministic functions of their string inputs; each is given a
//! name here and performed by the outside crate behind a trusted wrapper.

use vstd::prelude::*;

verus! {

/// The inner markup of each element of `doc` matching the CSS selector
/// `selector`, in document order.
pub uninterp spec fn selected_inner_htmls(doc: Seq<char>, selector: Seq<char>) -> Seq<Seq<char>>;

/// The concatenated text content of the HTML fragment `html`, all tags
/// discarded.
pub uninterp spec fn stripped_text(html: Seq<char>) -> Seq<char>;

/// Whether the HTML engine accepts a string as a CSS selector.
/// Acceptance is a function of the selector string alone.
pub uninterp spec fn selector_ok(selector: Seq<char>) -> bool;

/// Relies on scraper's `Selector::parse`, `Html::parse_document`,
/// `Html::select` and `ElementRef::inner_html`: whether a selector string
/// parses depends on that string alone, and parsing a fixed document and
/// applying a fixed accepted selector is deterministic, yielding the
/// matching elements' inner markup in document order.  Returns `None`
/// exactly when the engine refuses the selector string.
#[verifier::external_body]
pub(crate) fn select_inners(doc: &str, selector: &str) -> (r: Option<Vec<String>>)
    ensures
        r is Some <==> selector_ok(selector@),
        r matches Some(v) ==> v.deep_view() == selected_inner_htmls(doc@, selector@),
{
    let sel = match scraper::Selector::parse(selector) {
        Ok(sel) => sel,
        Err(_) => return None,
    };
    let document = scraper::Html::parse_document(doc);
    Some(document.select(&sel).map(|x| x.inner_html()).collect())
}

/// Relies on scraper's `Html::parse_fragment` and `ElementRef::text`: the
/// text content of a fragment, tags discarded, is a function of the
/// fragment alone.
#[verifier::external_body]
pub(crate) fn strip_html_tags(html_snippet: &str) -> (r: String)
    ensures
        r@ == stripped_text(html_snippet@),
{
    let fragment = scraper::Html::parse_fragment(html_snippet);
    fragment.root_element().text().collect::<String>()
}

} // verus!
