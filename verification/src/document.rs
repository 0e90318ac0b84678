//! From a fetched document to the fragment that is served: the markup of
//! the document's body, with its references rewritten for the address the
//! document was fetched from.

use crate::location::{
    get_base_url_and_path, located, parsed_url, DocumentLocation, LocateError, Location,
};
use crate::rewrite::{rewrite, rewritten_markup};
use vstd::prelude::*;

verus! {

/// What a selector finds in a document.
#[derive(Debug)]
pub enum Selection {
    /// The selector is no valid selector.
    Rejected,
    /// No element of the document matches.
    Nothing,
    /// The markup of the first element that matches, the element included.
    Markup(String),
}

/// What a selector finds in a document, as a sequence of characters.
pub enum Selected {
    Rejected,
    Nothing,
    Markup(Seq<char>),
}

impl View for Selection {
    type V = Selected;

    open spec fn view(&self) -> Selected {
        match self {
            Selection::Rejected => Selected::Rejected,
            Selection::Nothing => Selected::Nothing,
            Selection::Markup(markup) => Selected::Markup(markup@),
        }
    }
}

/// What scraper finds for `selector` in the HTML document `document`: the
/// serialised markup of the first element, in document order, that matches.
pub uninterp spec fn first_selected(document: Seq<char>, selector: Seq<char>) -> Selected;

/// Parses `selector` with `scraper::Selector::parse` and `document` with
/// `scraper::Html::parse_document`, and serialises the first element that
/// `Html::select` yields with `ElementRef::html`. The contract only names
/// that outcome. It is a function of the two texts: parsing reads nothing
/// else, and with scraper's `deterministic` feature the attributes of an
/// element are kept, and written, in the order of the source.
#[verifier::external_body]
fn select_first(document: &str, selector: &str) -> (found: Selection)
    ensures
        found@ == first_selected(document@, selector@),
{
    match scraper::Selector::parse(selector) {
        Err(_) => Selection::Rejected,
        Ok(parsed) => match scraper::Html::parse_document(document).select(&parsed).next() {
            Some(element) => Selection::Markup(element.html()),
            None => Selection::Nothing,
        },
    }
}

/// The markup that is rewritten: what was selected, or nothing at all.
pub open spec fn markup_of(found: Selected) -> Seq<char> {
    match found {
        Selected::Markup(markup) => markup,
        _ => Seq::empty(),
    }
}

/// The location to rewrite for: the one that was found, or the empty
/// origin and the empty path where none was.
pub open spec fn location_or_empty(location: Option<Location>) -> Location {
    match location {
        Some(location) => location,
        None => Location { origin: Seq::empty(), path: Seq::empty() },
    }
}

/// The fragment served for the body markup `markup` of a document located
/// at `location`.
pub open spec fn fragment(markup: Seq<char>, location: Option<Location>) -> Seq<char> {
    rewritten_markup(
        markup,
        location_or_empty(location).origin,
        location_or_empty(location).path,
    )
}

/// The location that locating gave, if it gave one.
pub open spec fn found_location(location: Result<DocumentLocation, LocateError>) -> Option<
    Location,
> {
    match location {
        Ok(location) => Some(location@),
        Err(_) => None,
    }
}

/// The markup to rewrite for what was found: the markup that was selected,
/// and the empty markup where nothing was.
pub fn selected_markup(found: Selection) -> (markup: String)
    ensures
        markup@ == markup_of(found@),
{
    match found {
        Selection::Markup(markup) => markup,
        _ => String::new(),
    }
}

/// The markup of the `body` element of the HTML document `text`; empty
/// where the document yields none.
pub fn body_markup(text: &str) -> (body: String)
    ensures
        body@ == markup_of(first_selected(text@, "body"@)),
{
    selected_markup(select_first(text, "body"))
}

/// Rewrites the references of `body` for a document at `location`. Where
/// the document could not be located, the references are resolved against
/// the empty origin and the empty path: the result is degraded, but the
/// markup is still served.
pub fn rewrite_located(body: &str, location: &Result<DocumentLocation, LocateError>) -> (out:
    String)
    ensures
        out@ == fragment(body@, found_location(*location)),
{
    match location {
        Ok(found) => rewrite(body, found.origin.as_str(), found.path.as_str()),
        Err(_) => {
            let empty = String::new();
            rewrite(body, empty.as_str(), empty.as_str())
        },
    }
}

/// The fragment to serve for the HTML document `text` that was fetched
/// from `url`: the markup of its body, with the references in images,
/// links and backgrounds made absolute.
pub fn rewrite_document(text: &str, url: &str) -> (out: String)
    ensures
        out@ == fragment(markup_of(first_selected(text@, "body"@)), located(parsed_url(url@))),
{
    let body = body_markup(text);
    let location = get_base_url_and_path(url);
    rewrite_located(body.as_str(), &location)
}

} // verus!
