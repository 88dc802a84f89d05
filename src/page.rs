//! What the service reads from a target page: its content identifier.

use vstd::prelude::*;
use crate::fault::Fault;
use crate::text::{opt_view, same_text};

verus! {

/// The selector of the metadata element that carries a page's content
/// identifier.
pub const CONTENT_ID_SELECTOR: &'static str = "meta[name=\"soudan-content-id\"]";

/// The attribute of that element that holds the identifier.
pub const CONTENT_ATTR: &'static str = "content";

/// The value of attribute `attr` on the first element of the HTML document
/// `html` that matches the CSS selector `selector`, if any.
pub uninterp spec fn first_attr_of(html: Seq<char>, selector: Seq<char>, attr: Seq<char>) -> Option<Seq<char>>;

/// Relies on scraper's `Html::parse_document`, `Selector::parse`,
/// `Html::select` and `Element::attr`: the result depends on the three
/// strings alone. A selector that does not parse yields `None`.
#[verifier::external_body]
fn first_attr(html: &str, selector: &str, attr: &str) -> (r: Option<String>)
    ensures
        opt_view(r) == first_attr_of(html@, selector@, attr@),
{
    let document = scraper::Html::parse_document(html);
    let selector = match scraper::Selector::parse(selector) {
        Ok(s) => s,
        Err(_) => return None,
    };
    match document.select(&selector).next() {
        Some(element) => element.value().attr(attr).map(|v| v.to_owned()),
        None => None,
    }
}

/// The details a page states about itself in its metadata.
pub struct PageData {
    pub content_id: String,
}

/// The content identifier that the page `html` declares.
pub open spec fn declared_id(html: Seq<char>) -> Option<Seq<char>> {
    first_attr_of(html, CONTENT_ID_SELECTOR@, CONTENT_ATTR@)
}

impl PageData {
    /// The page data of a fetched document; `None` when it lacks the
    /// content identifier marker.
    pub fn from_html(html: &str) -> (r: Option<PageData>)
        ensures
            match r {
                Some(d) => declared_id(html@) == Some(d.content_id@),
                None => declared_id(html@) is None,
            },
    {
        match first_attr(html, CONTENT_ID_SELECTOR, CONTENT_ATTR) {
            Some(id) => Some(PageData { content_id: id }),
            None => None,
        }
    }
}

/// The verdict on a fetched page for a comment on `content_id`: a fetch
/// error is an upstream failure, no data (a non-success status or a missing
/// marker) an invalid URL, and a different identifier a mismatch.
pub fn check_page(fetched: &Result<Option<PageData>, ()>, content_id: &str) -> (r: Result<(), Fault>)
    ensures
        match fetched {
            Err(_) => r == Err::<(), Fault>(Fault::FetchFailed),
            Ok(None) => r == Err::<(), Fault>(Fault::InvalidUrl),
            Ok(Some(d)) => if d.content_id@ == content_id@ {
                r == Ok::<(), Fault>(())
            } else {
                r == Err::<(), Fault>(Fault::ContentMismatch)
            },
        },
{
    match fetched {
        Err(_) => Err(Fault::FetchFailed),
        Ok(None) => Err(Fault::InvalidUrl),
        Ok(Some(d)) => {
            if same_text(d.content_id.as_str(), content_id) {
                Ok(())
            } else {
                Err(Fault::ContentMismatch)
            }
        },
    }
}

} // verus!
