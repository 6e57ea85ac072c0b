//! Markup extraction over an index page's HTML, through the `soup` parser.
//!
//! What either query returns is a pure function of the markup alone, far too
//! large to state, so each result is given a name that the callers' contracts
//! speak of exactly. A page missing the expected markup yields an empty
//! extraction, never an error.

use vstd::prelude::*;
use soup::{NodeExt, QueryBuilderExt, Soup};

verus! {

/// The `href` bytes, in document order, of every anchor element in `html`
/// that carries the `cached` marker class.
pub uninterp spec fn cached_hrefs_of(html: Seq<char>) -> Seq<Seq<u8>>;

/// The `href` bytes of the first anchor element in `html` whose `id`
/// attribute equals `top_earlier`, if any: the path of the earlier page.
pub uninterp spec fn next_href_of(html: Seq<char>) -> Option<Seq<u8>>;

/// Relies on soup's tag/class query: parses `html` and collects, in document
/// order, the `href` attribute of every `<a>` element whose class list holds
/// `cached`. A pure function of the markup alone.
#[verifier::external_body]
pub(crate) fn extract_cached_hrefs(html: &str) -> (r: Vec<Vec<u8>>)
    ensures
        r.deep_view() == cached_hrefs_of(html@),
{
    Soup::new(html)
        .tag("a")
        .class("cached")
        .recursive(true)
        .find_all()
        .filter_map(|element| element.get("href"))
        .map(|href| href.into_bytes())
        .collect()
}

/// Relies on soup's tag/attr query: parses `html` and takes the `href`
/// attribute of the first `<a>` element whose `id` is `top_earlier`, if one
/// is there. A pure function of the markup alone.
#[verifier::external_body]
pub(crate) fn extract_next_href(html: &str) -> (r: Option<Vec<u8>>)
    ensures
        r.deep_view() == next_href_of(html@),
{
    Soup::new(html)
        .tag("a")
        .attr("id", "top_earlier")
        .recursive(true)
        .find()
        .and_then(|element| element.get("href"))
        .map(|href| href.into_bytes())
}

} // verus!
