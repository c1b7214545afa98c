//! The page metadata extractor: the sharing description and thumbnail image
//! of a wiki page, read from its `og:` meta tags.

use vstd::prelude::*;

verus! {

/// Selects the meta tag that carries the page's sharing description.
pub const DESCRIPTION_SELECTOR: &'static str = "meta[property=\"og:description\"]";

/// Selects the meta tag that carries the page's sharing image.
pub const IMAGE_SELECTOR: &'static str = "meta[property=\"og:image\"]";

/// The attribute of a meta tag that holds its value.
pub const CONTENT_ATTRIBUTE: &'static str = "content";

/// The description given when the page has none.
pub const NO_DESCRIPTION: &'static str = "No description found";

/// Whether `Selector::parse` accepts `selector` as a CSS selector list.
pub uninterp spec fn selector_accepted(selector: Seq<char>) -> bool;

/// The value of attribute `attr` on the first element, in document order,
/// that `selector` matches in `html` parsed as a whole document; none when no
/// element matches or the first match lacks the attribute.
pub uninterp spec fn first_attr(html: Seq<char>, selector: Seq<char>, attr: Seq<char>) -> Option<
    Seq<char>,
>;

/// The text of an optional string.
pub open spec fn opt_view(o: Option<String>) -> Option<Seq<char>> {
    match o {
        Some(s) => Some(s@),
        None => None,
    }
}

/// Relies on `Selector::parse`, `Html::parse_document`, `Html::select` and
/// `Element::attr`: parses `selector`, none if it is refused; otherwise the
/// value of `attr` on the first element that it matches in `html`.
#[verifier::external_body]
fn select_first_attr(html: &str, selector: &str, attr: &str) -> (r: Option<Option<String>>)
    ensures
        r is Some <==> selector_accepted(selector@),
        r is Some ==> opt_view(r->0) == first_attr(html@, selector@, attr@),
{
    let sel = match scraper::Selector::parse(selector) {
        Ok(sel) => sel,
        Err(_) => return None,
    };
    let doc = scraper::Html::parse_document(html);
    let found = doc.select(&sel).next().and_then(|e| e.value().attr(attr));
    Some(found.map(|v| v.to_string()))
}

/// What a wiki page shares about itself.
pub struct PageMetadata {
    /// The sharing description, or a fixed text when the page has none.
    pub description: String,
    /// The sharing image's address, if the page names one.
    pub image_url: Option<String>,
}

/// Why a page could not be read.
#[derive(Debug, PartialEq, Eq, Structural)]
pub enum ExtractError {
    /// A meta tag selector was refused by the HTML query engine.
    SelectorRefused,
}

/// The description shown for a page: the one it gives, else the fixed text.
pub open spec fn described(found: Option<Seq<char>>) -> Seq<char> {
    match found {
        Some(d) => d,
        None => NO_DESCRIPTION@,
    }
}

/// Builds the metadata of a page from what its meta tags held.
pub fn metadata_from(description: Option<String>, image: Option<String>) -> (r: PageMetadata)
    ensures
        r.description@ == described(opt_view(description)),
        opt_view(r.image_url) == opt_view(image),
{
    let description = match description {
        Some(d) => d,
        None => String::from_str(NO_DESCRIPTION),
    };
    PageMetadata { description, image_url: image }
}

/// Reads the sharing description and image of the page `html`; each is
/// looked up on its own, so the absence of one leaves the other intact.
pub fn extract(html: &str) -> (r: Result<PageMetadata, ExtractError>)
    ensures
        r is Ok <==> selector_accepted(DESCRIPTION_SELECTOR@) && selector_accepted(
            IMAGE_SELECTOR@,
        ),
        r matches Ok(m) ==> m.description@ == described(
            first_attr(html@, DESCRIPTION_SELECTOR@, CONTENT_ATTRIBUTE@),
        ),
        r matches Ok(m) ==> opt_view(m.image_url) == first_attr(
            html@,
            IMAGE_SELECTOR@,
            CONTENT_ATTRIBUTE@,
        ),
{
    let description = match select_first_attr(html, DESCRIPTION_SELECTOR, CONTENT_ATTRIBUTE) {
        Some(d) => d,
        None => return Err(ExtractError::SelectorRefused),
    };
    let image = match select_first_attr(html, IMAGE_SELECTOR, CONTENT_ATTRIBUTE) {
        Some(i) => i,
        None => return Err(ExtractError::SelectorRefused),
    };
    Ok(metadata_from(description, image))
}

} // verus!
