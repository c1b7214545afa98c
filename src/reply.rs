//! The command's replies: the page address for a search phrase, and the rich
//! reply built once the page has been read.

use vstd::prelude::*;
use crate::normalize::{
    canonical_path, capitalize_all, capitalized_all, join_with, joined, split_words, words,
};
use crate::page::{opt_view, PageMetadata};

verus! {

/// Where the wiki's pages live; a page path is appended to it.
pub const BASE_URL: &'static str = "https://wiki.warframe.com/w/";

/// The reply when the command was given no search phrase.
pub const NO_INPUT: &'static str = "No input provided.";

/// The address of the page for search phrase `query` under `base`.
pub open spec fn page_url(base: Seq<char>, query: Seq<char>) -> Seq<char> {
    base + canonical_path(query)
}

/// The heading for a search phrase: its words capitalized and joined by spaces.
pub open spec fn page_title(query: Seq<char>) -> Seq<char> {
    joined(capitalized_all(words(query)), ' ')
}

/// The address of the page for search phrase `query` under `base`.
pub fn wiki_url(base: &str, query: &str) -> (r: String)
    ensures
        r@ == page_url(base@, query@),
{
    let caps = capitalize_all(&split_words(query));
    let path = join_with(&caps, '_');
    let mut url = String::from_str(base);
    url.append(path.as_str());
    url
}

/// The plain-text reply: the page address under the wiki's base, or a notice
/// that no search phrase was given.
pub fn reply_text(query: Option<&str>) -> (r: String)
    ensures
        query is None ==> r@ == NO_INPUT@,
        query is Some ==> r@ == page_url(BASE_URL@, query->0@),
{
    match query {
        None => String::from_str(NO_INPUT),
        Some(q) => wiki_url(BASE_URL, q),
    }
}

/// What the command does first with its optional search phrase.
pub enum Step {
    /// Send this text and finish.
    Reply(String),
    /// Fetch the page at this address, then reply with [`embed_for`].
    Fetch(String),
}

/// Decides the first step of the command: without a search phrase it answers
/// at once; with one it fetches the phrase's page under `base`.
pub fn start(query: Option<&str>, base: &str) -> (r: Step)
    ensures
        query is None <==> r is Reply,
        r matches Step::Reply(t) ==> t@ == NO_INPUT@,
        r matches Step::Fetch(u) ==> u@ == page_url(base@, query->0@),
{
    match query {
        None => Step::Reply(String::from_str(NO_INPUT)),
        Some(q) => Step::Fetch(wiki_url(base, q)),
    }
}

/// A rich reply: a linked heading, a description and a thumbnail image.
pub struct Embed {
    pub title: String,
    pub url: String,
    pub description: String,
    /// The image's address; empty when the page has none.
    pub thumbnail: String,
}

/// The rich reply for search phrase `query` whose page under `base` was read
/// as `meta`.
pub fn embed_for(query: &str, base: &str, meta: &PageMetadata) -> (r: Embed)
    ensures
        r.title@ == page_title(query@),
        r.url@ == page_url(base@, query@),
        r.description@ == meta.description@,
        r.thumbnail@ == match opt_view(meta.image_url) {
            Some(u) => u,
            None => seq![],
        },
{
    let caps = capitalize_all(&split_words(query));
    let title = join_with(&caps, ' ');
    let path = join_with(&caps, '_');
    let mut url = String::from_str(base);
    url.append(path.as_str());
    let thumbnail = match &meta.image_url {
        Some(u) => u.clone(),
        None => String::new(),
    };
    Embed { title, url, description: meta.description.clone(), thumbnail }
}

} // verus!
