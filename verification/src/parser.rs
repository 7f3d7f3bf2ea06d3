//! Link extraction: from the text of a fetched document to the absolute
//! http and https URLs that its anchors point to.

use vstd::prelude::*;

use crate::address::{url_join, Url, UrlView};
use crate::crawler::{texts, CrawlerError, CrawlerResult, Page};

verus! {

/// The values that the elements of an HTML document matching a CSS selector
/// have for one attribute, as the `scraper` crate finds them: `None` where it
/// refuses the selector, else one entry per matching element, in the order in
/// which it yields them, `None` for an element without the attribute.
pub uninterp spec fn selected_attributes(
    document: Seq<char>,
    selector: Seq<char>,
    attribute: Seq<char>,
) -> Option<Seq<Option<Seq<char>>>>;

/// The text of an optional string.
pub open spec fn optional_text(item: Option<String>) -> Option<Seq<char>> {
    match item {
        Some(s) => Some(s@),
        None => None,
    }
}

/// The texts of a list of optional strings.
pub open spec fn optional_texts(items: Seq<Option<String>>) -> Seq<Option<Seq<char>>> {
    items.map_values(|item: Option<String>| optional_text(item))
}

/// The view of an optional URL.
pub open spec fn optional_url(item: Option<Url>) -> Option<UrlView> {
    match item {
        Some(u) => Some(u@),
        None => None,
    }
}

/// The views of a list of optional URLs.
pub open spec fn optional_urls(items: Seq<Option<Url>>) -> Seq<Option<UrlView>> {
    items.map_values(|item: Option<Url>| optional_url(item))
}

/// Parses `selector` with `scraper::Selector::parse` and `document` with
/// `scraper::Html::parse_document`, walks the matches of `Html::select`, and
/// copies out what `Element::attr` gives for `attribute` on each. Trusted:
/// the outcome is `selected_attributes` of the three strings.
#[verifier::external_body]
fn select_attribute(document: &str, selector: &str, attribute: &str) -> (r: Option<
    Vec<Option<String>>,
>)
    ensures
        match r {
            Some(values) => selected_attributes(document@, selector@, attribute@) == Some(
                optional_texts(values@),
            ),
            None => selected_attributes(document@, selector@, attribute@) is None,
        },
{
    let selector = scraper::Selector::parse(selector).ok()?;
    let html = scraper::Html::parse_document(document);
    Some(html.select(&selector).map(|e| e.value().attr(attribute).map(|v| v.to_string())).collect())
}

/// Whether a scheme is one the crawler follows.
pub open spec fn is_web_scheme(scheme: Seq<char>) -> bool {
    scheme == "http"@ || scheme == "https"@
}

/// The text of a resolved link, if the link resolved and is one to follow.
pub open spec fn web_link(resolved: Option<UrlView>) -> Option<Seq<char>> {
    match resolved {
        Some(u) => if is_web_scheme(u.scheme) {
            Some(u.text)
        } else {
            None
        },
        None => None,
    }
}

/// The links to follow among the outcomes of resolving a document's anchors:
/// the texts of those that resolved to an http or https URL, in order.
pub open spec fn web_links(resolved: Seq<Option<UrlView>>) -> Seq<Seq<char>> {
    resolved.filter_map(|r: Option<UrlView>| web_link(r))
}

/// The outcome of resolving one anchor target against `base`.
pub open spec fn join_one(base: Seq<char>, href: Option<Seq<char>>) -> Option<UrlView> {
    match href {
        Some(reference) => url_join(base, reference),
        None => None,
    }
}

/// The outcomes of resolving each anchor target against `base`.
pub open spec fn join_all(base: Seq<char>, hrefs: Seq<Option<Seq<char>>>) -> Seq<Option<UrlView>> {
    hrefs.map_values(|href: Option<Seq<char>>| join_one(base, href))
}

/// The links of a document fetched from `base`: `None` where extraction
/// fails, else the http and https URLs that its anchors resolve to.
pub open spec fn extracted_links(base: Seq<char>, content: Seq<char>) -> Option<Seq<Seq<char>>> {
    match selected_attributes(content, "a[href]"@, "href"@) {
        Some(hrefs) => Some(web_links(join_all(base, hrefs))),
        None => None,
    }
}

/// The values of `attribute` on the elements of `document` that match the
/// CSS selector `selector`, one entry per element in the order in which the
/// elements are found, `None` for an element without the attribute. A
/// selector that cannot be parsed is an extraction failure.
pub fn attribute_values(document: &str, selector: &str, attribute: &str) -> (r: CrawlerResult<
    Vec<Option<String>>,
>)
    ensures
        match r {
            Ok(values) => selected_attributes(document@, selector@, attribute@) == Some(
                optional_texts(values@),
            ),
            Err(e) => selected_attributes(document@, selector@, attribute@) is None
                && e is ExtractionFailed,
        },
{
    match select_attribute(document, selector, attribute) {
        Some(values) => Ok(values),
        None => Err(CrawlerError::ExtractionFailed),
    }
}

/// Tells whether `url` has a scheme the crawler follows.
pub fn is_web_url(url: &Url) -> (r: bool)
    ensures
        r == is_web_scheme(url@.scheme),
{
    let scheme: String = url.scheme().to_owned();
    scheme == "http".to_owned() || scheme == "https".to_owned()
}

/// From the outcomes of resolving a document's anchors, the links to follow.
pub fn keep_web_links(resolved: &Vec<Option<Url>>) -> (links: Vec<String>)
    ensures
        texts(links@) == web_links(optional_urls(resolved@)),
{
    let ghost outcomes = optional_urls(resolved@);
    let ghost pick = |r: Option<UrlView>| web_link(r);
    let mut links: Vec<String> = Vec::new();
    let mut i: usize = 0;
    assert(outcomes.take(0) =~= Seq::empty());
    while i < resolved.len()
        invariant
            i <= resolved.len(),
            outcomes == optional_urls(resolved@),
            pick == |r: Option<UrlView>| web_link(r),
            texts(links@) == outcomes.take(i as int).filter_map(pick),
        decreases resolved.len() - i,
    {
        proof {
            outcomes.lemma_filter_map_take_succ(pick, i as int);
        }
        let ghost before = links@;
        match &resolved[i] {
            Some(url) => {
                if is_web_url(url) {
                    links.push(url.as_str().to_owned());
                    assert(texts(links@) =~= texts(before) + seq![url@.text]);
                }
            },
            None => {},
        }
        i += 1;
    }
    assert(outcomes.take(resolved.len() as int) =~= outcomes);
    links
}

/// Resolves each anchor target against `base`.
pub fn resolve_all(base: &Url, hrefs: &Vec<Option<String>>) -> (resolved: Vec<Option<Url>>)
    ensures
        optional_urls(resolved@) == join_all(base@.text, optional_texts(hrefs@)),
{
    let mut resolved: Vec<Option<Url>> = Vec::new();
    let mut i: usize = 0;
    while i < hrefs.len()
        invariant
            i <= hrefs.len(),
            resolved.len() == i,
            forall|j: int|
                0 <= j < i ==> optional_url(#[trigger] resolved@[j]) == join_one(
                    base@.text,
                    optional_text(hrefs@[j]),
                ),
        decreases hrefs.len() - i,
    {
        let outcome: Option<Url> = match &hrefs[i] {
            Some(href) => match base.join(href.as_str()) {
                Ok(url) => Some(url),
                Err(_) => None,
            },
            None => None,
        };
        resolved.push(outcome);
        i += 1;
    }
    assert(optional_urls(resolved@) =~= join_all(base@.text, optional_texts(hrefs@)));
    resolved
}

/// The link extractor.
#[derive(Debug)]
pub struct Parser;

impl Parser {
    pub fn new() -> (r: Self) {
        Parser
    }

    /// Makes the page of a document fetched from `url` at `depth`: the
    /// document itself and the http and https URLs that its anchors resolve
    /// to, in document order. Malformed and missing anchor targets are
    /// passed over.
    pub fn parse(&self, url: &Url, content: String, depth: usize) -> (r: CrawlerResult<Page>)
        ensures
            match r {
                Ok(page) => {
                    &&& extracted_links(url@.text, content@) == Some(page@.links)
                    &&& page@.url == url@
                    &&& page@.depth == depth
                    &&& page@.content == content@
                },
                Err(e) => extracted_links(url@.text, content@) is None && e is ExtractionFailed,
            },
    {
        match attribute_values(content.as_str(), "a[href]", "href") {
            Ok(hrefs) => {
                let resolved = resolve_all(url, &hrefs);
                let links = keep_web_links(&resolved);
                Ok(Page { url: url.clone(), depth, content, links })
            },
            Err(e) => Err(e),
        }
    }
}

} // verus!
