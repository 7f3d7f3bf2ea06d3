//! The store of a crawl: the URLs already visited, the pages fetched so far,
//! and how many pages each host has contributed.

use vstd::prelude::*;
use vstd::hash_map::StringHashMap;

use crate::address::Url;
use crate::crawler::{Page, PageView};
use crate::tally::{lemma_occurrences_bound, lemma_occurrences_push, occurrences};

verus! {

/// Makes `dashmap::DashSet` known to the verifier as a type of which
/// nothing is known but what the functions below say.
#[verifier::external_type_specification]
#[verifier::external_body]
#[verifier::reject_recursive_types(K)]
#[verifier::reject_recursive_types(S)]
pub struct ExDashSet<K, S>(dashmap::DashSet<K, S>);

/// The texts of the strings that a `DashSet` holds: what `DashSet::contains`
/// finds in it.
pub uninterp spec fn set_texts(set: dashmap::DashSet<String>) -> Set<Seq<char>>;

/// Calls `DashSet::new`. Trusted: the new set holds nothing.
#[verifier::external_body]
fn visited_new() -> (set: dashmap::DashSet<String>)
    ensures
        set_texts(set) == Set::<Seq<char>>::empty(),
{
    dashmap::DashSet::new()
}

/// Calls `DashSet::contains`. Trusted: it tells whether the set holds a
/// string with the text of `key`.
#[verifier::external_body]
fn visited_contains(set: &dashmap::DashSet<String>, key: &str) -> (found: bool)
    ensures
        found == set_texts(*set).contains(key@),
{
    set.contains(key)
}

/// Calls `DashSet::insert`. Trusted: afterwards the set holds what it held
/// and the text of `key`, and the result tells whether that text was missing
/// before.
#[verifier::external_body]
fn visited_insert(set: &mut dashmap::DashSet<String>, key: String) -> (added: bool)
    ensures
        set_texts(*final(set)) == set_texts(*old(set)).insert(key@),
        added == !set_texts(*old(set)).contains(key@),
{
    set.insert(key)
}

/// The hosts of a list of pages, in order.
pub open spec fn page_hosts(pages: Seq<PageView>) -> Seq<Option<Seq<char>>> {
    pages.map_values(|p: PageView| p.url.host)
}

/// How many of `pages` lie on `host`.
pub open spec fn pages_on_host(pages: Seq<PageView>, host: Seq<char>) -> nat {
    occurrences(page_hosts(pages), Some(host))
}

/// No two pages have the same URL.
pub open spec fn urls_distinct(pages: Seq<PageView>) -> bool {
    forall|i: int, j: int|
        0 <= i < j < pages.len() ==> (#[trigger] pages[i]).url.text != (
        #[trigger] pages[j]).url.text
}

/// The views of a list of pages.
pub open spec fn page_views(pages: Seq<Page>) -> Seq<PageView> {
    pages.map_values(|p: Page| p@)
}

/// What marking `url` does to a visited set: the set afterwards, and whether
/// this marking was the first.
pub open spec fn mark(visited: Set<Seq<char>>, url: Seq<char>) -> (Set<Seq<char>>, bool) {
    (visited.insert(url), !visited.contains(url))
}

/// Marking is idempotent: the first marking of a URL tells whether the URL
/// was new, a second marking of the same URL says that it was not, and leaves
/// the set as the first left it.
pub proof fn lemma_mark_twice(visited: Set<Seq<char>>, url: Seq<char>)
    ensures
        ({
            let (once, first) = mark(visited, url);
            let (twice, second) = mark(once, url);
            &&& first == !visited.contains(url)
            &&& !second
            &&& twice == once
        }),
{
    assert(visited.insert(url).insert(url) =~= visited.insert(url));
}

/// A `Storage` in specifications.
pub ghost struct StorageView {
    /// The texts of the visited URLs.
    pub visited: Set<Seq<char>>,
    /// The stored pages, oldest first.
    pub pages: Seq<PageView>,
}

/// The visited URLs, the stored pages and the page count of each host.
pub struct Storage {
    visited_urls: dashmap::DashSet<String>,
    pages: Vec<Page>,
    pages_per_domain: StringHashMap<usize>,
}

impl View for Storage {
    type V = StorageView;

    closed spec fn view(&self) -> StorageView {
        StorageView { visited: set_texts(self.visited_urls), pages: page_views(self.pages@) }
    }
}

impl Storage {
    /// The count that the store keeps for `host`.
    spec fn kept_count(&self, host: Seq<char>) -> nat {
        if self.pages_per_domain@.contains_key(host) {
            self.pages_per_domain@[host] as nat
        } else {
            0
        }
    }

    /// The count kept for each host is the number of stored pages on it.
    pub closed spec fn wf(&self) -> bool {
        forall|host: Seq<char>| #[trigger] self.kept_count(host) == pages_on_host(self@.pages, host)
    }

    /// An empty store.
    pub fn new() -> (r: Self)
        ensures
            r.wf(),
            r@.visited == Set::<Seq<char>>::empty(),
            r@.pages == Seq::<PageView>::empty(),
    {
        let r = Storage {
            visited_urls: visited_new(),
            pages: Vec::new(),
            pages_per_domain: StringHashMap::new(),
        };
        assert(r@.pages =~= Seq::<PageView>::empty());
        assert(page_hosts(r@.pages) =~= Seq::empty());
        r
    }

    /// Tells whether `url` has been marked.
    pub fn is_visited(&self, url: &Url) -> (r: bool)
        ensures
            r == self@.visited.contains(url@.text),
    {
        visited_contains(&self.visited_urls, url.as_str())
    }

    /// Marks `url` as visited and tells whether this call was the first to do so.
    pub fn mark_visited(&mut self, url: &Url) -> (r: bool)
        ensures
            (final(self)@.visited, r) == mark(old(self)@.visited, url@.text),
            final(self)@.pages == old(self)@.pages,
            old(self).wf() ==> final(self).wf(),
    {
        let added = visited_insert(&mut self.visited_urls, url.as_str().to_owned());
        assert forall|host: Seq<char>| old(self).wf() implies #[trigger] self.kept_count(host)
            == pages_on_host(self@.pages, host) by {
            assert(self.kept_count(host) == old(self).kept_count(host));
        }
        added
    }

    /// Appends `page` to the stored pages and counts it for its host.
    pub fn store_page(&mut self, page: Page)
        requires
            old(self).wf(),
        ensures
            final(self).wf(),
            final(self)@.pages == old(self)@.pages.push(page@),
            final(self)@.visited == old(self)@.visited,
            forall|host: Seq<char>|
                #[trigger] pages_on_host(final(self)@.pages, host) == pages_on_host(
                    old(self)@.pages,
                    host,
                ) + if page@.url.host == Some(host) {
                    1nat
                } else {
                    0nat
                },
    {
        let host: Option<String> = match page.url.host_str() {
            Some(h) => Some(h.to_owned()),
            None => None,
        };
        let ghost before = self@.pages;
        self.pages.push(page);
        proof {
            assert(self@.pages =~= before.push(page@));
            assert(page_hosts(self@.pages) =~= page_hosts(before).push(page@.url.host));
            assert forall|h: Seq<char>|
                pages_on_host(self@.pages, h) == pages_on_host(before, h) + if page@.url.host
                    == Some(h) {
                    1nat
                } else {
                    0nat
                } by {
                lemma_occurrences_push(page_hosts(before), page@.url.host, Some(h));
            }
        }
        match host {
            Some(name) => {
                let count: usize = match self.pages_per_domain.get(name.as_str()) {
                    Some(c) => *c,
                    None => 0,
                };
                proof {
                    assert(count == old(self).kept_count(name@));
                    lemma_occurrences_bound(page_hosts(before), Some(name@));
                    assert(count <= before.len() < self.pages.len() <= usize::MAX);
                }
                let ghost key = name@;
                self.pages_per_domain.insert(name, count + 1);
                assert forall|h: Seq<char>| #[trigger]
                    self.kept_count(h) == pages_on_host(self@.pages, h) by {
                    if h == key {
                    } else {
                        assert(self.kept_count(h) == old(self).kept_count(h));
                    }
                }
            },
            None => {
                assert forall|h: Seq<char>| #[trigger]
                    self.kept_count(h) == pages_on_host(self@.pages, h) by {
                    assert(self.kept_count(h) == old(self).kept_count(h));
                }
            },
        }
    }

    /// The number of stored pages on `domain`.
    pub fn domain_page_count(&self, domain: &str) -> (r: usize)
        requires
            self.wf(),
        ensures
            r == pages_on_host(self@.pages, domain@),
    {
        assert(self.kept_count(domain@) == pages_on_host(self@.pages, domain@));
        match self.pages_per_domain.get(domain) {
            Some(c) => *c,
            None => 0,
        }
    }

    /// A copy of the stored pages, oldest first.
    pub fn get_pages(&self) -> (r: Vec<Page>)
        ensures
            page_views(r@) == self@.pages,
            r@.len() == self@.pages.len(),
            forall|i: int| 0 <= i < r@.len() ==> (#[trigger] r@[i])@ == self@.pages[i],
    {
        let mut copy: Vec<Page> = Vec::new();
        let mut i: usize = 0;
        while i < self.pages.len()
            invariant
                i <= self.pages.len(),
                copy.len() == i,
                forall|j: int| 0 <= j < i ==> copy@[j]@ == self.pages@[j]@,
            decreases self.pages.len() - i,
        {
            copy.push(self.pages[i].clone());
            i += 1;
        }
        assert(page_views(copy@) =~= self@.pages);
        copy
    }

    /// The number of stored pages.
    pub fn page_count(&self) -> (r: usize)
        ensures
            r == self@.pages.len(),
    {
        self.pages.len()
    }
}

} // verus!
