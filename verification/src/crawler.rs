//! The crawler: its configuration, its errors, its data, and the steps by
//! which a caller drives it.
//!
//! A [`Crawler`] decides; it does not fetch. The caller gives it a seed with
//! [`Crawler::crawl`], then asks [`Crawler::next_action`] what to do. When
//! told to dispatch a task it fetches the task's URL, in whatever way and
//! with whatever concurrency it likes, and reports the result to
//! [`Crawler::complete`]. When told that the crawl is done it takes the pages
//! with [`Crawler::pages`].

use std::collections::VecDeque;
use vstd::prelude::*;

use crate::address::{url_parse, Url, UrlView};
use crate::frontier::{
    child_tasks, first_at, is_first_at, lemma_first_at_found, lemma_first_at_missing,
    lemma_fresh_coherent, lemma_next_coherent, lemma_seeded_coherent, lemma_settled_coherent,
    parsed_links, ActionView, CrawlView,
};
use crate::parser::{extracted_links, Parser};
use crate::storage::{page_views, pages_on_host, urls_distinct, Storage};

verus! {

/// Why a crawl, or one unit of its work, failed.
#[derive(Debug)]
pub enum CrawlerError {
    /// A transfer failed; the text describes the failure.
    NetworkError(String),
    /// A string is not an absolute URL.
    UrlParseError(url::ParseError),
    /// Reading or writing failed; the text describes the failure.
    IoError(String),
    /// A task lies deeper than the configured depth.
    MaxDepthReached,
    /// A host has reached its page limit; the text names the host.
    RateLimitExceeded(String),
    /// The link extractor could not work on a document.
    ExtractionFailed,
}

pub type CrawlerResult<T> = Result<T, CrawlerError>;

/// The settings of one crawl. They are read when the crawl starts and never
/// change afterwards.
#[derive(Debug)]
pub struct CrawlerConfig {
    /// The greatest number of link hops from the seed at which a page is fetched.
    pub max_depth: usize,
    /// How many pages one host may contribute; at least 1.
    pub max_pages_per_domain: usize,
    /// Reserved; the crawl does not act on it.
    pub respect_robots_txt: bool,
    /// How many fetches may run at once; at least 1.
    pub concurrent_requests: usize,
    /// The user agent that fetches announce.
    pub user_agent: String,
    /// The least time, in milliseconds, between two requests to one host.
    pub delay_ms: u64,
}

impl CrawlerConfig {
    /// The limits are in the ranges a crawl can work with.
    pub open spec fn is_valid(&self) -> bool {
        self.max_pages_per_domain >= 1 && self.concurrent_requests >= 1
    }

    /// Tells whether the limits are in the ranges a crawl can work with.
    pub fn check(&self) -> (r: bool)
        ensures
            r == self.is_valid(),
    {
        self.max_pages_per_domain >= 1 && self.concurrent_requests >= 1
    }
}

impl Default for CrawlerConfig {
    fn default() -> (r: Self)
        ensures
            r.max_depth == 3,
            r.max_pages_per_domain == 100,
            r.respect_robots_txt,
            r.concurrent_requests == 5,
            r.user_agent@ == "WebCrawlerRust/0.1.0"@,
            r.delay_ms == 1000,
    {
        CrawlerConfig {
            max_depth: 3,
            max_pages_per_domain: 100,
            respect_robots_txt: true,
            concurrent_requests: 5,
            user_agent: "WebCrawlerRust/0.1.0".to_owned(),
            delay_ms: 1000,
        }
    }
}

impl Clone for CrawlerConfig {
    fn clone(&self) -> (r: Self)
        ensures
            r == *self,
    {
        CrawlerConfig {
            max_depth: self.max_depth,
            max_pages_per_domain: self.max_pages_per_domain,
            respect_robots_txt: self.respect_robots_txt,
            concurrent_requests: self.concurrent_requests,
            user_agent: self.user_agent.clone(),
            delay_ms: self.delay_ms,
        }
    }
}

/// A URL waiting to be fetched, with its distance from the seed.
#[derive(Debug)]
pub struct CrawlTask {
    pub url: Url,
    pub depth: usize,
}

/// A `CrawlTask` in specifications.
pub ghost struct TaskView {
    pub url: UrlView,
    pub depth: nat,
}

impl View for CrawlTask {
    type V = TaskView;

    open spec fn view(&self) -> TaskView {
        TaskView { url: self.url@, depth: self.depth as nat }
    }
}

impl Clone for CrawlTask {
    fn clone(&self) -> (r: Self)
        ensures
            r@ == self@,
    {
        CrawlTask { url: self.url.clone(), depth: self.depth }
    }
}

/// Why a task was taken off the queue without being fetched.
#[derive(Debug, Clone, Copy, PartialEq, Eq, Structural)]
pub enum SkipReason {
    /// It lies deeper than the greatest depth.
    TooDeep,
    /// Its URL was visited before.
    AlreadyVisited,
    /// Its host already has as many pages as a host may have.
    DomainFull,
}

/// A fetched document: where it was found, how far from the seed, its text,
/// and the absolute http and https links found in it.
#[derive(Debug)]
pub struct Page {
    pub url: Url,
    pub depth: usize,
    pub content: String,
    pub links: Vec<String>,
}

/// A `Page` in specifications.
pub ghost struct PageView {
    pub url: UrlView,
    pub depth: nat,
    pub content: Seq<char>,
    pub links: Seq<Seq<char>>,
}

/// The texts of a list of strings.
pub open spec fn texts(strings: Seq<String>) -> Seq<Seq<char>> {
    strings.map_values(|s: String| s@)
}

impl View for Page {
    type V = PageView;

    open spec fn view(&self) -> PageView {
        PageView {
            url: self.url@,
            depth: self.depth as nat,
            content: self.content@,
            links: texts(self.links@),
        }
    }
}

/// Copies a list of strings.
fn clone_strings(strings: &Vec<String>) -> (r: Vec<String>)
    ensures
        texts(r@) == texts(strings@),
{
    let mut copy: Vec<String> = Vec::new();
    let mut i: usize = 0;
    while i < strings.len()
        invariant
            i <= strings.len(),
            copy.len() == i,
            forall|j: int| 0 <= j < i ==> copy@[j]@ == strings@[j]@,
        decreases strings.len() - i,
    {
        copy.push(strings[i].clone());
        i += 1;
    }
    assert(texts(copy@) =~= texts(strings@));
    copy
}

impl Clone for Page {
    fn clone(&self) -> (r: Self)
        ensures
            r@ == self@,
    {
        Page {
            url: self.url.clone(),
            depth: self.depth,
            content: self.content.clone(),
            links: clone_strings(&self.links),
        }
    }
}

/// What the crawler tells its caller to do next.
#[derive(Debug)]
pub enum CrawlAction {
    /// Fetch the URL of the given task and report the result.
    Dispatch(CrawlTask),
    /// The given task was dropped for the reason given; nothing is to be done.
    Skip(CrawlTask, SkipReason),
    /// Wait for a running fetch to end and report it.
    Wait,
    /// The crawl is over.
    Done,
}

impl View for CrawlAction {
    type V = ActionView;

    open spec fn view(&self) -> ActionView {
        match self {
            CrawlAction::Dispatch(task) => ActionView::Dispatch(task@),
            CrawlAction::Skip(task, reason) => ActionView::Skip(task@, *reason),
            CrawlAction::Wait => ActionView::Wait,
            CrawlAction::Done => ActionView::Done,
        }
    }
}

/// How the report of a fetch was taken.
#[derive(Debug, Clone, Copy, PartialEq, Eq, Structural)]
pub enum Outcome {
    /// The URL was not being fetched; the report changed nothing.
    NotInFlight,
    /// The task ended without a page.
    Failed,
    /// The task's page was stored.
    Stored,
}

/// The views of a list of tasks.
pub open spec fn task_views(tasks: Seq<CrawlTask>) -> Seq<TaskView> {
    tasks.map_values(|t: CrawlTask| t@)
}

/// The views of a list of URLs.
pub open spec fn url_views(urls: Seq<Url>) -> Seq<UrlView> {
    urls.map_values(|u: Url| u@)
}

/// The view of an optional page.
pub open spec fn optional_page(page: Option<Page>) -> Option<PageView> {
    match page {
        Some(p) => Some(p@),
        None => None,
    }
}

/// The document of a fetch that succeeded.
pub open spec fn fetched_text(fetched: CrawlerResult<String>) -> Option<Seq<char>> {
    match fetched {
        Ok(content) => Some(content@),
        Err(_) => None,
    }
}

/// Parses each link and keeps the URLs of those that parse.
pub fn parse_links(links: &Vec<String>) -> (urls: Vec<Url>)
    ensures
        url_views(urls@) == parsed_links(texts(links@)),
{
    let ghost all = texts(links@);
    let ghost pick = |link: Seq<char>| url_parse(link);
    let mut urls: Vec<Url> = Vec::new();
    let mut i: usize = 0;
    assert(all.take(0) =~= Seq::empty());
    while i < links.len()
        invariant
            i <= links.len(),
            all == texts(links@),
            pick == |link: Seq<char>| url_parse(link),
            url_views(urls@) == all.take(i as int).filter_map(pick),
        decreases links.len() - i,
    {
        proof {
            all.lemma_filter_map_take_succ(pick, i as int);
        }
        let ghost before = urls@;
        match Url::parse(links[i].as_str()) {
            Ok(url) => {
                urls.push(url);
                assert(url_views(urls@) =~= url_views(before) + seq![url@]);
            },
            Err(_) => {},
        }
        i += 1;
    }
    assert(all.take(links.len() as int) =~= all);
    urls
}

/// The tasks that the links of a page at `depth` give rise to.
fn child_queue(children: &Vec<Url>, depth: usize) -> (tasks: VecDeque<CrawlTask>)
    requires
        depth < usize::MAX,
    ensures
        task_views(tasks@) == child_tasks(url_views(children@), depth as nat),
{
    let mut tasks: VecDeque<CrawlTask> = VecDeque::new();
    let mut i: usize = 0;
    while i < children.len()
        invariant
            i <= children.len(),
            depth < usize::MAX,
            tasks@.len() == i,
            forall|j: int|
                0 <= j < i ==> (#[trigger] tasks@[j])@ == (TaskView {
                    url: children@[j]@,
                    depth: (depth + 1) as nat,
                }),
        decreases children.len() - i,
    {
        tasks.push_back(CrawlTask { url: children[i].clone(), depth: depth + 1 });
        i += 1;
    }
    assert(task_views(tasks@) =~= child_tasks(url_views(children@), depth as nat));
    tasks
}

/// The decisions of one crawl.
pub struct Crawler {
    config: CrawlerConfig,
    parser: Parser,
    storage: Storage,
    queue: VecDeque<CrawlTask>,
    in_flight: Vec<CrawlTask>,
}

impl View for Crawler {
    type V = CrawlView;

    closed spec fn view(&self) -> CrawlView {
        CrawlView {
            max_depth: self.config.max_depth as nat,
            max_pages: self.config.max_pages_per_domain as nat,
            slots: self.config.concurrent_requests as nat,
            queue: task_views(self.queue@),
            in_flight: task_views(self.in_flight@),
            visited: self.storage@.visited,
            pages: self.storage@.pages,
        }
    }
}

impl Crawler {
    /// The configuration that the crawler was made with.
    pub closed spec fn settings(&self) -> CrawlerConfig {
        self.config
    }

    /// The crawler's state is one that its own steps can have led to.
    pub closed spec fn wf(&self) -> bool {
        &&& self.storage.wf()
        &&& self@.coherent()
    }

    /// A crawler that has not been given a seed.
    pub fn new(config: CrawlerConfig) -> (r: Self)
        requires
            config.is_valid(),
        ensures
            r.wf(),
            r.settings() == config,
            r@ == CrawlView::fresh(
                config.max_depth as nat,
                config.max_pages_per_domain as nat,
                config.concurrent_requests as nat,
            ),
    {
        let r = Crawler {
            config,
            parser: Parser::new(),
            storage: Storage::new(),
            queue: VecDeque::new(),
            in_flight: Vec::new(),
        };
        proof {
            assert(r@.queue =~= Seq::empty());
            assert(r@.in_flight =~= Seq::empty());
            lemma_fresh_coherent(r@.max_depth, r@.max_pages, r@.slots);
        }
        r
    }

    /// Puts `seed` on the queue at depth 0.
    pub fn enqueue(&mut self, seed: Url)
        requires
            old(self).wf(),
        ensures
            final(self).wf(),
            final(self).settings() == old(self).settings(),
            final(self)@ == old(self)@.seeded(seed@),
    {
        self.queue.push_back(CrawlTask { url: seed, depth: 0 });
        proof {
            assert(self@.queue =~= old(self)@.queue.push(TaskView { url: seed@, depth: 0 }));
            lemma_seeded_coherent(old(self)@, seed@);
        }
    }

    /// Starts a crawl at `start_url`: the URL is parsed and put on the queue
    /// at depth 0. A string that is not an absolute URL is refused, and the
    /// crawler is left as it was.
    pub fn crawl(&mut self, start_url: &str) -> (r: CrawlerResult<()>)
        requires
            old(self).wf(),
        ensures
            final(self).wf(),
            final(self).settings() == old(self).settings(),
            match r {
                Ok(_) => url_parse(start_url@) matches Some(seed) && final(self)@ == old(
                    self,
                )@.seeded(seed),
                Err(e) => url_parse(start_url@) is None && e is UrlParseError && final(self)@
                    == old(self)@,
            },
    {
        match Url::parse(start_url) {
            Ok(seed) => {
                self.enqueue(seed);
                Ok(())
            },
            Err(e) => Err(e),
        }
    }

    /// Takes the next decision: see [`CrawlView::next`].
    pub fn next_action(&mut self) -> (action: CrawlAction)
        requires
            old(self).wf(),
        ensures
            final(self).wf(),
            final(self).settings() == old(self).settings(),
            (final(self)@, action@) == old(self)@.next(),
    {
        proof {
            lemma_next_coherent(self@);
        }
        if self.in_flight.len() >= self.config.concurrent_requests {
            return CrawlAction::Wait;
        }
        match self.queue.pop_front() {
            None => {
                if self.in_flight.len() == 0 {
                    CrawlAction::Done
                } else {
                    CrawlAction::Wait
                }
            },
            Some(task) => {
                assert(task@ == old(self)@.queue.first());
                assert(self@.queue =~= old(self)@.queue.drop_first());
                if task.depth > self.config.max_depth {
                    CrawlAction::Skip(task, SkipReason::TooDeep)
                } else if !self.storage.mark_visited(&task.url) {
                    assert(self@.visited =~= old(self)@.visited);
                    CrawlAction::Skip(task, SkipReason::AlreadyVisited)
                } else {
                    let full: bool = match task.url.host_str() {
                        Some(host) => self.storage.domain_page_count(host)
                            >= self.config.max_pages_per_domain,
                        None => false,
                    };
                    assert(full == old(self)@.host_is_full(task@.url.host));
                    if full {
                        assert(self@.visited =~= old(self)@.visited.insert(task@.url.text));
                        CrawlAction::Skip(task, SkipReason::DomainFull)
                    } else {
                        self.in_flight.push(task.clone());
                        assert(self@.visited =~= old(self)@.visited.insert(task@.url.text));
                        assert(self@.in_flight =~= old(self)@.in_flight.push(task@));
                        CrawlAction::Dispatch(task)
                    }
                }
            },
        }
    }

    /// The slot in which `url` is being fetched, if it is.
    fn find_in_flight(&self, url: &Url) -> (r: Option<usize>)
        ensures
            match r {
                Some(i) => first_at(self@.in_flight, url@.text) == Some(i as int) && i
                    < self.in_flight@.len(),
                None => first_at(self@.in_flight, url@.text) is None,
            },
    {
        let mut i: usize = 0;
        while i < self.in_flight.len()
            invariant
                i <= self.in_flight.len(),
                forall|j: int| 0 <= j < i ==> (#[trigger] self@.in_flight[j]).url.text != url@.text,
            decreases self.in_flight.len() - i,
        {
            if self.in_flight[i].url.same_as(url) {
                proof {
                    assert(self@.in_flight[i as int] == self.in_flight@[i as int]@);
                    assert(is_first_at(self@.in_flight, url@.text, i as int));
                    lemma_first_at_found(self@.in_flight, url@.text, i as int);
                }
                return Some(i);
            }
            assert(self@.in_flight[i as int] == self.in_flight@[i as int]@);
            i += 1;
        }
        proof {
            lemma_first_at_missing(self@.in_flight, url@.text);
        }
        None
    }

    /// Takes the end of the fetch of `url`, given the page that it produced,
    /// if any, and the URLs that the page's links parsed to: see
    /// [`CrawlView::settled`]. The page is stored under the URL and the depth
    /// of the task that it answers.
    pub fn record(&mut self, url: &Url, page: Option<Page>, children: Vec<Url>) -> (outcome:
        Outcome)
        requires
            old(self).wf(),
        ensures
            final(self).wf(),
            final(self).settings() == old(self).settings(),
            final(self)@ == old(self)@.settled(
                url@.text,
                optional_page(page),
                url_views(children@),
            ),
            outcome == if first_at(old(self)@.in_flight, url@.text) is None {
                Outcome::NotInFlight
            } else if page is Some {
                Outcome::Stored
            } else {
                Outcome::Failed
            },
    {
        proof {
            lemma_settled_coherent(
                self@,
                url@.text,
                optional_page(page),
                url_views(children@),
            );
        }
        match self.find_in_flight(url) {
            None => Outcome::NotInFlight,
            Some(i) => {
                let task = self.in_flight.remove(i);
                assert(task@ == old(self)@.in_flight[i as int]);
                assert(self@.in_flight =~= old(self)@.in_flight.remove(i as int));
                match page {
                    None => Outcome::Failed,
                    Some(p) => {
                        let depth: usize = task.depth;
                        self.storage.store_page(
                            Page { url: task.url, depth, content: p.content, links: p.links },
                        );
                        if depth < self.config.max_depth {
                            let mut tasks = child_queue(&children, depth);
                            self.queue.append(&mut tasks);
                            assert(self@.queue =~= old(self)@.queue + child_tasks(
                                url_views(children@),
                                depth as nat,
                            ));
                        }
                        Outcome::Stored
                    },
                }
            },
        }
    }

    /// Takes the end of the fetch of `url`: the document that was fetched, or
    /// the error that the fetch ended in. See [`CrawlView::completed`].
    pub fn complete(&mut self, url: &Url, fetched: CrawlerResult<String>) -> (outcome: Outcome)
        requires
            old(self).wf(),
        ensures
            final(self).wf(),
            final(self).settings() == old(self).settings(),
            final(self)@ == old(self)@.completed(url@.text, fetched_text(fetched)),
            outcome == match first_at(old(self)@.in_flight, url@.text) {
                None => Outcome::NotInFlight,
                Some(i) => match fetched {
                    Ok(content) => if extracted_links(
                        old(self)@.in_flight[i].url.text,
                        content@,
                    ) is Some {
                        Outcome::Stored
                    } else {
                        Outcome::Failed
                    },
                    Err(_) => Outcome::Failed,
                },
            },
    {
        match self.find_in_flight(url) {
            None => Outcome::NotInFlight,
            Some(i) => {
                match fetched {
                    Err(_) => self.record(url, None, Vec::new()),
                    Ok(content) => {
                        let task = &self.in_flight[i];
                        assert(task@ == self@.in_flight[i as int]);
                        match self.parser.parse(&task.url, content, task.depth) {
                            Err(_) => self.record(url, None, Vec::new()),
                            Ok(page) => {
                                let children = parse_links(&page.links);
                                self.record(url, Some(page), children)
                            },
                        }
                    },
                }
            },
        }
    }

    /// Tells whether the crawl is over: nothing queued, nothing being fetched.
    pub fn is_done(&self) -> (r: bool)
        ensures
            r == self@.drained(),
    {
        self.queue.len() == 0 && self.in_flight.len() == 0
    }

    /// A copy of the pages stored so far, oldest first. No two of them have
    /// the same URL, none lies deeper than the greatest depth, and no host
    /// has more of them than its limit and the fetches that may run beside
    /// the one that reaches the limit.
    pub fn pages(&self) -> (r: Vec<Page>)
        requires
            self.wf(),
        ensures
            page_views(r@) == self@.pages,
            r@.len() == self@.pages.len(),
            forall|i: int| 0 <= i < r@.len() ==> (#[trigger] r@[i])@ == self@.pages[i],
            urls_distinct(page_views(r@)),
            forall|i: int|
                0 <= i < r@.len() ==> (#[trigger] r@[i]).depth <= self.settings().max_depth,
            forall|host: Seq<char>|
                #[trigger] pages_on_host(page_views(r@), host)
                    <= self.settings().max_pages_per_domain + self.settings().concurrent_requests
                    - 1,
    {
        let r = self.storage.get_pages();
        proof {
            assert forall|i: int| 0 <= i < r@.len() implies (#[trigger] r@[i]).depth
                <= self.settings().max_depth by {
                assert(page_views(r@)[i] == r@[i]@);
            }
        }
        r
    }

    /// The store of visited URLs and pages.
    pub fn storage(&self) -> (r: &Storage)
        ensures
            r@.visited == self@.visited,
            r@.pages == self@.pages,
            self.wf() ==> r.wf(),
    {
        &self.storage
    }

    /// The configuration.
    pub fn config(&self) -> (r: &CrawlerConfig)
        ensures
            *r == self.settings(),
    {
        &self.config
    }
}

} // verus!
