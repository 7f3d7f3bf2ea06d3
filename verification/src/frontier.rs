//! The crawl as a state machine over plain values.
//!
//! A [`CrawlView`] is what a crawler knows at one moment: its limits, the
//! queue of tasks not yet looked at, the tasks being fetched, the URLs
//! already visited and the pages stored. The transitions are what the crawler
//! does when a seed arrives, when it takes the next task off the queue, and
//! when a fetch ends. `coherent` is what all of them keep; the limits that a
//! crawl promises of its pages follow from it.

use vstd::prelude::*;

use crate::address::{url_parse, UrlView};
use crate::crawler::{PageView, SkipReason, TaskView};
use crate::parser::extracted_links;
use crate::storage::{page_hosts, pages_on_host, urls_distinct};
use crate::tally::{
    lemma_occurrences_bound, lemma_occurrences_push, lemma_occurrences_remove, occurrences,
};

verus! {

/// What the crawler decides about the head of its queue.
pub ghost enum ActionView {
    /// The task was admitted and is to be fetched.
    Dispatch(TaskView),
    /// The task was taken off the queue and dropped.
    Skip(TaskView, SkipReason),
    /// Nothing can be done before a fetch ends.
    Wait,
    /// The queue is empty and no fetch is running.
    Done,
}

/// The state of a crawl.
pub ghost struct CrawlView {
    /// The greatest depth at which a page is fetched.
    pub max_depth: nat,
    /// The number of stored pages from which a host is full.
    pub max_pages: nat,
    /// How many fetches may run at once.
    pub slots: nat,
    /// The tasks not yet looked at, next first.
    pub queue: Seq<TaskView>,
    /// The tasks being fetched.
    pub in_flight: Seq<TaskView>,
    /// The texts of the URLs already visited.
    pub visited: Set<Seq<char>>,
    /// The stored pages, oldest first.
    pub pages: Seq<PageView>,
}

/// The hosts of a list of tasks, in order.
pub open spec fn task_hosts(tasks: Seq<TaskView>) -> Seq<Option<Seq<char>>> {
    tasks.map_values(|t: TaskView| t.url.host)
}

/// How many of `tasks` lie on `host`.
pub open spec fn tasks_on_host(tasks: Seq<TaskView>, host: Seq<char>) -> nat {
    occurrences(task_hosts(tasks), Some(host))
}

/// `i` is the first index of `tasks` at which the URL `text` stands.
pub open spec fn is_first_at(tasks: Seq<TaskView>, text: Seq<char>, i: int) -> bool {
    &&& 0 <= i < tasks.len()
    &&& tasks[i].url.text == text
    &&& forall|j: int| 0 <= j < i ==> (#[trigger] tasks[j]).url.text != text
}

/// The first index of `tasks` at which the URL `text` stands, if any.
pub open spec fn first_at(tasks: Seq<TaskView>, text: Seq<char>) -> Option<int>
    decreases tasks.len(),
{
    if tasks.len() == 0 {
        None
    } else if tasks.first().url.text == text {
        Some(0)
    } else {
        match first_at(tasks.drop_first(), text) {
            Some(i) => Some(i + 1),
            None => None,
        }
    }
}

/// The tasks that the links of a page at `depth` give rise to.
pub open spec fn child_tasks(children: Seq<UrlView>, depth: nat) -> Seq<TaskView> {
    children.map_values(|u: UrlView| TaskView { url: u, depth: depth + 1 })
}

/// The URLs among `links` that parse as absolute URLs, in order.
pub open spec fn parsed_links(links: Seq<Seq<char>>) -> Seq<UrlView> {
    links.filter_map(|link: Seq<char>| url_parse(link))
}

impl CrawlView {
    /// A crawl that has not been given a seed.
    pub open spec fn fresh(max_depth: nat, max_pages: nat, slots: nat) -> CrawlView {
        CrawlView {
            max_depth,
            max_pages,
            slots,
            queue: Seq::empty(),
            in_flight: Seq::empty(),
            visited: Set::empty(),
            pages: Seq::empty(),
        }
    }

    /// The crawl after `seed` has been put on the queue at depth 0.
    pub open spec fn seeded(self, seed: UrlView) -> CrawlView {
        CrawlView { queue: self.queue.push(TaskView { url: seed, depth: 0 }), ..self }
    }

    /// Whether `host` has as many stored pages as a host may have. A URL
    /// without a host is never held to the limit.
    pub open spec fn host_is_full(self, host: Option<Seq<char>>) -> bool {
        match host {
            Some(h) => pages_on_host(self.pages, h) >= self.max_pages,
            None => false,
        }
    }

    /// One step of the dispatcher: the state afterwards and the decision.
    ///
    /// While every slot is taken nothing is dequeued. Otherwise the head of
    /// the queue is taken off and tested in this order: is it too deep, was
    /// its URL visited before (it is marked now if not), is its host full.
    /// A task that passes takes a slot.
    pub open spec fn next(self) -> (CrawlView, ActionView) {
        if self.in_flight.len() >= self.slots {
            (self, ActionView::Wait)
        } else if self.queue.len() == 0 {
            if self.in_flight.len() == 0 {
                (self, ActionView::Done)
            } else {
                (self, ActionView::Wait)
            }
        } else {
            let task = self.queue.first();
            let rest = self.queue.drop_first();
            if task.depth > self.max_depth {
                (CrawlView { queue: rest, ..self }, ActionView::Skip(task, SkipReason::TooDeep))
            } else if self.visited.contains(task.url.text) {
                (
                    CrawlView { queue: rest, ..self },
                    ActionView::Skip(task, SkipReason::AlreadyVisited),
                )
            } else if self.host_is_full(task.url.host) {
                (
                    CrawlView {
                        queue: rest,
                        visited: self.visited.insert(task.url.text),
                        ..self
                    },
                    ActionView::Skip(task, SkipReason::DomainFull),
                )
            } else {
                (
                    CrawlView {
                        queue: rest,
                        visited: self.visited.insert(task.url.text),
                        in_flight: self.in_flight.push(task),
                        ..self
                    },
                    ActionView::Dispatch(task),
                )
            }
        }
    }

    /// The crawl after the fetch of the URL `text` has ended, with the page
    /// it produced, if any, and the URLs that the page's links parsed to.
    ///
    /// The task leaves the slots. Its page is stored under the task's own URL
    /// and depth. The children are queued one level deeper, unless the task
    /// already lies at the greatest depth. A URL that is not being fetched
    /// changes nothing.
    pub open spec fn settled(
        self,
        text: Seq<char>,
        page: Option<PageView>,
        children: Seq<UrlView>,
    ) -> CrawlView {
        match first_at(self.in_flight, text) {
            None => self,
            Some(i) => {
                let task = self.in_flight[i];
                let rest = self.in_flight.remove(i);
                match page {
                    None => CrawlView { in_flight: rest, ..self },
                    Some(p) => CrawlView {
                        in_flight: rest,
                        pages: self.pages.push(
                            PageView {
                                url: task.url,
                                depth: task.depth,
                                content: p.content,
                                links: p.links,
                            },
                        ),
                        queue: if task.depth < self.max_depth {
                            self.queue + child_tasks(children, task.depth)
                        } else {
                            self.queue
                        },
                        ..self
                    },
                }
            },
        }
    }

    /// The crawl after the fetch of the URL `text` has ended with the
    /// document `fetched`, or has failed.
    ///
    /// A failed fetch, and a document from which no links can be extracted,
    /// store nothing and queue nothing.
    pub open spec fn completed(self, text: Seq<char>, fetched: Option<Seq<char>>) -> CrawlView {
        match first_at(self.in_flight, text) {
            None => self,
            Some(i) => {
                let task = self.in_flight[i];
                match fetched {
                    None => self.settled(text, None, Seq::empty()),
                    Some(content) => match extracted_links(task.url.text, content) {
                        None => self.settled(text, None, Seq::empty()),
                        Some(links) => self.settled(
                            text,
                            Some(PageView { url: task.url, depth: task.depth, content, links }),
                            parsed_links(links),
                        ),
                    },
                }
            },
        }
    }

    /// The crawl is over: nothing is queued and nothing is being fetched.
    pub open spec fn drained(self) -> bool {
        self.queue.len() == 0 && self.in_flight.len() == 0
    }

    /// What every transition keeps.
    pub open spec fn coherent(self) -> bool {
        &&& self.slots >= 1
        &&& self.in_flight.len() <= self.slots
        &&& forall|i: int|
            0 <= i < self.queue.len() ==> (#[trigger] self.queue[i]).depth <= self.max_depth
        &&& forall|i: int|
            0 <= i < self.in_flight.len() ==> (#[trigger] self.in_flight[i]).depth
                <= self.max_depth
        &&& forall|i: int|
            0 <= i < self.pages.len() ==> (#[trigger] self.pages[i]).depth <= self.max_depth
        &&& forall|i: int|
            0 <= i < self.in_flight.len() ==> self.visited.contains(
                (#[trigger] self.in_flight[i]).url.text,
            )
        &&& forall|i: int|
            0 <= i < self.pages.len() ==> self.visited.contains(
                (#[trigger] self.pages[i]).url.text,
            )
        &&& forall|i: int, j: int|
            0 <= i < j < self.in_flight.len() ==> (#[trigger] self.in_flight[i]).url.text != (
            #[trigger] self.in_flight[j]).url.text
        &&& forall|i: int, j: int|
            0 <= i < j < self.pages.len() ==> (#[trigger] self.pages[i]).url.text != (
            #[trigger] self.pages[j]).url.text
        &&& forall|i: int, j: int|
            0 <= i < self.in_flight.len() && 0 <= j < self.pages.len() ==> (
            #[trigger] self.in_flight[i]).url.text != (#[trigger] self.pages[j]).url.text
        &&& forall|host: Seq<char>|
            #[trigger] pages_on_host(self.pages, host) + tasks_on_host(self.in_flight, host)
                <= self.max_pages + self.slots - 1
    }
}

/// `first_at` names the first index at which the URL stands, and names
/// none only where the URL stands at no index.
pub proof fn lemma_first_at_is_first(tasks: Seq<TaskView>, text: Seq<char>)
    ensures
        match first_at(tasks, text) {
            Some(i) => is_first_at(tasks, text, i),
            None => forall|j: int| 0 <= j < tasks.len() ==> (#[trigger] tasks[j]).url.text != text,
        },
    decreases tasks.len(),
{
    if tasks.len() > 0 && tasks.first().url.text != text {
        let rest = tasks.drop_first();
        lemma_first_at_is_first(rest, text);
        match first_at(rest, text) {
            Some(i) => {
                assert(tasks[i + 1] == rest[i]);
                assert forall|j: int| 0 <= j < i + 1 implies (#[trigger] tasks[j]).url.text
                    != text by {
                    if j > 0 {
                        assert(tasks[j] == rest[j - 1]);
                    }
                }
            },
            None => {
                assert forall|j: int| 0 <= j < tasks.len() implies (#[trigger] tasks[j]).url.text
                    != text by {
                    if j > 0 {
                        assert(tasks[j] == rest[j - 1]);
                    }
                }
            },
        }
    }
}

/// The index found by a scan from the front is the one `first_at` names.
pub proof fn lemma_first_at_found(tasks: Seq<TaskView>, text: Seq<char>, i: int)
    requires
        is_first_at(tasks, text, i),
    ensures
        first_at(tasks, text) == Some(i),
{
    lemma_first_at_is_first(tasks, text);
    match first_at(tasks, text) {
        Some(k) => {
            if k < i {
                assert(tasks[k].url.text != text);
            } else if i < k {
                assert(tasks[i].url.text != text);
            }
        },
        None => {
            assert(tasks[i].url.text != text);
        },
    }
}

/// A scan that finds no match shows that `first_at` names none.
pub proof fn lemma_first_at_missing(tasks: Seq<TaskView>, text: Seq<char>)
    requires
        forall|j: int| 0 <= j < tasks.len() ==> (#[trigger] tasks[j]).url.text != text,
    ensures
        first_at(tasks, text) is None,
{
    lemma_first_at_is_first(tasks, text);
    match first_at(tasks, text) {
        Some(k) => {
            assert(tasks[k].url.text != text);
        },
        None => {},
    }
}

/// A crawl without a seed is coherent.
pub proof fn lemma_fresh_coherent(max_depth: nat, max_pages: nat, slots: nat)
    requires
        slots >= 1,
    ensures
        CrawlView::fresh(max_depth, max_pages, slots).coherent(),
{
    let c = CrawlView::fresh(max_depth, max_pages, slots);
    assert(page_hosts(c.pages) =~= Seq::empty());
    assert(task_hosts(c.in_flight) =~= Seq::empty());
}

/// Queueing a seed keeps a crawl coherent.
pub proof fn lemma_seeded_coherent(c: CrawlView, seed: UrlView)
    requires
        c.coherent(),
    ensures
        c.seeded(seed).coherent(),
{
}

/// A step of the dispatcher keeps a crawl coherent.
pub proof fn lemma_next_coherent(c: CrawlView)
    requires
        c.coherent(),
    ensures
        c.next().0.coherent(),
{
    let after = c.next().0;
    if c.in_flight.len() < c.slots && c.queue.len() > 0 {
        let task = c.queue.first();
        if task.depth <= c.max_depth && !c.visited.contains(task.url.text) && !c.host_is_full(
            task.url.host,
        ) {
            assert(after.in_flight == c.in_flight.push(task));
            assert(task_hosts(after.in_flight) =~= task_hosts(c.in_flight).push(task.url.host));
            assert forall|host: Seq<char>|
                #[trigger] pages_on_host(after.pages, host) + tasks_on_host(after.in_flight, host)
                    <= after.max_pages + after.slots - 1 by {
                lemma_occurrences_push(task_hosts(c.in_flight), task.url.host, Some(host));
                lemma_occurrences_bound(task_hosts(c.in_flight), Some(host));
                assert(pages_on_host(c.pages, host) + tasks_on_host(c.in_flight, host)
                    <= c.max_pages + c.slots - 1);
            }
        }
    }
}

/// The end of a fetch keeps a crawl coherent, whatever page and children it
/// is said to have produced.
pub proof fn lemma_settled_coherent(
    c: CrawlView,
    text: Seq<char>,
    page: Option<PageView>,
    children: Seq<UrlView>,
)
    requires
        c.coherent(),
    ensures
        c.settled(text, page, children).coherent(),
{
    let after = c.settled(text, page, children);
    match first_at(c.in_flight, text) {
        None => {},
        Some(i) => {
            lemma_first_at_is_first(c.in_flight, text);
            let task = c.in_flight[i];
            let rest = c.in_flight.remove(i);
            assert(after.in_flight == rest);
            assert(task_hosts(rest) =~= task_hosts(c.in_flight).remove(i));
            assert forall|k: int| 0 <= k < rest.len() implies (#[trigger] rest[k]).url.text
                != task.url.text && c.visited.contains(rest[k].url.text) && rest[k].depth
                <= c.max_depth by {
                if k < i {
                    assert(rest[k] == c.in_flight[k]);
                } else {
                    assert(rest[k] == c.in_flight[k + 1]);
                }
            }
            assert forall|k: int, l: int| 0 <= k < l < rest.len() implies (
            #[trigger] rest[k]).url.text != (#[trigger] rest[l]).url.text by {
                let k0 = if k < i {
                    k
                } else {
                    k + 1
                };
                let l0 = if l < i {
                    l
                } else {
                    l + 1
                };
                assert(rest[k] == c.in_flight[k0]);
                assert(rest[l] == c.in_flight[l0]);
            }
            assert forall|k: int, l: int|
                0 <= k < rest.len() && 0 <= l < c.pages.len() implies (#[trigger] rest[k]).url.text
                != (#[trigger] c.pages[l]).url.text by {
                let k0 = if k < i {
                    k
                } else {
                    k + 1
                };
                assert(rest[k] == c.in_flight[k0]);
            }
            match page {
                None => {
                    assert forall|host: Seq<char>|
                        #[trigger] pages_on_host(after.pages, host) + tasks_on_host(
                            after.in_flight,
                            host,
                        ) <= after.max_pages + after.slots - 1 by {
                        lemma_occurrences_remove(task_hosts(c.in_flight), i, Some(host));
                        assert(pages_on_host(c.pages, host) + tasks_on_host(c.in_flight, host)
                            <= c.max_pages + c.slots - 1);
                    }
                },
                Some(p) => {
                    let stored = PageView {
                        url: task.url,
                        depth: task.depth,
                        content: p.content,
                        links: p.links,
                    };
                    assert(after.pages == c.pages.push(stored));
                    assert(page_hosts(after.pages) =~= page_hosts(c.pages).push(task.url.host));
                    assert forall|host: Seq<char>|
                        #[trigger] pages_on_host(after.pages, host) + tasks_on_host(
                            after.in_flight,
                            host,
                        ) <= after.max_pages + after.slots - 1 by {
                        lemma_occurrences_remove(task_hosts(c.in_flight), i, Some(host));
                        lemma_occurrences_push(page_hosts(c.pages), task.url.host, Some(host));
                        assert(pages_on_host(c.pages, host) + tasks_on_host(c.in_flight, host)
                            <= c.max_pages + c.slots - 1);
                    }
                },
            }
        },
    }
}

/// The end of a fetch keeps a crawl coherent, whatever was fetched.
pub proof fn lemma_completed_coherent(c: CrawlView, text: Seq<char>, fetched: Option<Seq<char>>)
    requires
        c.coherent(),
    ensures
        c.completed(text, fetched).coherent(),
{
    match first_at(c.in_flight, text) {
        None => {},
        Some(i) => {
            let task = c.in_flight[i];
            match fetched {
                None => lemma_settled_coherent(c, text, None, Seq::empty()),
                Some(content) => match extracted_links(task.url.text, content) {
                    None => lemma_settled_coherent(c, text, None, Seq::empty()),
                    Some(links) => lemma_settled_coherent(
                        c,
                        text,
                        Some(PageView { url: task.url, depth: task.depth, content, links }),
                        parsed_links(links),
                    ),
                },
            }
        },
    }
}

/// What can happen to a crawl.
pub ghost enum Event {
    /// A seed is queued.
    Seed(UrlView),
    /// The dispatcher takes a step.
    Step,
    /// The fetch of a URL ends with a document, or fails.
    Complete(Seq<char>, Option<Seq<char>>),
    /// The fetch of a URL ends with a page, or without one, and with the
    /// URLs that the page's links parsed to.
    Settle(Seq<char>, Option<PageView>, Seq<UrlView>),
}

impl CrawlView {
    /// The crawl after `event`.
    pub open spec fn after(self, event: Event) -> CrawlView {
        match event {
            Event::Seed(seed) => self.seeded(seed),
            Event::Step => self.next().0,
            Event::Complete(text, fetched) => self.completed(text, fetched),
            Event::Settle(text, page, children) => self.settled(text, page, children),
        }
    }

    /// The crawl after `events`, in order.
    pub open spec fn after_all(self, events: Seq<Event>) -> CrawlView
        decreases events.len(),
    {
        if events.len() == 0 {
            self
        } else {
            self.after_all(events.drop_last()).after(events.last())
        }
    }
}

/// Whatever happens to a coherent crawl, it stays coherent.
pub proof fn lemma_crawl_stays_coherent(c: CrawlView, events: Seq<Event>)
    requires
        c.coherent(),
    ensures
        c.after_all(events).coherent(),
    decreases events.len(),
{
    if events.len() > 0 {
        lemma_crawl_stays_coherent(c, events.drop_last());
        let before = c.after_all(events.drop_last());
        match events.last() {
            Event::Seed(seed) => lemma_seeded_coherent(before, seed),
            Event::Step => lemma_next_coherent(before),
            Event::Complete(text, fetched) => lemma_completed_coherent(before, text, fetched),
            Event::Settle(text, page, children) => lemma_settled_coherent(
                before,
                text,
                page,
                children,
            ),
        }
    }
}

/// No URL is stored twice: whatever has happened to a crawl since it was
/// made, no two of its pages have the same URL.
pub proof fn lemma_no_url_stored_twice(
    max_depth: nat,
    max_pages: nat,
    slots: nat,
    events: Seq<Event>,
)
    requires
        slots >= 1,
    ensures
        urls_distinct(CrawlView::fresh(max_depth, max_pages, slots).after_all(events).pages),
{
    lemma_fresh_coherent(max_depth, max_pages, slots);
    lemma_crawl_stays_coherent(CrawlView::fresh(max_depth, max_pages, slots), events);
}

/// No page lies too deep: whatever has happened to a crawl since it was
/// made, each of its pages has a depth of at most the greatest depth.
pub proof fn lemma_no_page_too_deep(
    max_depth: nat,
    max_pages: nat,
    slots: nat,
    events: Seq<Event>,
    i: int,
)
    requires
        slots >= 1,
        0 <= i < CrawlView::fresh(max_depth, max_pages, slots).after_all(events).pages.len(),
    ensures
        CrawlView::fresh(max_depth, max_pages, slots).after_all(events).pages[i].depth
            <= max_depth,
{
    lemma_fresh_coherent(max_depth, max_pages, slots);
    lemma_crawl_stays_coherent(CrawlView::fresh(max_depth, max_pages, slots), events);
    lemma_limits_never_change(CrawlView::fresh(max_depth, max_pages, slots), events);
}

/// No host overshoots by more than the fetches that run beside one:
/// whatever has happened to a crawl since it was made, the pages stored for
/// a host and the fetches running for it are together at most the page limit
/// and the number of slots, less one. With a single slot the page limit is
/// exact.
pub proof fn lemma_host_within_limit(
    max_depth: nat,
    max_pages: nat,
    slots: nat,
    events: Seq<Event>,
    host: Seq<char>,
)
    requires
        slots >= 1,
    ensures
        ({
            let c = CrawlView::fresh(max_depth, max_pages, slots).after_all(events);
            &&& pages_on_host(c.pages, host) + tasks_on_host(c.in_flight, host) <= max_pages
                + slots - 1
            &&& pages_on_host(c.pages, host) <= max_pages + slots
            &&& slots == 1 ==> pages_on_host(c.pages, host) <= max_pages
        }),
{
    lemma_fresh_coherent(max_depth, max_pages, slots);
    lemma_crawl_stays_coherent(CrawlView::fresh(max_depth, max_pages, slots), events);
    lemma_limits_never_change(CrawlView::fresh(max_depth, max_pages, slots), events);
    let c = CrawlView::fresh(max_depth, max_pages, slots).after_all(events);
    assert(pages_on_host(c.pages, host) + tasks_on_host(c.in_flight, host) <= c.max_pages
        + c.slots - 1);
}

/// Never more fetches run than there are slots: whatever has happened to a
/// crawl since it was made, the tasks being fetched are at most as many as
/// the slots.
pub proof fn lemma_slots_never_exceeded(
    max_depth: nat,
    max_pages: nat,
    slots: nat,
    events: Seq<Event>,
)
    requires
        slots >= 1,
    ensures
        CrawlView::fresh(max_depth, max_pages, slots).after_all(events).in_flight.len() <= slots,
{
    lemma_fresh_coherent(max_depth, max_pages, slots);
    lemma_crawl_stays_coherent(CrawlView::fresh(max_depth, max_pages, slots), events);
    lemma_limits_never_change(CrawlView::fresh(max_depth, max_pages, slots), events);
}

/// The limits of a crawl never change.
pub proof fn lemma_limits_never_change(c: CrawlView, events: Seq<Event>)
    ensures
        c.after_all(events).max_depth == c.max_depth,
        c.after_all(events).max_pages == c.max_pages,
        c.after_all(events).slots == c.slots,
    decreases events.len(),
{
    if events.len() > 0 {
        lemma_limits_never_change(c, events.drop_last());
    }
}

/// The visited set only grows.
pub proof fn lemma_visited_only_grows(c: CrawlView, events: Seq<Event>, text: Seq<char>)
    requires
        c.visited.contains(text),
    ensures
        c.after_all(events).visited.contains(text),
    decreases events.len(),
{
    if events.len() > 0 {
        lemma_visited_only_grows(c, events.drop_last(), text);
    }
}

/// The dispatcher says that the crawl is over exactly when nothing is queued
/// and nothing is being fetched, and it tells its caller to wait only while
/// a fetch is running.
pub proof fn lemma_done_and_wait(c: CrawlView)
    requires
        c.coherent(),
    ensures
        c.next().1 is Done <==> c.drained(),
        c.next().1 is Wait ==> c.in_flight.len() > 0 && c.next().0 == c,
        c.next().1 is Done ==> c.next().0 == c,
{
}

/// A step that neither waits nor ends the crawl takes exactly the head off
/// the queue, and the task that it decides on is that head.
pub proof fn lemma_step_takes_the_head(c: CrawlView)
    ensures
        match c.next().1 {
            ActionView::Dispatch(task) => c.queue.len() > 0 && task == c.queue.first()
                && c.next().0.queue == c.queue.drop_first(),
            ActionView::Skip(task, _) => c.queue.len() > 0 && task == c.queue.first()
                && c.next().0.queue == c.queue.drop_first(),
            ActionView::Wait => c.next().0 == c,
            ActionView::Done => c.next().0 == c,
        },
{
}

/// No URL is fetched twice: once a URL has been dispatched, nothing that
/// happens to the crawl lets a later step dispatch it again.
pub proof fn lemma_no_url_dispatched_twice(c: CrawlView, events: Seq<Event>)
    requires
        c.next().1 is Dispatch,
    ensures
        ({
            let first = c.next().1->Dispatch_0;
            let later = c.next().0.after_all(events);
            later.next().1 matches ActionView::Dispatch(second) ==> second.url.text
                != first.url.text
        }),
{
    let first = c.next().1->Dispatch_0;
    lemma_visited_only_grows(c.next().0, events, first.url.text);
}

/// Nothing that is queued lies too deep: seeds lie at depth 0 and children
/// are queued only below the greatest depth, so the depth test of a step
/// never drops a task.
pub proof fn lemma_never_too_deep(c: CrawlView)
    requires
        c.coherent(),
    ensures
        !(c.next().1 matches ActionView::Skip(_, SkipReason::TooDeep)),
{
    if c.queue.len() > 0 {
        assert(c.queue.first() == c.queue[0]);
    }
}

/// A skipped task takes no slot and stores nothing.
pub proof fn lemma_skip_takes_no_slot(c: CrawlView)
    requires
        c.next().1 is Skip,
    ensures
        c.next().0.in_flight == c.in_flight,
        c.next().0.pages == c.pages,
{
}

/// A failure stays with its task: a fetch that fails, or a document from
/// which no links can be extracted, frees the task's slot and changes nothing
/// else. No page is stored and nothing is queued.
pub proof fn lemma_failure_changes_nothing_else(
    c: CrawlView,
    text: Seq<char>,
    fetched: Option<Seq<char>>,
)
    requires
        first_at(c.in_flight, text) matches Some(i) && (fetched matches Some(content)
            ==> extracted_links(c.in_flight[i].url.text, content) is None),
    ensures
        c.completed(text, fetched).pages == c.pages,
        c.completed(text, fetched).queue == c.queue,
        c.completed(text, fetched).visited == c.visited,
        c.completed(text, fetched).in_flight == c.in_flight.remove(
            first_at(c.in_flight, text)->0,
        ),
{
}

/// With a greatest depth of 0 a crawl fetches its seed and nothing else:
/// the seed is dispatched; when its fetch has ended the crawl is over,
/// whatever the document held; and the seed's page is the only page, if the
/// fetch and the extraction succeeded, and there is no page, if not.
pub proof fn lemma_depth_zero_fetches_only_the_seed(
    max_pages: nat,
    slots: nat,
    seed: UrlView,
    fetched: Option<Seq<char>>,
)
    requires
        max_pages >= 1,
        slots >= 1,
    ensures
        ({
            let start = CrawlView::fresh(0, max_pages, slots).seeded(seed);
            let (fetching, action) = start.next();
            let end = fetching.completed(seed.text, fetched);
            let links = match fetched {
                Some(content) => extracted_links(seed.text, content),
                None => None,
            };
            &&& action == ActionView::Dispatch(TaskView { url: seed, depth: 0 })
            &&& end.drained()
            &&& end.next().1 is Done
            &&& match links {
                Some(found) => fetched matches Some(content) && end.pages == seq![
                    PageView { url: seed, depth: 0, content, links: found },
                ],
                None => end.pages.len() == 0,
            }
        }),
{
    let fresh = CrawlView::fresh(0, max_pages, slots);
    let start = fresh.seeded(seed);
    let task = TaskView { url: seed, depth: 0 };
    assert(start.queue =~= seq![task]);
    assert(page_hosts(fresh.pages) =~= Seq::empty());
    let (fetching, action) = start.next();
    assert(fetching.queue =~= Seq::empty());
    assert(fetching.in_flight =~= seq![task]);
    assert(is_first_at(fetching.in_flight, seed.text, 0));
    lemma_first_at_found(fetching.in_flight, seed.text, 0);
    let end = fetching.completed(seed.text, fetched);
    assert(fetching.in_flight.remove(0) =~= Seq::empty());
    assert(end.in_flight.len() == 0);
    assert(end.queue.len() == 0);
    let links = match fetched {
        Some(content) => extracted_links(seed.text, content),
        None => None,
    };
    match links {
        Some(found) => {
            let content = fetched->0;
            assert(end.pages =~= seq![PageView { url: seed, depth: 0, content, links: found }]);
        },
        None => {
            assert(end.pages =~= Seq::empty());
        },
    }
}

} // verus!
