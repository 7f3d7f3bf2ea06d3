use web_crawler::address::Url;
use web_crawler::crawler::Page;
use web_crawler::storage::Storage;

fn page(url: &str, depth: usize) -> Page {
    Page {
        url: Url::parse(url).unwrap(),
        depth,
        content: format!("content of {}", url),
        links: vec![format!("{}/next", url)],
    }
}

#[test]
fn a_new_store_is_empty() {
    let store = Storage::new();
    assert_eq!(store.page_count(), 0);
    assert!(store.get_pages().is_empty());
    assert_eq!(store.domain_page_count("example.com"), 0);
    assert!(!store.is_visited(&Url::parse("http://example.com/").unwrap()));
}

#[test]
fn mark_visited_twice_returns_true_then_false() {
    let mut store = Storage::new();
    let url = Url::parse("http://example.com/a").unwrap();
    assert!(store.mark_visited(&url));
    assert!(!store.mark_visited(&url));
    assert!(!store.mark_visited(&url));
}

#[test]
fn is_visited_follows_mark_visited() {
    let mut store = Storage::new();
    let a = Url::parse("http://example.com/a").unwrap();
    let b = Url::parse("http://example.com/b").unwrap();
    assert!(!store.is_visited(&a));
    store.mark_visited(&a);
    assert!(store.is_visited(&a));
    assert!(!store.is_visited(&b));
}

#[test]
fn marking_goes_by_the_normalized_url() {
    let mut store = Storage::new();
    assert!(store.mark_visited(&Url::parse("http://example.com").unwrap()));
    assert!(!store.mark_visited(&Url::parse("HTTP://EXAMPLE.COM/").unwrap()));
    assert!(store.mark_visited(&Url::parse("http://example.com/#top").unwrap()));
}

#[test]
fn marking_stores_no_page() {
    let mut store = Storage::new();
    store.mark_visited(&Url::parse("http://example.com/a").unwrap());
    assert_eq!(store.page_count(), 0);
    assert_eq!(store.domain_page_count("example.com"), 0);
}

#[test]
fn store_page_appends_and_counts_per_host() {
    let mut store = Storage::new();
    store.store_page(page("http://one.example/a", 0));
    store.store_page(page("http://two.example/a", 1));
    store.store_page(page("http://one.example/b", 1));
    assert_eq!(store.page_count(), 3);
    assert_eq!(store.domain_page_count("one.example"), 2);
    assert_eq!(store.domain_page_count("two.example"), 1);
    assert_eq!(store.domain_page_count("three.example"), 0);
}

#[test]
fn get_pages_keeps_the_order_and_the_fields() {
    let mut store = Storage::new();
    store.store_page(page("http://one.example/a", 0));
    store.store_page(page("http://two.example/b", 3));
    let pages = store.get_pages();
    assert_eq!(pages.len(), 2);
    assert_eq!(pages[0].url.as_str(), "http://one.example/a");
    assert_eq!(pages[0].depth, 0);
    assert_eq!(pages[0].content, "content of http://one.example/a");
    assert_eq!(pages[0].links, vec!["http://one.example/a/next".to_string()]);
    assert_eq!(pages[1].url.as_str(), "http://two.example/b");
    assert_eq!(pages[1].depth, 3);
}

#[test]
fn get_pages_is_a_snapshot() {
    let mut store = Storage::new();
    store.store_page(page("http://one.example/a", 0));
    let before = store.get_pages();
    store.store_page(page("http://one.example/b", 0));
    assert_eq!(before.len(), 1);
    assert_eq!(store.get_pages().len(), 2);
}

#[test]
fn a_page_without_host_is_stored_and_counted_nowhere() {
    let mut store = Storage::new();
    store.store_page(page("mailto:someone@example.com", 0));
    assert_eq!(store.page_count(), 1);
    assert_eq!(store.domain_page_count("example.com"), 0);
    assert_eq!(store.domain_page_count(""), 0);
}

#[test]
fn storing_does_not_mark() {
    let mut store = Storage::new();
    store.store_page(page("http://one.example/a", 0));
    assert!(!store.is_visited(&Url::parse("http://one.example/a").unwrap()));
}

#[test]
fn a_cloned_page_has_the_same_fields() {
    let first = page("http://one.example/a", 2);
    let copy = first.clone();
    assert_eq!(copy.url.as_str(), first.url.as_str());
    assert_eq!(copy.depth, 2);
    assert_eq!(copy.content, first.content);
    assert_eq!(copy.links, first.links);
}
