use web_crawler::address::Url;
use web_crawler::crawler::{CrawlerConfig, CrawlerError};
use web_crawler::fetcher::{Fetcher, REQUEST_TIMEOUT_SECS};

fn fetcher(delay_ms: u64) -> Fetcher {
    Fetcher::new(CrawlerConfig { delay_ms, ..CrawlerConfig::default() })
}

#[test]
fn a_host_never_asked_is_asked_at_once() {
    let f = fetcher(1000);
    let url = Url::parse("http://example.com/a").unwrap();
    assert_eq!(f.delay_before(&url, 0).unwrap(), 0);
    assert_eq!(f.delay_before(&url, 123_456).unwrap(), 0);
}

#[test]
fn a_second_request_waits_for_what_is_missing() {
    let mut f = fetcher(1000);
    let url = Url::parse("http://example.com/a").unwrap();
    f.record_access(&url, 1000);
    assert_eq!(f.delay_before(&url, 1300).unwrap(), 700);
    assert_eq!(f.delay_before(&url, 1000).unwrap(), 1000);
    assert_eq!(f.delay_before(&url, 1999).unwrap(), 1);
}

#[test]
fn a_request_after_the_delay_does_not_wait() {
    let mut f = fetcher(1000);
    let url = Url::parse("http://example.com/a").unwrap();
    f.record_access(&url, 1000);
    assert_eq!(f.delay_before(&url, 2000).unwrap(), 0);
    assert_eq!(f.delay_before(&url, 50_000).unwrap(), 0);
}

#[test]
fn a_clock_reading_before_the_last_request_waits_the_whole_delay() {
    let mut f = fetcher(1000);
    let url = Url::parse("http://example.com/a").unwrap();
    f.record_access(&url, 5000);
    assert_eq!(f.delay_before(&url, 4000).unwrap(), 1000);
}

#[test]
fn the_delay_is_per_host() {
    let mut f = fetcher(1000);
    let a = Url::parse("http://one.example/a").unwrap();
    let b = Url::parse("http://two.example/b").unwrap();
    let a2 = Url::parse("https://one.example/other").unwrap();
    f.record_access(&a, 1000);
    assert_eq!(f.delay_before(&b, 1001).unwrap(), 0);
    assert_eq!(f.delay_before(&a2, 1001).unwrap(), 999);
}

#[test]
fn the_last_request_counts() {
    let mut f = fetcher(500);
    let url = Url::parse("http://example.com/").unwrap();
    f.record_access(&url, 100);
    f.record_access(&url, 900);
    assert_eq!(f.delay_before(&url, 1000).unwrap(), 400);
}

#[test]
fn no_delay_means_no_wait() {
    let mut f = fetcher(0);
    let url = Url::parse("http://example.com/").unwrap();
    f.record_access(&url, 100);
    assert_eq!(f.delay_before(&url, 100).unwrap(), 0);
}

#[test]
fn the_largest_times_do_not_overflow() {
    let mut f = fetcher(u64::MAX);
    let url = Url::parse("http://example.com/").unwrap();
    f.record_access(&url, 0);
    assert_eq!(f.delay_before(&url, u64::MAX).unwrap(), 0);
    assert_eq!(f.delay_before(&url, u64::MAX - 1).unwrap(), 1);
    f.record_access(&url, u64::MAX);
    assert_eq!(f.delay_before(&url, 0).unwrap(), u64::MAX);
}

#[test]
fn a_url_without_host_cannot_be_fetched() {
    let mut f = fetcher(1000);
    let url = Url::parse("mailto:someone@example.com").unwrap();
    assert!(matches!(
        f.delay_before(&url, 0),
        Err(CrawlerError::UrlParseError(url::ParseError::EmptyHost))
    ));
    f.record_access(&url, 10);
    assert!(matches!(f.delay_before(&url, 11), Err(CrawlerError::UrlParseError(_))));
}

#[test]
fn the_fetcher_announces_the_configured_user_agent() {
    let f = Fetcher::new(CrawlerConfig::default());
    assert_eq!(f.user_agent(), "WebCrawlerRust/0.1.0");
    let g = Fetcher::new(CrawlerConfig { user_agent: "probe/2".to_string(), ..CrawlerConfig::default() });
    assert_eq!(g.user_agent(), "probe/2");
}

#[test]
fn requests_time_out_after_ten_seconds() {
    assert_eq!(REQUEST_TIMEOUT_SECS, 10);
}
