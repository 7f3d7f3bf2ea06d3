use web_crawler::address::Url;
use web_crawler::crawler::CrawlerError;
use web_crawler::parser::{attribute_values, is_web_url, keep_web_links, resolve_all, Parser};

fn parse(base: &str, html: &str) -> Vec<String> {
    let url = Url::parse(base).unwrap();
    Parser::new().parse(&url, html.to_string(), 0).unwrap().links
}

#[test]
fn parse_fills_the_page() {
    let url = Url::parse("http://example.com/dir/page.html").unwrap();
    let html = r#"<html><body><a href="next.html">next</a></body></html>"#;
    let page = Parser::new().parse(&url, html.to_string(), 7).unwrap();
    assert_eq!(page.url.as_str(), "http://example.com/dir/page.html");
    assert_eq!(page.depth, 7);
    assert_eq!(page.content, html);
    assert_eq!(page.links, vec!["http://example.com/dir/next.html".to_string()]);
}

#[test]
fn links_come_in_document_order() {
    let links = parse(
        "http://example.com/",
        r#"<a href="/c">c</a><p><a href="/a">a</a></p><div><a href="/b">b</a></div>"#,
    );
    assert_eq!(
        links,
        vec![
            "http://example.com/c".to_string(),
            "http://example.com/a".to_string(),
            "http://example.com/b".to_string(),
        ]
    );
}

#[test]
fn relative_links_are_resolved_against_the_page() {
    let links = parse(
        "https://example.com/a/b/page.html",
        r#"<a href="x.html">1</a><a href="../y.html">2</a><a href="/z.html">3</a><a href="//other.example/w">4</a>"#,
    );
    assert_eq!(
        links,
        vec![
            "https://example.com/a/b/x.html".to_string(),
            "https://example.com/a/y.html".to_string(),
            "https://example.com/z.html".to_string(),
            "https://other.example/w".to_string(),
        ]
    );
}

#[test]
fn other_schemes_are_left_out() {
    let links = parse(
        "http://example.com/",
        r#"<a href="mailto:me@example.com">mail</a>
           <a href="javascript:void(0)">js</a>
           <a href="ftp://example.com/file">ftp</a>
           <a href="tel:+123">tel</a>
           <a href="https://example.com/ok">ok</a>"#,
    );
    assert_eq!(links, vec!["https://example.com/ok".to_string()]);
}

#[test]
fn anchors_without_target_are_passed_over() {
    let links = parse(
        "http://example.com/",
        r#"<a name="top">no target</a><a>bare</a><a href="/only">only</a>"#,
    );
    assert_eq!(links, vec!["http://example.com/only".to_string()]);
}

#[test]
fn malformed_targets_are_passed_over() {
    let links = parse(
        "http://example.com/",
        r#"<a href="http://">empty host</a><a href="http://[::1">bad address</a><a href="/fine">fine</a>"#,
    );
    assert_eq!(links, vec!["http://example.com/fine".to_string()]);
}

#[test]
fn an_empty_target_points_to_the_page_itself() {
    let links = parse("http://example.com/page?q=1", r#"<a href="">self</a>"#);
    assert_eq!(links, vec!["http://example.com/page?q=1".to_string()]);
}

#[test]
fn repeated_targets_are_kept() {
    let links = parse("http://example.com/", r#"<a href="/a">1</a><a href="/a">2</a>"#);
    assert_eq!(
        links,
        vec!["http://example.com/a".to_string(), "http://example.com/a".to_string()]
    );
}

#[test]
fn only_anchors_are_links() {
    let links = parse(
        "http://example.com/",
        r#"<link href="/style.css"><img src="/i.png"><area href="/area"><a href="/a">a</a>"#,
    );
    assert_eq!(links, vec!["http://example.com/a".to_string()]);
}

#[test]
fn a_document_without_anchors_has_no_links() {
    assert!(parse("http://example.com/", "<p>nothing here</p>").is_empty());
    assert!(parse("http://example.com/", "").is_empty());
    assert!(parse("http://example.com/", "not html at all <<<>>>").is_empty());
}

#[test]
fn a_page_without_base_keeps_only_absolute_links() {
    let links = parse(
        "mailto:someone@example.com",
        r#"<a href="relative">r</a><a href="http://example.com/abs">a</a>"#,
    );
    assert_eq!(links, vec!["http://example.com/abs".to_string()]);
}

#[test]
fn is_web_url_knows_http_and_https_only() {
    assert!(is_web_url(&Url::parse("http://example.com/").unwrap()));
    assert!(is_web_url(&Url::parse("https://example.com/").unwrap()));
    assert!(is_web_url(&Url::parse("HTTP://example.com/").unwrap()));
    assert!(!is_web_url(&Url::parse("ftp://example.com/").unwrap()));
    assert!(!is_web_url(&Url::parse("httpx://example.com/").unwrap()));
    assert!(!is_web_url(&Url::parse("mailto:a@example.com").unwrap()));
    assert!(!is_web_url(&Url::parse("file:///etc/hosts").unwrap()));
}

#[test]
fn resolve_all_keeps_one_outcome_per_target() {
    let base = Url::parse("http://example.com/dir/").unwrap();
    let hrefs = vec![Some("a".to_string()), None, Some("http://".to_string()), Some("ftp://f.example/x".to_string())];
    let resolved = resolve_all(&base, &hrefs);
    assert_eq!(resolved.len(), 4);
    assert_eq!(resolved[0].as_ref().unwrap().as_str(), "http://example.com/dir/a");
    assert!(resolved[1].is_none());
    assert!(resolved[2].is_none());
    assert_eq!(resolved[3].as_ref().unwrap().as_str(), "ftp://f.example/x");
}

#[test]
fn keep_web_links_filters_by_scheme() {
    let resolved = vec![
        Some(Url::parse("http://example.com/a").unwrap()),
        None,
        Some(Url::parse("ftp://example.com/b").unwrap()),
        Some(Url::parse("https://example.com/c").unwrap()),
    ];
    assert_eq!(
        keep_web_links(&resolved),
        vec!["http://example.com/a".to_string(), "https://example.com/c".to_string()]
    );
    assert!(keep_web_links(&Vec::new()).is_empty());
}

#[test]
fn attribute_values_reads_one_attribute_of_the_matches() {
    let html = r#"<p><a href="/a" title="first">a</a><a title="second">b</a><img src="/i.png"><a href="c">c</a></p>"#;
    assert_eq!(
        attribute_values(html, "a", "href").unwrap(),
        vec![Some("/a".to_string()), None, Some("c".to_string())]
    );
    assert_eq!(
        attribute_values(html, "a[href]", "href").unwrap(),
        vec![Some("/a".to_string()), Some("c".to_string())]
    );
    assert_eq!(
        attribute_values(html, "a", "title").unwrap(),
        vec![Some("first".to_string()), Some("second".to_string()), None]
    );
    assert_eq!(attribute_values(html, "img", "src").unwrap(), vec![Some("/i.png".to_string())]);
    assert!(attribute_values(html, "table", "href").unwrap().is_empty());
}

#[test]
fn attribute_values_keeps_the_target_as_written() {
    let html = r#"<a href="  ../x y?q=1&amp;r=2#f ">spaced</a><a href="">empty</a>"#;
    assert_eq!(
        attribute_values(html, "a[href]", "href").unwrap(),
        vec![Some("  ../x y?q=1&r=2#f ".to_string()), Some(String::new())]
    );
}

#[test]
fn a_selector_that_cannot_be_parsed_is_an_extraction_failure() {
    assert!(matches!(
        attribute_values("<a href=\"/a\">a</a>", "a[", "href"),
        Err(CrawlerError::ExtractionFailed)
    ));
    assert!(matches!(attribute_values("", "", "href"), Err(CrawlerError::ExtractionFailed)));
    assert!(matches!(attribute_values("", "::", "href"), Err(CrawlerError::ExtractionFailed)));
}
