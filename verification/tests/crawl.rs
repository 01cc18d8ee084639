use mdcrawl::config::{CleaningRules, ConvertConfig, CrawlRequest, HtmlConversionResult};
use mdcrawl::crawl::{should_keep, CrawlError, CrawlStep, Crawler, UrlParts};

fn config() -> ConvertConfig {
    ConvertConfig {
        include_links: true,
        clean_whitespace: true,
        cleaning_rules: CleaningRules {
            remove_scripts: true,
            remove_styles: true,
            remove_comments: true,
            preserve_line_breaks: false,
        },
        preserve_headings: true,
        include_metadata: false,
        max_heading_level: 6,
    }
}

fn request(url: &str, limit: u32, max_depth: u32, follow_relative: bool) -> CrawlRequest {
    CrawlRequest { url: url.to_string(), limit, max_depth, config: config(), follow_relative }
}

/// Runs a crawl over a site given as pairs of address and HTML text; an
/// address that the site does not hold fails to load. Gives the results and
/// the addresses asked for, in order.
fn run(request: CrawlRequest, site: &[(&str, &str)]) -> (Vec<String>, Vec<(String, u32)>) {
    let mut crawler = Crawler::start(request).unwrap();
    let mut fetched = Vec::new();
    loop {
        match crawler.next_step() {
            CrawlStep::Fetch { url, depth } => {
                fetched.push((url.clone(), depth));
                if let Some((_, html)) = site.iter().find(|(u, _)| *u == url) {
                    crawler.page_fetched(&url, depth, html);
                }
                assert!(fetched.len() < 1000);
            }
            CrawlStep::Done => break,
        }
    }
    (crawler.finish(), fetched)
}

fn parts(scheme: &str, domain: Option<&str>) -> Option<UrlParts> {
    Some(UrlParts { scheme: scheme.to_string(), domain: domain.map(|d| d.to_string()) })
}

#[test]
fn crawl_with_limit_zero_fetches_nothing() {
    let (results, fetched) =
        run(request("http://a.test/", 0, 5, false), &[("http://a.test/", "<p>a</p>")]);
    assert!(results.is_empty());
    assert!(fetched.is_empty());
}

#[test]
fn crawl_of_a_cycle_ends() {
    let site = [
        ("http://a.test/", "<p>A</p><a href=\"http://a.test/b\">b</a>"),
        ("http://a.test/b", "<p>B</p><a href=\"http://a.test/\">a</a>"),
    ];
    let (results, fetched) = run(request("http://a.test/", 10, 5, false), &site);
    assert_eq!(
        fetched,
        vec![("http://a.test/".to_string(), 0), ("http://a.test/b".to_string(), 1)]
    );
    assert_eq!(
        results,
        vec!["A\n\n[b](http://a.test/b)".to_string(), "B\n\n[a](http://a.test/)".to_string()]
    );
}

#[test]
fn crawl_stops_at_the_limit() {
    let site = [
        ("http://a.test/", "<a href=\"http://a.test/1\">1</a><a href=\"http://a.test/2\">2</a><a href=\"http://a.test/3\">3</a>"),
        ("http://a.test/1", "<p>one</p>"),
        ("http://a.test/2", "<p>two</p>"),
        ("http://a.test/3", "<p>three</p>"),
    ];
    let (results, fetched) = run(request("http://a.test/", 2, 3, false), &site);
    assert_eq!(results.len(), 2);
    assert_eq!(fetched.len(), 2);
    assert_eq!(results[1], "one");
}

#[test]
fn crawl_goes_breadth_first_and_respects_the_depth() {
    let site = [
        ("http://a.test/", "<a href=\"http://a.test/1\">1</a><a href=\"http://a.test/2\">2</a>"),
        ("http://a.test/1", "<a href=\"http://a.test/1a\">1a</a>"),
        ("http://a.test/2", "<a href=\"http://a.test/2a\">2a</a>"),
        ("http://a.test/1a", "<a href=\"http://a.test/deep\">deep</a>"),
        ("http://a.test/2a", "<p>x</p>"),
        ("http://a.test/deep", "<p>too deep</p>"),
    ];
    let (_, fetched) = run(request("http://a.test/", 10, 2, false), &site);
    let order: Vec<&str> = fetched.iter().map(|(u, _)| u.as_str()).collect();
    assert_eq!(
        order,
        vec!["http://a.test/", "http://a.test/1", "http://a.test/2", "http://a.test/1a", "http://a.test/2a"]
    );
    let depths: Vec<u32> = fetched.iter().map(|(_, d)| *d).collect();
    assert_eq!(depths, vec![0, 1, 1, 2, 2]);
}

#[test]
fn crawl_keeps_to_the_site_of_the_seed() {
    let site = [(
        "http://a.test/",
        "<a href=\"http://b.test/\">other</a>\
         <a href=\"https://a.test/s\">secure</a>\
         <a href=\"ftp://a.test/f\">ftp</a>\
         <a href=\"http://a.test/ok\">ok</a>\
         <a href=\"/relative\">rel</a>",
    )];
    let (_, fetched) = run(request("http://a.test/", 10, 2, false), &site);
    let order: Vec<&str> = fetched.iter().map(|(u, _)| u.as_str()).collect();
    assert_eq!(order, vec!["http://a.test/", "http://a.test/ok"]);
}

#[test]
fn crawl_follows_relative_links_when_asked() {
    let site = [
        ("http://a.test/dir/page", "<a href=\"/x\">x</a><a href=\"y\">y</a><a href=\"mailto:a@a.test\">m</a>"),
        ("http://a.test/x", "<p>x</p>"),
    ];
    let (results, fetched) = run(request("http://a.test/dir/page", 10, 1, true), &site);
    let order: Vec<&str> = fetched.iter().map(|(u, _)| u.as_str()).collect();
    assert_eq!(order, vec!["http://a.test/dir/page", "http://a.test/x", "http://a.test/dir/y"]);
    assert_eq!(results.len(), 2);
}

#[test]
fn crawl_fetches_no_address_twice() {
    let site = [
        ("http://a.test/", "<a href=\"http://a.test/1\">1</a><a href=\"http://a.test/1\">again</a><a href=\"http://a.test/\">self</a>"),
        ("http://a.test/1", "<a href=\"http://a.test/1\">self</a><a href=\"http://a.test/\">home</a>"),
    ];
    let (_, fetched) = run(request("http://a.test/", 10, 5, false), &site);
    assert_eq!(fetched.len(), 2);
}

#[test]
fn crawl_skips_a_page_that_fails_and_goes_on() {
    let site = [
        ("http://a.test/", "<a href=\"http://a.test/gone\">gone</a><a href=\"http://a.test/here\">here</a>"),
        ("http://a.test/here", "<p>here</p>"),
    ];
    let (results, fetched) = run(request("http://a.test/", 10, 1, false), &site);
    assert_eq!(fetched.len(), 3);
    assert_eq!(results.len(), 2);
    assert_eq!(results[1], "here");
}

#[test]
fn crawl_from_a_seed_without_domain_filters_no_domain() {
    let site = [("http://127.0.0.1/", "<a href=\"http://b.test/\">b</a>"), ("http://b.test/", "<p>b</p>")];
    let (results, _) = run(request("http://127.0.0.1/", 10, 1, false), &site);
    assert_eq!(results.len(), 2);
}

#[test]
fn crawl_drops_addresses_over_512_characters() {
    let long = format!("http://a.test/{}", "x".repeat(499));
    assert_eq!(long.len(), 513);
    let fits = format!("http://a.test/{}", "y".repeat(498));
    let page = format!("<a href=\"{}\">long</a><a href=\"{}\">fits</a>", long, fits);
    let site = [("http://a.test/", page.as_str())];
    let (_, fetched) = run(request("http://a.test/", 10, 1, false), &site);
    assert_eq!(fetched.len(), 2);
    assert_eq!(fetched[1].0, fits);
}

#[test]
fn crawl_needs_an_absolute_seed() {
    assert!(matches!(Crawler::start(request("not a url", 1, 1, false)), Err(CrawlError::InvalidSeed)));
    assert!(matches!(Crawler::start(request("/relative", 1, 1, false)), Err(CrawlError::InvalidSeed)));
}

#[test]
fn invalid_seed_is_a_bad_request() {
    assert_eq!(CrawlError::InvalidSeed.status_code(), 400);
    assert_eq!(CrawlError::InvalidSeed.message("nowhere"), "Invalid starting URL: nowhere");
}

#[test]
fn a_page_that_comes_after_the_limit_is_discarded() {
    let mut crawler = Crawler::start(request("http://a.test/", 1, 1, false)).unwrap();
    let page = |text: &str| HtmlConversionResult { markdown: text.to_string(), links: vec![] };
    crawler.record_page("http://a.test/", 0, page("first"));
    crawler.record_page("http://a.test/late", 1, page("late"));
    assert_eq!(crawler.finish(), vec!["first".to_string()]);
}

#[test]
fn should_keep_checks_length_scheme_and_domain() {
    let seed = Some("a.test".to_string());
    assert!(should_keep("http://a.test/x", &parts("http", Some("a.test")), "http", &seed));
    assert!(!should_keep("http://b.test/x", &parts("http", Some("b.test")), "http", &seed));
    assert!(!should_keep("https://a.test/x", &parts("https", Some("a.test")), "http", &seed));
    assert!(!should_keep("http://1.2.3.4/", &parts("http", None), "http", &seed));
    assert!(!should_keep("http://a.test/x", &None, "http", &seed));
    assert!(!should_keep("ftp://a.test/x", &parts("ftp", Some("a.test")), "ftp", &seed));
    assert!(should_keep("https://b.test/", &parts("https", Some("b.test")), "http", &None));
    assert!(!should_keep("gopher://b.test/", &parts("gopher", Some("b.test")), "http", &None));
    let long = "é".repeat(513);
    assert!(!should_keep(&long, &parts("http", Some("a.test")), "http", &seed));
    let fits = "é".repeat(512);
    assert!(should_keep(&fits, &parts("http", Some("a.test")), "http", &seed));
}
