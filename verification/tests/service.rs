use mdcrawl::config::ConvertConfig;
use mdcrawl::http::{
    cors_headers, crawl_response_body, path_target, request_target, route, Method, Route,
};

#[test]
fn requests_are_routed_by_method_and_path() {
    assert_eq!(route(Method::Options, "/anything", None), Route::Preflight);
    assert_eq!(route(Method::Get, "/favicon.ico", None), Route::Favicon);
    assert_eq!(route(Method::Post, "/favicon.ico", None), Route::Favicon);
    assert_eq!(route(Method::Post, "/crawl", None), Route::Crawl);
    assert_eq!(route(Method::Get, "/crawl", None), Route::NotFound);
    assert_eq!(route(Method::Get, "/https://a.test/x", None), Route::ConvertPath);
    assert_eq!(route(Method::Get, "/http://a.test/x", None), Route::ConvertPath);
    assert_eq!(route(Method::Post, "/http://a.test/x", None), Route::NotFound);
    assert_eq!(route(Method::Get, "/", None), Route::Usage);
    assert_eq!(route(Method::Post, "/", None), Route::Convert);
    assert_eq!(route(Method::Other, "/", None), Route::NotFound);
    assert_eq!(route(Method::Get, "/ftp://a.test", None), Route::NotFound);
}

#[test]
fn address_in_the_query_asks_for_a_conversion() {
    assert_eq!(route(Method::Get, "/", Some("http://a.test/")), Route::ConvertPath);
    assert_eq!(route(Method::Get, "/other", Some("http://a.test/")), Route::ConvertPath);
    assert_eq!(route(Method::Post, "/", Some("http://a.test/")), Route::Convert);
    assert_eq!(route(Method::Options, "/", Some("http://a.test/")), Route::Preflight);
    assert_eq!(request_target("/", Some("http://a.test/q")), "http://a.test/q");
    assert_eq!(request_target("/http://a.test/p", Some("http://a.test/q")), "http://a.test/p");
    assert_eq!(request_target("/https://a.test/p", None), "https://a.test/p");
}

#[test]
fn path_holds_the_address_after_its_slash() {
    assert_eq!(path_target("/https://a.test/x"), "https://a.test/x");
    assert_eq!(path_target("https://a.test/x"), "https://a.test/x");
    assert_eq!(path_target(""), "");
    assert_eq!(path_target("/"), "");
}

#[test]
fn crawl_body_joins_pages_with_a_rule() {
    let pages = vec!["a".to_string(), "b".to_string(), "c".to_string()];
    assert_eq!(crawl_response_body(&pages), "a\n\n---\n\nb\n\n---\n\nc");
    assert_eq!(crawl_response_body(&vec!["only".to_string()]), "only");
    assert_eq!(crawl_response_body(&vec![]), "Crawl completed, but no results were generated.");
}

#[test]
fn cors_headers_are_permissive() {
    let plain: Vec<(String, String)> =
        cors_headers(false).into_iter().map(|h| (h.name, h.value)).collect();
    assert_eq!(
        plain,
        vec![
            ("Access-Control-Allow-Origin".to_string(), "*".to_string()),
            ("Access-Control-Allow-Methods".to_string(), "GET, POST, OPTIONS".to_string()),
            ("Access-Control-Allow-Headers".to_string(), "Content-Type".to_string()),
        ]
    );
    let preflight = cors_headers(true);
    assert_eq!(preflight.len(), 4);
    assert_eq!(preflight[3].name, "Access-Control-Max-Age");
    assert_eq!(preflight[3].value, "86400");
}

#[test]
fn full_config_turns_everything_on() {
    let c = ConvertConfig::full();
    assert!(c.include_links && c.clean_whitespace && c.preserve_headings && c.include_metadata);
    assert!(c.cleaning_rules.remove_scripts && c.cleaning_rules.remove_styles);
    assert!(c.cleaning_rules.remove_comments && c.cleaning_rules.preserve_line_breaks);
    assert_eq!(c.max_heading_level, 6);
    let d = ConvertConfig::default();
    assert!(!d.include_links && !d.clean_whitespace && !d.preserve_headings && !d.include_metadata);
    assert_eq!(d.max_heading_level, 0);
}
