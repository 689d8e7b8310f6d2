use vex_browser::error_pages::{
    build_error_page, connection_refused_page, dns_error_page, html_escape, http_error_page,
    tls_error_page,
};

#[test]
fn error_page_contains_title_and_message() {
    let page = build_error_page("Test Error", "Something went wrong");
    assert!(page.contains("<title>Test Error</title>"));
    assert!(page.contains("Something went wrong"));
}

#[test]
fn dns_error_page_mentions_host() {
    let page = dns_error_page("example.com");
    assert!(page.contains("example.com"));
    assert!(page.contains("DNS"));
}

#[test]
fn http_error_page_for_404() {
    let page = http_error_page(404, "https://example.com/missing");
    assert!(page.contains("404"));
    assert!(page.contains("example.com"));
}

#[test]
fn html_escape_works() {
    assert_eq!(
        html_escape("<script>&\"test"),
        "&lt;script&gt;&amp;&quot;test"
    );
}

#[test]
fn page_escapes_title_and_message() {
    let page = build_error_page("a<b", "x\"y");
    assert!(page.contains("<title>a&lt;b</title>"));
    assert!(page.contains("<h1>a&lt;b</h1>"));
    assert!(page.contains("<p>x&quot;y</p>"));
    assert!(page.starts_with("<!DOCTYPE html>\n<html>\n<head><title>"));
    assert!(page.ends_with("</p>\n</body>\n</html>"));
    assert!(page.contains("body {\n    background: #1a1a24;"));
}

#[test]
fn other_pages_titles() {
    assert!(connection_refused_page("http://h").contains("<title>Connection Refused</title>"));
    assert!(tls_error_page("h").contains("Your Connection Is Not Private"));
    assert!(http_error_page(418, "u").contains("<title>Server Error</title>"));
    assert!(http_error_page(503, "u").contains("Service Unavailable (503)"));
    // The bold markup of the message is escaped with it.
    assert!(dns_error_page("a&b").contains("&lt;b&gt;a&amp;amp;b&lt;/b&gt;"));
}
