use saba_core::http::build_get_request;
use saba_core::http::Header;
use saba_core::http::HttpResponse;
use saba_core::url::Url;

#[test]
fn test_url() {
    let url = "http://example.com".to_string();
    let parsed = Url::new(url.clone()).parse();
    let parsed = parsed.expect("an address with the scheme is accepted");
    assert_eq!(parsed.url(), url);
    assert_eq!(parsed.host(), "example.com".to_string());
    assert_eq!(parsed.port(), "80".to_string());
    assert_eq!(parsed.path(), "".to_string());
    assert_eq!(parsed.searchpart(), "".to_string());
}

#[test]
fn url_with_port_path_and_searchpart() {
    let mut url = Url::new("http://example.com:8888/index.html?a=123&b=456".to_string());
    let parsed = url.parse().unwrap();
    assert_eq!(parsed.host(), "example.com");
    assert_eq!(parsed.port(), "8888");
    assert_eq!(parsed.path(), "index.html");
    assert_eq!(parsed.searchpart(), "a=123&b=456");
    assert_eq!(url, parsed);
}

#[test]
fn url_with_path_only() {
    let parsed = Url::new("http://example.com/a/b".to_string()).parse().unwrap();
    assert_eq!(parsed.host(), "example.com");
    assert_eq!(parsed.port(), "80");
    assert_eq!(parsed.path(), "a/b");
    assert_eq!(parsed.searchpart(), "");
}

#[test]
fn url_without_scheme_is_refused() {
    let mut url = Url::new("https://example.com".to_string());
    assert_eq!(url.parse(), Err("Only HTTP scheme is supported.".to_string()));
    assert_eq!(url.host(), "");
    assert_eq!(Url::new("".to_string()).parse(), Err("Only HTTP scheme is supported.".to_string()));
}

#[test]
fn url_new_leaves_the_parts_empty() {
    let url = Url::new("http://example.com:1/x?y".to_string());
    assert_eq!(url.host(), "");
    assert_eq!(url.port(), "");
    assert_eq!(url.path(), "");
    assert_eq!(url.searchpart(), "");
}

#[test]
fn url_repeated_scheme_is_trimmed() {
    let parsed = Url::new("http://http://example.com/".to_string()).parse().unwrap();
    assert_eq!(parsed.host(), "example.com");
    assert_eq!(parsed.path(), "");
}

#[test]
fn http_response_holds_what_it_was_given() {
    let response = HttpResponse::new(
        "HTTP/1.1".to_string(),
        302,
        "Found".to_string(),
        vec![
            ("Date".to_string(), "now".to_string()),
            ("Location".to_string(), "http://example.com/next".to_string()),
            ("Location".to_string(), "http://example.com/other".to_string()),
        ],
        "<html></html>".to_string(),
    );
    assert_eq!(response.version(), "HTTP/1.1");
    assert_eq!(response.status_code(), 302);
    assert_eq!(response.reason(), "Found");
    assert_eq!(response.body(), "<html></html>");
    assert_eq!(response.header_value("Date"), Ok("now".to_string()));
    assert_eq!(response.header_value("Location"), Ok("http://example.com/next".to_string()));
    assert_eq!(
        response.header_value("Missing"),
        Err("failed to find Missing in headers".to_string())
    );
    assert_eq!(response.redirect_target(), Some("http://example.com/next".to_string()));
}

#[test]
fn only_a_302_with_location_redirects() {
    let ok = HttpResponse::new(
        "HTTP/1.1".to_string(),
        200,
        "OK".to_string(),
        vec![("Location".to_string(), "http://example.com/".to_string())],
        "".to_string(),
    );
    assert_eq!(ok.redirect_target(), None);
    let bare = HttpResponse::new("HTTP/1.1".to_string(), 302, "Found".to_string(), vec![], "".to_string());
    assert_eq!(bare.redirect_target(), None);
}

#[test]
fn header_holds_name_and_value() {
    let header = Header::new("Host".to_string(), "example.com".to_string());
    assert_eq!(header.name, "Host");
    assert_eq!(header.value, "example.com");
}

#[test]
fn get_request_text() {
    assert_eq!(
        build_get_request("example.com", "index.html"),
        "GET /index.html HTTP/1.1\nHost: example.com\r\nAccept: text/html\r\nConnection: close\r\n\r\n"
    );
}

#[test]
fn port_as_a_number() {
    let parsed = Url::new("http://example.com:8888/".to_string()).parse().unwrap();
    assert_eq!(parsed.port_number(), Some(8888));
    let parsed = Url::new("http://example.com".to_string()).parse().unwrap();
    assert_eq!(parsed.port_number(), Some(80));
    let parsed = Url::new("http://example.com:65535".to_string()).parse().unwrap();
    assert_eq!(parsed.port_number(), Some(65535));
    let parsed = Url::new("http://example.com:65536".to_string()).parse().unwrap();
    assert_eq!(parsed.port_number(), None);
    let parsed = Url::new("http://example.com:8o".to_string()).parse().unwrap();
    assert_eq!(parsed.port_number(), None);
    let parsed = Url::new("http://example.com:".to_string()).parse().unwrap();
    assert_eq!(parsed.port_number(), None);
    assert_eq!(Url::new("http://example.com:1".to_string()).port_number(), None);
}

#[test]
fn response_from_text() {
    let raw = "HTTP/1.1 200 OK\r\nDate: now\r\nContent-Type:  text/html  \r\nbroken line\r\n\r\n<html>\n\nx</html>";
    let response = HttpResponse::parse(raw).unwrap();
    assert_eq!(response.version, "HTTP/1.1");
    assert_eq!(response.status_code, 200);
    assert_eq!(response.reason, "OK");
    assert_eq!(
        response.headers,
        vec![
            ("Date".to_string(), "now".to_string()),
            ("Content-Type".to_string(), "text/html".to_string())
        ]
    );
    assert_eq!(response.body, "<html>\n\nx</html>");
}

#[test]
fn response_without_headers_or_body() {
    let response = HttpResponse::parse("HTTP/1.1 404 Not Found\n").unwrap();
    assert_eq!(response.status_code, 404);
    assert_eq!(response.reason, "Not Found");
    assert!(response.headers.is_empty());
    assert_eq!(response.body, "");
    let response = HttpResponse::parse("HTTP/1.1 302\nLocation: http://a/b\n\n").unwrap();
    assert_eq!(response.status_code, 302);
    assert_eq!(response.reason, "");
    assert_eq!(response.redirect_target(), Some("http://a/b".to_string()));
}

#[test]
fn response_with_a_status_that_is_no_number() {
    assert_eq!(HttpResponse::parse("HTTP/1.1 abc OK\n").unwrap().status_code, 404);
    assert_eq!(HttpResponse::parse("HTTP/1.1 99999999999 OK\n").unwrap().status_code, 404);
    assert_eq!(HttpResponse::parse("HTTP/1.1  OK\n").unwrap().status_code, 404);
}

#[test]
fn text_that_is_no_response() {
    assert!(matches!(
        HttpResponse::parse("HTTP/1.1 200 OK"),
        Err(saba_core::error::Error::Network(m)) if m == "invalid http response: HTTP/1.1 200 OK"
    ));
    assert!(matches!(
        HttpResponse::parse("nothing\nmore"),
        Err(saba_core::error::Error::Network(m)) if m == "invalid http response: nothing\nmore"
    ));
    assert!(HttpResponse::parse("").is_err());
}
