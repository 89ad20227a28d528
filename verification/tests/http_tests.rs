use ups_exporter::http::{utf8_byte_count, metrics_response, not_found_response, route_request, scrape_error_body, Route};

#[test]
fn scrape_request_is_routed() {
    assert_eq!(route_request(b"GET /metrics HTTP/1.1\r\nHost: x\r\n\r\n"), Route::Metrics);
    assert_eq!(route_request(b"GET /metricsz"), Route::Metrics);
    let mut buf = [0u8; 1024];
    buf[..12].copy_from_slice(b"GET /metrics");
    assert_eq!(route_request(&buf), Route::Metrics);
}

#[test]
fn other_requests_are_not_found() {
    assert_eq!(route_request(b"GET / HTTP/1.1\r\n"), Route::NotFound);
    assert_eq!(route_request(b"POST /metrics"), Route::NotFound);
    assert_eq!(route_request(b"GET /metric"), Route::NotFound);
    assert_eq!(route_request(&[0u8; 1024]), Route::NotFound);
}

#[test]
fn ok_response_has_byte_length() {
    let r = metrics_response("abc\n");
    assert_eq!(
        r,
        "HTTP/1.1 200 OK\r\nContent-Type: text/plain; version=0.0.4; charset=utf-8\r\nContent-Length: 4\r\nConnection: close\r\n\r\nabc\n"
    );
    let r = metrics_response("é");
    assert!(r.contains("Content-Length: 2\r\n"));
    assert!(r.ends_with("\r\n\r\né"));
    let r = metrics_response("");
    assert!(r.contains("Content-Length: 0\r\n"));
}

#[test]
fn not_found_response_exact() {
    assert_eq!(not_found_response(), "HTTP/1.1 404 Not Found\r\nContent-Length: 9\r\nConnection: close\r\n\r\nNot Found");
}

#[test]
fn error_body_exact() {
    assert_eq!(scrape_error_body("No metrics received from upsd"), "# ERROR querying UPS: No metrics received from upsd\n");
}

#[test]
fn byte_count_is_utf8_length() {
    for t in ["", "abc", "é", "€uro", "𝄞x", "a\u{7f}\u{80}\u{7ff}\u{800}\u{ffff}\u{10000}"] {
        assert_eq!(utf8_byte_count(t), t.len() as u128);
    }
}
