use multithreaded_webserver::http::{response, route, Page};

#[test]
fn root_request_gets_the_index_page() {
    let page = route("GET / HTTP/1.1");
    assert_eq!(page, Page::Index);
    assert_eq!(page.status_line(), "HTTP/1.1 200 OK");
    assert_eq!(page.filename(), "index.html");
    assert_eq!(page.delay_secs(), 0);
}

#[test]
fn sleep_request_gets_the_index_page_after_five_seconds() {
    let page = route("GET /sleep HTTP/1.1");
    assert_eq!(page, Page::SlowIndex);
    assert_eq!(page.status_line(), "HTTP/1.1 200 OK");
    assert_eq!(page.filename(), "index.html");
    assert_eq!(page.delay_secs(), 5);
}

#[test]
fn any_other_request_gets_the_not_found_page() {
    for line in [
        "",
        "GET /missing HTTP/1.1",
        "GET / HTTP/1.0",
        "GET / HTTP/1.1 ",
        " GET / HTTP/1.1",
        "get / http/1.1",
        "POST / HTTP/1.1",
        "GET /sleep HTTP/1.1\r",
        "GET /sleeps HTTP/1.1",
        "GET / HTTP/1.2",
        "GET \u{2215} HTTP/1.1",
    ] {
        let page = route(line);
        assert_eq!(page, Page::NotFound);
        assert_eq!(page.status_line(), "HTTP/1.1 404 NOT FOUND");
        assert_eq!(page.filename(), "404.html");
        assert_eq!(page.delay_secs(), 0);
    }
}

#[test]
fn response_frames_the_contents() {
    assert_eq!(
        response("HTTP/1.1 200 OK", "<h1>Hi</h1>"),
        "HTTP/1.1 200 OK\r\nContent-Length: 11\r\n\r\n<h1>Hi</h1>"
    );
    assert_eq!(
        response("HTTP/1.1 404 NOT FOUND", "gone"),
        "HTTP/1.1 404 NOT FOUND\r\nContent-Length: 4\r\n\r\ngone"
    );
}

#[test]
fn response_to_empty_contents_has_length_zero() {
    assert_eq!(response("HTTP/1.1 200 OK", ""), "HTTP/1.1 200 OK\r\nContent-Length: 0\r\n\r\n");
}

#[test]
fn response_length_counts_bytes() {
    assert_eq!(
        response("HTTP/1.1 200 OK", "h\u{e9}llo \u{4e16}\u{754c}"),
        "HTTP/1.1 200 OK\r\nContent-Length: 13\r\n\r\nh\u{e9}llo \u{4e16}\u{754c}"
    );
}

#[test]
fn response_length_is_written_in_decimal() {
    for length in [1usize, 9, 10, 11, 99, 100, 101, 1000, 4096, 10_000, 65_535, 123_456] {
        let contents = "x".repeat(length);
        let expected = format!("S\r\nContent-Length: {}\r\n\r\n{}", length, contents);
        assert_eq!(response("S", &contents), expected);
    }
}

#[test]
fn response_to_a_routed_request() {
    let page = route("GET / HTTP/1.1");
    let text = response(page.status_line(), "<!DOCTYPE html>\n<html></html>\n");
    assert_eq!(
        text,
        "HTTP/1.1 200 OK\r\nContent-Length: 30\r\n\r\n<!DOCTYPE html>\n<html></html>\n"
    );
}
