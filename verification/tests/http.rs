use potato_ws::handlers::{bubble_sort, hanoi, hello, hi, i32_to_dec, simple_add};
use potato_ws::request::{is_valid_raw_request, HttpRequestMethod, PotatoRequest};
use potato_ws::response::PotatoResponse;
use potato_ws::server::{PotatoServer, RouteChoice};

fn get(path: &str, body: Option<Vec<u8>>) -> PotatoRequest {
    PotatoRequest::new(HttpRequestMethod::GET, path, body)
}

#[test]
fn method_tokens_round_trip() {
    let methods = [
        HttpRequestMethod::GET,
        HttpRequestMethod::HEAD,
        HttpRequestMethod::POST,
        HttpRequestMethod::PUT,
        HttpRequestMethod::DELETE,
        HttpRequestMethod::CONNECT,
        HttpRequestMethod::OPTIONS,
        HttpRequestMethod::TRACE,
        HttpRequestMethod::PATCH,
    ];
    for m in methods {
        assert_eq!(HttpRequestMethod::from_str(&m.to_string()), Some(m));
    }
    assert_eq!(HttpRequestMethod::from_str("get"), None);
    assert_eq!(HttpRequestMethod::from_str(""), None);
}

#[test]
fn raw_request_parses_method_path_and_body() {
    let raw = b"POST /add HTTP/1.1\r\nHost: here\r\nContent-Length: 5\r\n\r\n1,2,3extra";
    let req = PotatoRequest::from_raw_req(raw);
    assert_eq!(req.method, HttpRequestMethod::POST);
    assert_eq!(req.path, "/add");
    assert_eq!(req.body, Some(b"1,2,3".to_vec()));
    assert!(req.headers.is_empty());
}

#[test]
fn raw_request_without_length_has_empty_body() {
    let raw = b"GET /hello HTTP/1.1\r\nHost: here\r\n\r\n";
    let req = PotatoRequest::from_raw_req(raw);
    assert_eq!(req.method, HttpRequestMethod::GET);
    assert_eq!(req.path, "/hello");
    assert_eq!(req.body, Some(Vec::new()));
}

#[test]
fn raw_request_unknown_method_falls_back() {
    let raw = b"YODEL /x HTTP/1.1\r\n\r\n";
    let req = PotatoRequest::from_raw_req(raw);
    assert_eq!(req.method, HttpRequestMethod::OPTIONS);
}

#[test]
fn raw_request_last_content_length_wins() {
    let raw = b"GET / HTTP/1.1\r\nContent-Length: 1\r\nContent-Length: 2\r\n\r\nabc";
    let req = PotatoRequest::from_raw_req(raw);
    assert_eq!(req.body, Some(b"ab".to_vec()));
}

#[test]
fn response_serializes_status_and_body() {
    let res = PotatoResponse::new().set_status("200 OK").add_body(b"hi".to_vec());
    assert_eq!(res.to_http_response(), b"HTTP/1.1 200 OK\r\n\r\n\r\nhi".to_vec());
}

#[test]
fn response_serializes_headers_in_order() {
    let res = PotatoResponse::new()
        .set_status("200 OK")
        .add_header("A", "1")
        .add_header("B", "2");
    assert_eq!(
        res.to_http_response(),
        b"HTTP/1.1 200 OK\r\nA: 1\nB: 2\r\n\r\n".to_vec()
    );
}

#[test]
fn response_replaces_header_value() {
    let res = PotatoResponse::new()
        .set_status("200 OK")
        .add_header("A", "1")
        .add_header("A", "2");
    assert_eq!(
        res.to_http_response(),
        b"HTTP/1.1 200 OK\r\nA: 2\r\n\r\n".to_vec()
    );
}

#[test]
fn response_without_body_ends_after_blank_line() {
    let res = PotatoResponse::new().set_status("404 Not Found");
    assert_eq!(res.to_http_response(), b"HTTP/1.1 404 Not Found\r\n\r\n\r\n".to_vec());
}

#[test]
fn routing_picks_first_matching_route() {
    let server: PotatoServer<u32> = PotatoServer::new("8000", "/tmp/rt", false)
        .add_handler(HttpRequestMethod::GET, "/hello", 1)
        .add_handler(HttpRequestMethod::GET, "/hi", 2);
    assert_eq!(server.choose_route(b"GET /hello HTTP/1.1\r\n"), RouteChoice::Route(0));
    assert_eq!(server.choose_route(b"GET /hi HTTP/1.1\r\n"), RouteChoice::Route(1));
}

#[test]
fn routing_falls_back_to_default() {
    let server: PotatoServer<u32> = PotatoServer::new("8000", "/tmp/rt", false)
        .add_handler(HttpRequestMethod::GET, "/hello", 1)
        .add_default_handler(9);
    assert_eq!(server.choose_route(b"GET /other HTTP/1.1\r\n"), RouteChoice::Default);
}

#[test]
fn routing_without_routes_serves_nothing() {
    let server: PotatoServer<u32> = PotatoServer::new("8000", "/tmp/rt", false);
    assert_eq!(server.choose_route(b"GET / HTTP/1.1\r\n"), RouteChoice::NoMatch);
}

#[test]
fn routing_distinguishes_methods() {
    let server: PotatoServer<u32> = PotatoServer::new("8000", "/tmp/rt", false)
        .add_handler(HttpRequestMethod::POST, "/add", 1)
        .add_handler(HttpRequestMethod::GET, "/add", 2);
    assert_eq!(server.choose_route(b"GET /add HTTP/1.1\r\n"), RouteChoice::Route(1));
}

#[test]
fn get_header_collects_until_blank_line() {
    let server: PotatoServer<u32> = PotatoServer::new("8000", "/tmp/rt", false);
    let headers = server.get_header("Host: here\r\nAccept: all\r\n\r\nbody", "ignored");
    assert_eq!(headers.len(), 2);
    assert_eq!(headers[0], ("Host".to_string(), ": here".to_string()));
    assert_eq!(headers[1], ("Accept".to_string(), ": all".to_string()));
}

#[test]
fn get_header_replaces_duplicate_keys() {
    let server: PotatoServer<u32> = PotatoServer::new("8000", "/tmp/rt", false);
    let headers = server.get_header("Host: one\nHost: two\nNext: x", "zz");
    assert_eq!(
        headers,
        vec![
            ("Host".to_string(), ": two".to_string()),
            ("Next".to_string(), ": x".to_string())
        ]
    );
}

#[test]
fn get_header_skips_ignored_and_stops_at_dash() {
    let server: PotatoServer<u32> = PotatoServer::new("8000", "/tmp/rt", false);
    let headers = server.get_header("Host: here\nX-Trace: drop\n-boundary\nAfter: no", "Trace");
    assert_eq!(headers, vec![("Host".to_string(), ": here".to_string())]);
}

#[test]
fn hello_answers_greeting() {
    let res = hello(get("/hello", None));
    assert_eq!(
        res.to_http_response(),
        b"HTTP/1.1 200 OK\r\nContent-Length: 12\r\n\r\nHello World!".to_vec()
    );
}

#[test]
fn hi_answers_greeting() {
    let res = hi(get("/hi", None));
    assert_eq!(
        res.to_http_response(),
        b"HTTP/1.1 200 OK\r\nContent-Length: 8\r\n\r\nHi World".to_vec()
    );
}

#[test]
fn i32_rendering_handles_signs() {
    assert_eq!(i32_to_dec(0), "0");
    assert_eq!(i32_to_dec(-1), "-1");
    assert_eq!(i32_to_dec(i32::MIN), "-2147483648");
    assert_eq!(i32_to_dec(i32::MAX), "2147483647");
}

#[test]
fn simple_add_sums_the_list() {
    let res = simple_add(get("/add", Some(b"1,2,3".to_vec())));
    assert_eq!(
        res.to_http_response(),
        b"HTTP/1.1 200 OK\r\nContent-Length: 1\r\n\r\n6".to_vec()
    );
}

#[test]
fn simple_add_handles_negative_values() {
    let res = simple_add(get("/add", Some(b"-10,4".to_vec())));
    assert_eq!(
        res.to_http_response(),
        b"HTTP/1.1 200 OK\r\nContent-Length: 2\r\n\r\n-6".to_vec()
    );
}

#[test]
fn simple_add_rejects_missing_body() {
    let res = simple_add(get("/add", None));
    assert_eq!(res.to_http_response(), b"HTTP/1.1 400 Bad Request\r\n\r\n\r\n".to_vec());
}

#[test]
fn simple_add_rejects_junk() {
    let res = simple_add(get("/add", Some(b"1, 2".to_vec())));
    assert_eq!(res.to_http_response(), b"HTTP/1.1 400 Bad Request\r\n\r\n\r\n".to_vec());
}

#[test]
fn simple_add_allows_transient_overflow() {
    // the partial sums pass outside the i32 range, the total fits
    let res = simple_add(get("/add", Some(b"2147483647,1,-2".to_vec())));
    assert_eq!(
        res.to_http_response(),
        b"HTTP/1.1 200 OK\r\nContent-Length: 10\r\n\r\n2147483646".to_vec()
    );
}

#[test]
fn simple_add_rejects_overflow() {
    let res = simple_add(get("/add", Some(b"2147483647,1".to_vec())));
    assert_eq!(res.to_http_response(), b"HTTP/1.1 400 Bad Request\r\n\r\n\r\n".to_vec());
}

#[test]
fn hanoi_answers_success() {
    let res = hanoi(get("/hanoi", Some(b"10".to_vec())));
    assert_eq!(
        res.to_http_response(),
        b"HTTP/1.1 200 OK\r\nContent-Length: 7\r\n\r\nSuccess".to_vec()
    );
}

#[test]
fn hanoi_rejects_junk() {
    let res = hanoi(get("/hanoi", Some(b"ten".to_vec())));
    assert_eq!(res.to_http_response(), b"HTTP/1.1 400 Bad Request\r\n\r\n\r\n".to_vec());
}

#[test]
fn bubble_sort_orders_the_list() {
    let res = bubble_sort(get("/sort", Some(b"3,-1,2,2".to_vec())));
    assert_eq!(
        res.to_http_response(),
        b"HTTP/1.1 200 OK\r\nContent-Length: 9\r\n\r\n-1 2 2 3 ".to_vec()
    );
}

#[test]
fn bubble_sort_rejects_junk() {
    let res = bubble_sort(get("/sort", Some(b"3;1".to_vec())));
    assert_eq!(res.to_http_response(), b"HTTP/1.1 400 Bad Request\r\n\r\n\r\n".to_vec());
}

#[test]
fn raw_request_validity_is_checkable() {
    assert!(is_valid_raw_request(b"GET /hello HTTP/1.1\r\nHost: x\r\n\r\n"));
    assert!(is_valid_raw_request(b"POST /add HTTP/1.1\r\nContent-Length: 3\r\n\r\n1,2"));
    // no request line terminator
    assert!(!is_valid_raw_request(b"GET /hello HTTP/1.1"));
    // no path separator
    assert!(!is_valid_raw_request(b"GET hello HTTP-1.1\r\n\r\n"));
    // a processed header line without a colon
    assert!(!is_valid_raw_request(b"GET / HTTP/1.1\r\nbroken\r\n\r\n"));
    // declared body longer than the buffer
    assert!(!is_valid_raw_request(b"GET / HTTP/1.1\r\nContent-Length: 99\r\n\r\nabc"));
}
