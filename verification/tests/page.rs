use chat_hub::page::wants_page;

#[test]
fn request_for_the_root_asks_for_the_page() {
    assert!(wants_page("GET / HTTP/3\r\n\r\n"));
    assert!(wants_page("GET / "));
    assert!(wants_page("GET /  "));
}

#[test]
fn other_requests_do_not_ask_for_the_page() {
    assert!(!wants_page(""));
    assert!(!wants_page("GET /"));
    assert!(!wants_page("GET /index.html HTTP/3"));
    assert!(!wants_page("POST / HTTP/3"));
    assert!(!wants_page("get / HTTP/3"));
    assert!(!wants_page(" GET / HTTP/3"));
    assert!(!wants_page("GET  / HTTP/3"));
    assert!(!wants_page("\u{fffd}GET / "));
}
