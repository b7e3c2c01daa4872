use pool_server::router::{
    classify, fixed_response, html_response, joke_response, query_jokes, Route,
};

fn fixed(line: &str) -> (u16, String) {
    fixed_response(classify(line)).expect("a fixed route")
}

#[test]
fn every_table_line_finds_its_route() {
    assert_eq!(classify("GET / HTTP/1.1"), Route::Index);
    assert_eq!(classify("GET /sleep HTTP/1.1"), Route::Sleep);
    assert_eq!(classify("GET /html HTTP/1.1"), Route::Html);
    assert_eq!(classify("GET /favicon.ico HTTP/1.1"), Route::Favicon);
    assert_eq!(classify("GET /jokes HTTP/1.1"), Route::Jokes);
    assert_eq!(classify("GET /exit HTTP/1.1"), Route::Exit);
    assert_eq!(classify("POST /test HTTP/1.1"), Route::PostTest);
}

#[test]
fn fixed_routes_have_their_bodies() {
    assert_eq!(fixed("GET / HTTP/1.1"), (200, "It works!".to_string()));
    assert_eq!(fixed("GET /sleep HTTP/1.1"), (200, "I'm getting sleepy".to_string()));
    assert_eq!(
        fixed("GET /favicon.ico HTTP/1.1"),
        (200, "Supposed to be an icon here".to_string())
    );
    assert_eq!(fixed("GET /exit HTTP/1.1"), (200, "Shutting down...".to_string()));
    assert_eq!(fixed("POST /test HTTP/1.1"), (200, "Post test succeeded".to_string()));
}

#[test]
fn routes_fed_from_outside_have_no_fixed_response() {
    assert_eq!(fixed_response(Route::Html), None);
    assert_eq!(fixed_response(Route::Jokes), None);
}

#[test]
fn unmatched_line_is_a_client_error() {
    assert_eq!(classify("GET /nope HTTP/1.1"), Route::Unsupported);
    assert_eq!(
        fixed("GET /nope HTTP/1.1"),
        (400, "woops... Route not supported".to_string())
    );
}

#[test]
fn matching_is_exact_and_case_sensitive() {
    assert_eq!(classify("get / HTTP/1.1"), Route::Unsupported);
    assert_eq!(classify("GET / HTTP/1.0"), Route::Unsupported);
    assert_eq!(classify("GET / HTTP/1.1 "), Route::Unsupported);
    assert_eq!(classify(" GET / HTTP/1.1"), Route::Unsupported);
    assert_eq!(classify("GET / HTTP/1.1\r\n"), Route::Unsupported);
    assert_eq!(classify("GET /exit/ HTTP/1.1"), Route::Unsupported);
    assert_eq!(classify("GET /test HTTP/1.1"), Route::Unsupported);
    assert_eq!(classify("POST / HTTP/1.1"), Route::Unsupported);
    assert_eq!(classify(""), Route::Unsupported);
}

#[test]
fn same_line_same_response() {
    for line in ["GET / HTTP/1.1", "GET /exit HTTP/1.1", "GET /nope HTTP/1.1", "POST /test HTTP/1.1"] {
        assert_eq!(classify(line), classify(line));
        assert_eq!(fixed(line), fixed(line));
    }
}

#[test]
fn post_route_ignores_any_request_body() {
    assert_eq!(fixed("POST /test HTTP/1.1"), (200, "Post test succeeded".to_string()));
}

#[test]
fn asset_is_served_verbatim() {
    let page = "<html>\n<body>h\u{e9}llo</body>\n</html>\n".to_string();
    assert_eq!(html_response(page.clone()), (200, page));
    assert_eq!(html_response(String::new()), (200, String::new()));
}

#[test]
fn joke_text_is_served_verbatim() {
    let text = "{\"joke\": \"...\"}".to_string();
    assert_eq!(joke_response(Ok(text.clone())), (200, text.clone()));
    assert_eq!(query_jokes(Ok(text.clone())), (200, text));
}

#[test]
fn failed_fetch_is_downgraded_to_400() {
    assert_eq!(
        joke_response(Err("connection refused".to_string())),
        (400, "connection refused".to_string())
    );
}

#[test]
fn client_error_is_described_in_the_body() {
    let error = reqwest::Client::new()
        .get("not a url")
        .build()
        .expect_err("the URL does not parse");
    let expected = format!("{:?}", error);
    let (status, body) = query_jokes(Err(error));
    assert_eq!(status, 400);
    assert_eq!(body, expected);
    assert!(body.contains("reqwest::Error"));
}
