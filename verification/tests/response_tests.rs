use pool_server::decimal::decimal_string;
use pool_server::response::{get_status_line, serialize_response};

#[test]
fn known_codes_have_reason_phrases() {
    assert_eq!(get_status_line(200), "HTTP/1.1 200 OK");
    assert_eq!(get_status_line(400), "HTTP/1.1 400 BAD REQUEST");
    assert_eq!(get_status_line(404), "HTTP/1.1 404 NOT FOUND");
}

#[test]
fn unknown_codes_have_an_empty_reason() {
    assert_eq!(get_status_line(500), "HTTP/1.1 500 ");
    assert_eq!(get_status_line(201), "HTTP/1.1 201 ");
    assert_eq!(get_status_line(0), "HTTP/1.1 0 ");
    assert_eq!(get_status_line(7), "HTTP/1.1 7 ");
    assert_eq!(get_status_line(u16::MAX), "HTTP/1.1 65535 ");
}

#[test]
fn it_works_on_the_wire() {
    assert_eq!(
        serialize_response(200, "It works!"),
        "HTTP/1.1 200 OK\r\nContent-Length: 9\r\n\r\nIt works!"
    );
}

#[test]
fn client_error_on_the_wire() {
    assert_eq!(
        serialize_response(400, "woops... Route not supported"),
        "HTTP/1.1 400 BAD REQUEST\r\nContent-Length: 28\r\n\r\nwoops... Route not supported"
    );
}

#[test]
fn empty_body_has_length_zero() {
    assert_eq!(serialize_response(404, ""), "HTTP/1.1 404 NOT FOUND\r\nContent-Length: 0\r\n\r\n");
}

#[test]
fn length_counts_bytes_not_characters() {
    assert_eq!(
        serialize_response(200, "h\u{e9}llo \u{1f600}"),
        "HTTP/1.1 200 OK\r\nContent-Length: 11\r\n\r\nh\u{e9}llo \u{1f600}"
    );
}

#[test]
fn body_is_copied_verbatim() {
    let body = "line one\r\n\r\nline two\n";
    let wire = serialize_response(200, body);
    assert_eq!(wire, format!("HTTP/1.1 200 OK\r\nContent-Length: {}\r\n\r\n{}", body.len(), body));
    assert!(wire.ends_with(body));
}

#[test]
fn long_body_length_has_all_its_digits() {
    let body = "x".repeat(12345);
    let wire = serialize_response(200, &body);
    assert!(wire.starts_with("HTTP/1.1 200 OK\r\nContent-Length: 12345\r\n\r\nxxx"));
    assert_eq!(wire.len(), 42 + 12345);
}

#[test]
fn decimal_notation() {
    assert_eq!(decimal_string(0), "0");
    assert_eq!(decimal_string(7), "7");
    assert_eq!(decimal_string(9), "9");
    assert_eq!(decimal_string(10), "10");
    assert_eq!(decimal_string(101), "101");
    assert_eq!(decimal_string(1234567890), "1234567890");
    assert_eq!(decimal_string(u64::MAX), "18446744073709551615");
}
