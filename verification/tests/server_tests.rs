use http_server::dispatch::{
    dispatch, file_read_response, file_write_response, handle_request, Action, Step,
};
use http_server::request::{parse_request, Encoding, HttpMethod, ParseError};
use http_server::response::{resp200, resp201, resp404, Response};

fn done_bytes(raw: &[u8]) -> Vec<u8> {
    match handle_request(raw, false) {
        Ok(Step::Done(b)) => b,
        other => panic!("expected rendered bytes, got {:?}", other.is_ok()),
    }
}

#[test]
fn echo_returns_value_with_exact_content_length() {
    let out = done_bytes(b"GET /echo/abc HTTP/1.1\r\nHost: localhost:4221\r\n\r\n");
    assert_eq!(
        out,
        b"HTTP/1.1 200 OK\r\nContent-Type: text/plain\r\nContent-Length: 3\r\n\r\nabc".to_vec()
    );
}

#[test]
fn echo_empty_value_has_zero_content_length() {
    let out = done_bytes(b"GET /echo/ HTTP/1.1\r\n\r\n");
    assert_eq!(
        out,
        b"HTTP/1.1 200 OK\r\nContent-Type: text/plain\r\nContent-Length: 0\r\n\r\n".to_vec()
    );
}

#[test]
fn echo_long_value_has_multi_digit_content_length() {
    let mut req = b"GET /echo/".to_vec();
    let value = vec![b'x'; 123];
    req.extend_from_slice(&value);
    req.extend_from_slice(b" HTTP/1.1\r\n\r\n");
    let out = done_bytes(&req);
    let mut expected =
        b"HTTP/1.1 200 OK\r\nContent-Type: text/plain\r\nContent-Length: 123\r\n\r\n".to_vec();
    expected.extend_from_slice(&value);
    assert_eq!(out, expected);
}

#[test]
fn echo_with_gzip_negotiation_asserts_content_encoding() {
    let out = done_bytes(b"GET /echo/abc HTTP/1.1\r\nAccept-Encoding: gzip\r\n\r\n");
    assert_eq!(
        out,
        b"HTTP/1.1 200 OK\r\nContent-Encoding: gzip\r\nContent-Type: text/plain\r\nContent-Length: 3\r\n\r\nabc"
            .to_vec()
    );
}

#[test]
fn echo_without_gzip_has_no_content_encoding() {
    let out = done_bytes(b"GET /echo/abc HTTP/1.1\r\nAccept-Encoding: deflate\r\n\r\n");
    assert_eq!(
        out,
        b"HTTP/1.1 200 OK\r\nContent-Type: text/plain\r\nContent-Length: 3\r\n\r\nabc".to_vec()
    );
}

#[test]
fn root_is_bare_ok_without_content_length() {
    let out = done_bytes(b"GET / HTTP/1.1\r\nHost: localhost:4221\r\n\r\n");
    assert_eq!(out, b"HTTP/1.1 200 OK\r\n\r\n".to_vec());
}

#[test]
fn user_agent_is_reflected() {
    let out = done_bytes(b"GET /user-agent HTTP/1.1\r\nUser-Agent: curl/7.64.1\r\n\r\n");
    assert_eq!(
        out,
        b"HTTP/1.1 200 OK\r\nContent-Type: text/plain\r\nContent-Length: 11\r\n\r\ncurl/7.64.1"
            .to_vec()
    );
}

#[test]
fn user_agent_missing_is_not_found() {
    let out = done_bytes(b"GET /user-agent HTTP/1.1\r\nHost: x\r\n\r\n");
    assert_eq!(out, b"HTTP/1.1 404 Not Found\r\n\r\n".to_vec());
}

#[test]
fn unknown_route_is_not_found() {
    let out = done_bytes(b"GET /nope HTTP/1.1\r\n\r\n");
    assert_eq!(out, b"HTTP/1.1 404 Not Found\r\n\r\n".to_vec());
}

#[test]
fn echo_without_value_is_not_found() {
    let out = done_bytes(b"GET /echo HTTP/1.1\r\n\r\n");
    assert_eq!(out, b"HTTP/1.1 404 Not Found\r\n\r\n".to_vec());
}

#[test]
fn path_without_leading_slash_is_not_found() {
    let out = done_bytes(b"GET nope HTTP/1.1\r\n\r\n");
    assert_eq!(out, b"HTTP/1.1 404 Not Found\r\n\r\n".to_vec());
}

#[test]
fn files_round_trip_write_then_read() {
    let post = handle_request(
        b"POST /files/notes.txt HTTP/1.1\r\nContent-Length: 5\r\n\r\nhello",
        true,
    );
    let (name, contents) = match post {
        Ok(Step::NeedFileWrite(name, contents)) => (name, contents),
        _ => panic!("expected a file write"),
    };
    assert_eq!(name, b"notes.txt".to_vec());
    assert_eq!(contents, b"hello".to_vec());
    assert_eq!(file_write_response(true), b"HTTP/1.1 201 Created\r\n\r\n".to_vec());

    let get = handle_request(b"GET /files/notes.txt HTTP/1.1\r\n\r\n", true);
    let read_name = match get {
        Ok(Step::NeedFileRead(n)) => n,
        _ => panic!("expected a file read"),
    };
    assert_eq!(read_name, b"notes.txt".to_vec());
    assert_eq!(
        file_read_response(Some(contents)),
        b"HTTP/1.1 200 OK\r\nContent-Type: application/octet-stream\r\nContent-Length: 5\r\n\r\nhello"
            .to_vec()
    );
}

#[test]
fn files_read_failure_is_not_found() {
    let get = handle_request(b"GET /files/missing HTTP/1.1\r\n\r\n", true);
    match get {
        Ok(Step::NeedFileRead(n)) => assert_eq!(n, b"missing".to_vec()),
        _ => panic!("expected a file read"),
    }
    assert_eq!(file_read_response(None), b"HTTP/1.1 404 Not Found\r\n\r\n".to_vec());
}

#[test]
fn files_write_failure_is_not_found() {
    assert_eq!(file_write_response(false), b"HTTP/1.1 404 Not Found\r\n\r\n".to_vec());
}

#[test]
fn files_without_served_directory_is_not_found() {
    let out = done_bytes(b"GET /files/anything HTTP/1.1\r\n\r\n");
    assert_eq!(out, b"HTTP/1.1 404 Not Found\r\n\r\n".to_vec());
}

#[test]
fn files_post_without_content_length_is_not_found() {
    let r = handle_request(b"POST /files/f HTTP/1.1\r\n\r\nhello", true);
    match r {
        Ok(Step::Done(b)) => assert_eq!(b, b"HTTP/1.1 404 Not Found\r\n\r\n".to_vec()),
        _ => panic!("expected an immediate response"),
    }
}

#[test]
fn files_without_name_is_not_found() {
    let out = done_bytes(b"GET /files HTTP/1.1\r\n\r\n");
    assert_eq!(out, b"HTTP/1.1 404 Not Found\r\n\r\n".to_vec());
}

#[test]
fn distinct_echo_requests_get_their_own_bodies() {
    for i in 0..50 {
        let value = format!("value-{}", i);
        let raw = format!("GET /echo/{} HTTP/1.1\r\n\r\n", value);
        let out = done_bytes(raw.as_bytes());
        let expected = format!(
            "HTTP/1.1 200 OK\r\nContent-Type: text/plain\r\nContent-Length: {}\r\n\r\n{}",
            value.len(),
            value
        );
        assert_eq!(out, expected.as_bytes().to_vec());
    }
}

#[test]
fn dispatch_echo_keeps_request_encoding() {
    let req = parse_request(b"GET /echo/zz HTTP/1.1\r\nAccept-Encoding: gzip\r\n\r\n").unwrap();
    assert_eq!(req.encoding, Some(Encoding::Gzip));
    match dispatch(&req, false) {
        Action::Reply(resp) => {
            assert_eq!(resp.status_code, 200);
            assert_eq!(resp.content, b"zz".to_vec());
            assert_eq!(resp.encoding, Some(Encoding::Gzip));
            assert_eq!(resp.content_type, None);
        },
        _ => panic!("expected a reply"),
    }
}

#[test]
fn resp200_uses_given_content_type() {
    let out = resp200(Response {
        status_code: 200,
        content: b"data".to_vec(),
        content_type: Some(b"application/octet-stream".to_vec()),
        encoding: None,
    });
    assert_eq!(
        out,
        b"HTTP/1.1 200 OK\r\nContent-Type: application/octet-stream\r\nContent-Length: 4\r\n\r\ndata"
            .to_vec()
    );
}

#[test]
fn resp201_and_resp404_are_bare() {
    assert_eq!(resp201(), b"HTTP/1.1 201 Created\r\n\r\n".to_vec());
    assert_eq!(resp404(), b"HTTP/1.1 404 Not Found\r\n\r\n".to_vec());
}

#[test]
fn parse_fills_all_fields() {
    let req = parse_request(
        b"POST /files/a.txt HTTP/1.1\r\nUser-Agent: tester\r\nAccept-Encoding: gzip\r\nContent-Length: 4\r\n\r\nbody",
    )
    .unwrap();
    assert_eq!(req.method, HttpMethod::POST);
    assert_eq!(req.path, b"/files/a.txt".to_vec());
    assert_eq!(req.user_agent, Some(b"tester".to_vec()));
    assert_eq!(req.encoding, Some(Encoding::Gzip));
    assert_eq!(req.body, Some(b"body".to_vec()));
}

#[test]
fn parse_get_never_has_a_body() {
    let req = parse_request(b"GET /x HTTP/1.1\r\nContent-Length: 4\r\n\r\nbody").unwrap();
    assert_eq!(req.method, HttpMethod::GET);
    assert_eq!(req.body, None);
}

#[test]
fn parse_duplicate_header_last_occurrence_wins() {
    let req = parse_request(b"GET /user-agent HTTP/1.1\r\nUser-Agent: first\r\nUser-Agent: second\r\n\r\n")
        .unwrap();
    assert_eq!(req.user_agent, Some(b"second".to_vec()));
}

#[test]
fn parse_trims_header_whitespace() {
    let req = parse_request(b"GET /user-agent HTTP/1.1\r\n  User-Agent:   curl/7.1  \r\n\r\n")
        .unwrap();
    assert_eq!(req.user_agent, Some(b"curl/7.1".to_vec()));
}

#[test]
fn parse_header_value_may_contain_colon_space() {
    let req = parse_request(b"GET / HTTP/1.1\r\nUser-Agent: a: b\r\n\r\n").unwrap();
    assert_eq!(req.user_agent, Some(b"a: b".to_vec()));
}

#[test]
fn parse_line_without_separator_is_dropped() {
    let req = parse_request(b"GET /user-agent HTTP/1.1\r\nUser-Agent curl\r\n\r\n").unwrap();
    assert_eq!(req.user_agent, None);
}

#[test]
fn parse_accept_encoding_must_be_exactly_gzip() {
    let req = parse_request(b"GET / HTTP/1.1\r\nAccept-Encoding: gzip, deflate\r\n\r\n").unwrap();
    assert_eq!(req.encoding, None);
}

#[test]
fn parse_without_any_line_break_is_rejected() {
    let r = parse_request(b"GET / HTTP/1.1");
    assert_eq!(r.unwrap_err(), ParseError::MissingLineBreak);
}

#[test]
fn parse_without_request_line_is_rejected() {
    let r = parse_request(b"\r\n\r\n");
    assert_eq!(r.unwrap_err(), ParseError::BadRequestLine);
}

#[test]
fn parse_short_request_line_is_rejected() {
    let r = parse_request(b"GET\r\n\r\n");
    assert_eq!(r.unwrap_err(), ParseError::BadRequestLine);
}

#[test]
fn parse_unknown_method_is_rejected() {
    let r = parse_request(b"PUT /x HTTP/1.1\r\n\r\n");
    assert_eq!(r.unwrap_err(), ParseError::BadMethod);
}

#[test]
fn parse_error_is_passed_through_by_handle() {
    let r = handle_request(b"DELETE /x HTTP/1.1\r\n\r\n", true);
    assert_eq!(r.unwrap_err(), ParseError::BadMethod);
}
