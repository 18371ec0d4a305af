use simple_web_server::answer::{form_http_answer, NOT_FOUND_HTML_PAGE_CODE};
use simple_web_server::error::{Error, ReadFault};
use simple_web_server::request::{read_http_request, ReadStep, RequestReader, MAX_REQUEST_READ_SIZE};
use simple_web_server::target::{
    get_requested_path, index_target, relative_target, request_target, resolve_request,
};

fn answer_text(answer: Vec<u8>) -> String {
    String::from_utf8(answer).unwrap()
}

#[test]
fn root_request_is_read_whole() {
    let input = b"GET / HTTP/1.1\r\n\r\n";
    assert_eq!(read_http_request(input), Ok(input.to_vec()));
}

#[test]
fn request_stops_at_first_blank_line() {
    let input = b"GET /a HTTP/1.1\r\nHost: x\r\n\r\nbody bytes";
    assert_eq!(
        read_http_request(input),
        Ok(b"GET /a HTTP/1.1\r\nHost: x\r\n\r\n".to_vec())
    );
}

#[test]
fn bare_line_feeds_end_a_request() {
    let input = b"GET / HTTP/1.1\nHost: x\n\nrest";
    assert_eq!(read_http_request(input), Ok(b"GET / HTTP/1.1\nHost: x\n\n".to_vec()));
}

#[test]
fn post_request_is_wrong() {
    assert_eq!(read_http_request(b"POST / HTTP/1.1\r\n\r\n"), Err(Error::WrongRequest));
}

#[test]
fn stream_ending_before_the_method_is_wrong() {
    assert_eq!(read_http_request(b"GE"), Err(Error::WrongRequest));
    assert_eq!(read_http_request(b""), Err(Error::WrongRequest));
}

#[test]
fn method_only_then_end_is_wrong() {
    assert_eq!(read_http_request(b"GET"), Err(Error::WrongRequest));
}

#[test]
fn request_without_blank_line_is_wrong() {
    assert_eq!(read_http_request(b"GET / HTTP/1.1\r\nHost: x\r\n"), Err(Error::WrongRequest));
}

#[test]
fn blank_line_inside_a_line_does_not_count() {
    assert_eq!(read_http_request(b"GET / HTTP/1.1 \r\r\n"), Err(Error::WrongRequest));
}

fn padded_request(after_method: usize) -> Vec<u8> {
    let mut input = b"GET /".to_vec();
    let pad = after_method - 2 - 4;
    input.extend(std::iter::repeat(b'a').take(pad));
    input.extend_from_slice(b"\r\n\r\n");
    input
}

#[test]
fn request_at_the_cap_is_accepted() {
    let input = padded_request(MAX_REQUEST_READ_SIZE);
    assert_eq!(input.len(), 3 + 4096);
    assert_eq!(read_http_request(&input), Ok(input.clone()));
}

#[test]
fn request_over_the_cap_is_wrong() {
    let input = padded_request(MAX_REQUEST_READ_SIZE + 1);
    assert_eq!(read_http_request(&input), Err(Error::WrongRequest));
}

#[test]
fn endless_headers_are_wrong() {
    let mut input = b"GET / HTTP/1.1\r\n".to_vec();
    for _ in 0..500 {
        input.extend_from_slice(b"X-Header: value\r\n");
    }
    input.extend_from_slice(b"\r\n");
    assert_eq!(read_http_request(&input), Err(Error::WrongRequest));
}

#[test]
fn reader_refuses_other_methods() {
    assert!(matches!(RequestReader::start(b"POS"), Err(Error::WrongRequest)));
    assert!(matches!(RequestReader::start(b"GE"), Err(Error::WrongRequest)));
}

#[test]
fn reader_collects_lines_until_blank() {
    let mut reader = RequestReader::start(b"GET").ok().unwrap();
    assert_eq!(reader.remaining(), 4096);
    assert_eq!(reader.push_line(b" / HTTP/1.1\r\n"), ReadStep::NeedMore);
    assert_eq!(reader.remaining(), 4096 - 13);
    assert_eq!(reader.push_line(b"Host: x\r\n"), ReadStep::NeedMore);
    assert_eq!(reader.push_line(b"\r\n"), ReadStep::Complete);
    assert_eq!(reader.into_request(), b"GET / HTTP/1.1\r\nHost: x\r\n\r\n".to_vec());
}

#[test]
fn reader_rejects_end_of_stream_and_long_lines() {
    let mut reader = RequestReader::start(b"GET").ok().unwrap();
    assert_eq!(reader.push_line(b""), ReadStep::Rejected);
    let mut long = vec![b'a'; 4096];
    long.push(b'\n');
    assert_eq!(reader.push_line(&long), ReadStep::Rejected);
    let mut exact = vec![b'a'; 4095];
    exact.push(b'\n');
    assert_eq!(reader.push_line(&exact), ReadStep::NeedMore);
    assert_eq!(reader.remaining(), 0);
    assert_eq!(reader.push_line(b"\n"), ReadStep::Rejected);
}

#[test]
fn reader_rejects_partial_and_joined_lines() {
    let mut reader = RequestReader::start(b"GET").ok().unwrap();
    assert_eq!(reader.push_line(b" / HTTP/1.1"), ReadStep::Rejected);
    assert_eq!(reader.push_line(b" / HTTP/1.1\n\n"), ReadStep::Rejected);
    assert_eq!(reader.remaining(), 4096);
    assert_eq!(reader.push_line(b" / HTTP/1.1\n"), ReadStep::NeedMore);
    assert_eq!(reader.push_line(b"\n"), ReadStep::Complete);
    assert_eq!(reader.push_line(b"\n"), ReadStep::Rejected);
    let request = reader.into_request();
    assert_eq!(read_http_request(&request), Ok(request.clone()));
}

#[test]
fn silent_connection_is_a_timeout_not_a_wrong_request() {
    assert!(RequestReader::start(b"GET").is_ok());
    let timed_out = Error::RequestReadError(ReadFault::TimedOut);
    assert!(timed_out.is_timeout());
    assert_ne!(timed_out, Error::WrongRequest);
    assert!(!Error::WrongRequest.is_timeout());
    assert!(!Error::RequestReadError(ReadFault::EndOfStream).is_timeout());
}

#[test]
fn target_is_between_the_spaces() {
    assert_eq!(
        request_target(b"GET /index.html HTTP/1.1\r\n\r\n"),
        Some(b"/index.html".to_vec())
    );
    assert_eq!(request_target(b"GET /x\r\n\r\n"), Some(b"/x".to_vec()));
    assert_eq!(request_target(b"GET\r\n\r\n"), None);
    assert_eq!(request_target(b"GET  HTTP/1.1\r\n"), Some(Vec::new()));
}

#[test]
fn target_is_percent_decoded() {
    assert_eq!(
        get_requested_path(b"GET /a%20b.html HTTP/1.1\r\n\r\n"),
        Ok(b"/a b.html".to_vec())
    );
    assert_eq!(get_requested_path(b"GET /plain HTTP/1.1\r\n\r\n"), Ok(b"/plain".to_vec()));
    assert_eq!(get_requested_path(b"GET\r\n\r\n"), Err(Error::WrongRequest));
}

#[test]
fn malformed_utf8_target_is_wrong_uri() {
    assert_eq!(get_requested_path(b"GET /%ff HTTP/1.1\r\n\r\n"), Err(Error::WrongUri));
}

#[test]
fn encoded_parent_segment_decodes_and_is_refused() {
    let request = b"GET /%2e%2e/secret.txt HTTP/1.1\r\n\r\n";
    assert_eq!(get_requested_path(request), Ok(b"/../secret.txt".to_vec()));
    assert_eq!(resolve_request(request), Err(Error::WrongRequest));
}

#[test]
fn relative_target_strips_the_root() {
    assert_eq!(relative_target(b"/"), Ok(Vec::new()));
    assert_eq!(relative_target(b"/a/b.html"), Ok(b"a/b.html".to_vec()));
    assert_eq!(relative_target(b"//a"), Ok(b"a".to_vec()));
    assert_eq!(relative_target(b"/a..b/..."), Ok(b"a..b/...".to_vec()));
    assert_eq!(relative_target(b"a"), Err(Error::WrongRequest));
    assert_eq!(relative_target(b""), Err(Error::WrongRequest));
    assert_eq!(relative_target(b"/a/../../x"), Err(Error::WrongRequest));
    assert_eq!(relative_target(b"/.."), Err(Error::WrongRequest));
}

#[test]
fn directories_serve_their_index() {
    assert_eq!(index_target(b""), b"index.html".to_vec());
    assert_eq!(index_target(b"docs"), b"docs/index.html".to_vec());
    assert_eq!(index_target(b"docs/"), b"docs/index.html".to_vec());
}

#[test]
fn root_request_serves_index_ok() {
    let request = read_http_request(b"GET / HTTP/1.1\r\n\r\n").unwrap();
    let rel = resolve_request(&request).unwrap();
    assert_eq!(rel, Vec::<u8>::new());
    assert_eq!(index_target(&rel), b"index.html".to_vec());
    let answer = answer_text(form_http_answer(Some("OK")));
    assert_eq!(
        answer,
        "HTTP/1.1 200 OK\r\nServer: Simple Web Server\r\nConnection: close\r\n\
         Content-Type: text/html\r\nContent-Length: 2\r\n\r\nOK"
    );
}

#[test]
fn missing_file_serves_not_found_page() {
    let rel = resolve_request(b"GET /missing.html HTTP/1.1\r\n\r\n").unwrap();
    assert_eq!(rel, b"missing.html".to_vec());
    let answer = answer_text(form_http_answer(None));
    assert_eq!(NOT_FOUND_HTML_PAGE_CODE.len(), 728);
    let expected = format!(
        "HTTP/1.1 404 Not Found\r\nServer: Simple Web Server\r\nConnection: close\r\n\
         Content-Type: text/html\r\nContent-Length: 728\r\n\r\n{}",
        NOT_FOUND_HTML_PAGE_CODE
    );
    assert_eq!(answer, expected);
}

#[test]
fn content_length_counts_bytes() {
    let answer = answer_text(form_http_answer(Some("héllo")));
    assert!(answer.contains("Content-Length: 6\r\n"));
    let body = "x".repeat(12345);
    let answer = answer_text(form_http_answer(Some(&body)));
    assert!(answer.contains("Content-Length: 12345\r\n\r\n"));
    let answer = answer_text(form_http_answer(Some("")));
    assert!(answer.ends_with("Content-Length: 0\r\n\r\n"));
}

#[test]
fn same_request_twice_gives_same_answer() {
    let input = b"GET /page.html HTTP/1.1\r\nHost: a\r\n\r\n";
    let first = read_http_request(input).unwrap();
    let second = read_http_request(input).unwrap();
    assert_eq!(first, second);
    assert_eq!(resolve_request(&first), resolve_request(&second));
    assert_eq!(form_http_answer(Some("<p>hi</p>")), form_http_answer(Some("<p>hi</p>")));
    assert_eq!(form_http_answer(None), form_http_answer(None));
}

#[test]
fn incomplete_escapes_stay_literal() {
    assert_eq!(get_requested_path(b"GET /a%4 HTTP/1.1\r\n\r\n"), Ok(b"/a%4".to_vec()));
    assert_eq!(get_requested_path(b"GET /%zz%4g HTTP/1.1\r\n\r\n"), Ok(b"/%zz%4g".to_vec()));
    assert_eq!(get_requested_path(b"GET /a+b%2Fc%2f HTTP/1.1\r\n\r\n"), Ok(b"/a+b/c/".to_vec()));
    assert_eq!(get_requested_path(b"GET /%%41 HTTP/1.1\r\n\r\n"), Ok(b"/%A".to_vec()));
}
