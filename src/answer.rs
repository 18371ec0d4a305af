//! Framing of the HTTP response sent back on a connection.
use vstd::prelude::*;
use vstd::string::StringSliceAdditionalSpecFns;

use crate::bytes::{append_bytes, decimal, push_decimal};
use crate::request::request_outcome;
use crate::target::resolved_outcome;

verus! {

pub const STATUS_OK: &'static str = "HTTP/1.1 200 OK\r\n";

pub const STATUS_NOT_FOUND: &'static str = "HTTP/1.1 404 Not Found\r\n";

/// The three fixed headers, in the order they are sent.
pub const FIXED_HEADERS: &'static str = "Server: Simple Web Server\r\nConnection: close\r\nContent-Type: text/html\r\n";

pub const CONTENT_LENGTH: &'static str = "Content-Length: ";

pub const LINE_END: &'static str = "\r\n";

/// The page sent whenever the requested file could not be read.
pub const NOT_FOUND_HTML_PAGE_CODE: &'static str = r#"<!DOCTYPE html>
<html lang="en">
<head>
    <meta charset="UTF-8">
    <title>Simple Web Server</title>
    <style>
        body {
            font-family: Arial, sans-serif;
            background-color: #f0f0f0;
            margin: 0;
            padding: 0;
            display: flex;
            justify-content: center;
            align-items: center;
            height: 100vh;
            flex-direction: column;
        }
        h1 {
            color: #333;
        }
        p {
            color: #666;
            text-align: center;
            max-width: 600px;
            margin: 0;
            font-size: 1.2em;
        }
    </style>
</head>
<body>
    <h1>404</h1>
    <p>Page Not Found</p>
</body>
</html>
"#;

/// The body that is sent: the file's text when there is one, else the
/// fixed not-found page.
pub open spec fn answer_body(content: Option<Seq<u8>>) -> Seq<u8> {
    match content {
        Some(c) => c,
        None => NOT_FOUND_HTML_PAGE_CODE.spec_bytes(),
    }
}

/// The status line: 200 when there is content, 404 when there is none.
pub open spec fn status_line(found: bool) -> Seq<u8> {
    if found {
        STATUS_OK.spec_bytes()
    } else {
        STATUS_NOT_FOUND.spec_bytes()
    }
}

/// The whole response for an optional file content: status line, the fixed
/// headers, `Content-Length` with the body's exact byte length, a blank
/// line, then the body.
pub open spec fn http_answer(content: Option<Seq<u8>>) -> Seq<u8> {
    let body = answer_body(content);
    status_line(content is Some) + FIXED_HEADERS.spec_bytes() + CONTENT_LENGTH.spec_bytes()
        + decimal(body.len()) + LINE_END.spec_bytes() + LINE_END.spec_bytes() + body
}

/// Forms the HTTP answer. `requested_file_content` is `None` when the
/// requested file could not be read.
pub fn form_http_answer(requested_file_content: Option<&str>) -> (answer: Vec<u8>)
    ensures
        answer@ == http_answer(
            match requested_file_content {
                Some(c) => Some(c.spec_bytes()),
                None => None,
            },
        ),
{
    let mut answer: Vec<u8> = Vec::new();
    let content: &str = match requested_file_content {
        None => {
            append_bytes(&mut answer, STATUS_NOT_FOUND.as_bytes());
            NOT_FOUND_HTML_PAGE_CODE
        },
        Some(c) => {
            append_bytes(&mut answer, STATUS_OK.as_bytes());
            c
        },
    };
    append_bytes(&mut answer, FIXED_HEADERS.as_bytes());
    append_bytes(&mut answer, CONTENT_LENGTH.as_bytes());
    let body: &[u8] = content.as_bytes();
    push_decimal(&mut answer, body.len());
    append_bytes(&mut answer, LINE_END.as_bytes());
    append_bytes(&mut answer, LINE_END.as_bytes());
    append_bytes(&mut answer, body);
    answer
}

/// Serving is deterministic: the same request bytes, against the same file
/// content, resolve to the same path and give the same response bytes.
pub proof fn lemma_identical_requests_identical_answers(
    first: Seq<u8>,
    second: Seq<u8>,
    first_content: Option<Seq<u8>>,
    second_content: Option<Seq<u8>>,
)
    requires
        first == second,
        first_content == second_content,
    ensures
        request_outcome(first) == request_outcome(second),
        resolved_outcome(first) == resolved_outcome(second),
        http_answer(first_content) == http_answer(second_content),
{
}

} // verus!
