use std::path::PathBuf;

use http_server::handlers::{
    echo, file_name, files, files_post, index, process_request, reject, route, user_agent,
    FileLookup, Outcome, Progress, Route, Upload, UploadPlan, CHUNK,
};
use http_server::headers::Headers;
use http_server::http::{FileContent, HttpContent, HttpResponse, HttpStatus, PlainTextContent};
use http_server::request::{parse_request, HttpMethod, ParseError, RequestContext};

fn request(line: &[u8], headers: &[&[u8]]) -> RequestContext {
    let lines: Vec<Vec<u8>> = headers.iter().map(|h| h.to_vec()).collect();
    parse_request(line, &lines).unwrap()
}

fn respond(ctx: &RequestContext) -> HttpResponse {
    match process_request(ctx) {
        Outcome::Respond(response) => response,
        other => panic!("no response: {:?}", other),
    }
}

#[test]
fn status_codes_and_reasons() {
    assert_eq!(HttpStatus::Okay.code(), 200);
    assert_eq!(HttpStatus::Created.code(), 201);
    assert_eq!(HttpStatus::BadRequest.code(), 400);
    assert_eq!(HttpStatus::NotFound.code(), 404);
    assert_eq!(HttpStatus::InternalServerError.code(), 500);
    assert_eq!(HttpStatus::Okay.reason(), "OK");
    assert_eq!(HttpStatus::Created.reason(), "Created");
    assert_eq!(HttpStatus::BadRequest.reason(), "BadRequest");
    assert_eq!(HttpStatus::NotFound.reason(), "NotFound");
    assert_eq!(HttpStatus::InternalServerError.reason(), "InternalServerError");
}

#[test]
fn text_content_declares_its_bytes() {
    let text = PlainTextContent::new("héllo".to_string());
    assert_eq!(text.content_type(), "text/plain");
    assert_eq!(text.content_length(), 6);
    assert_eq!(text.content(), "héllo".as_bytes());
}

#[test]
fn file_content_declares_the_reported_size() {
    let file = FileContent::new(PathBuf::from("/srv/a.bin"));
    assert_eq!(file.content_type(), "application/octet-stream");
    assert_eq!(file.content_length(0), 0);
    assert_eq!(file.content_length(1_234_567_890_123), 1_234_567_890_123);
    assert_eq!(file.path(), &PathBuf::from("/srv/a.bin"));
    let content = HttpContent::from_file(PathBuf::from("/srv/a.bin"));
    assert_eq!(content.content_type(), "application/octet-stream");
    assert_eq!(content.content_length(77), 77);
    let text = HttpContent::from_text("abc".to_string());
    assert_eq!(text.content_type(), "text/plain");
    assert_eq!(text.content_length(77), 3);
    let raw = PlainTextContent::from_bytes(vec![0xff, 0x00, 0x80]);
    assert_eq!(raw.content_length(), 3);
    assert_eq!(raw.content(), &[0xff, 0x00, 0x80]);
    assert_eq!(raw.into_bytes(), vec![0xff, 0x00, 0x80]);
}

#[test]
fn new_response_is_bare() {
    let response = HttpResponse::new(HttpStatus::Created);
    assert_eq!(response.status(), HttpStatus::Created);
    assert_eq!(response.status_message(), None);
    assert!(response.content().is_none());
    assert_eq!(response.headers().len(), 0);
    assert_eq!(response.to_bytes().unwrap(), b"HTTP/1.1 201 Created\r\n\r\n".to_vec());
}

#[test]
fn status_message_replaces_the_reason() {
    let response = HttpResponse::new(HttpStatus::NotFound).with_status_message("Not Found".to_string());
    assert_eq!(response.status_message(), Some(&"Not Found".to_string()));
    assert_eq!(response.head(0), b"HTTP/1.1 404 Not Found\r\n\r\n".to_vec());
}

#[test]
fn headers_go_out_before_the_content_lines() {
    let response = HttpResponse::new(HttpStatus::Okay)
        .with_header(b"X-A".to_vec(), b"1".to_vec())
        .with_header(b"X-B".to_vec(), b"2".to_vec())
        .with_header(b"X-A".to_vec(), b"3".to_vec())
        .with_content(HttpContent::from_text("0123456789".to_string()));
    assert_eq!(
        response.to_bytes().unwrap(),
        b"HTTP/1.1 200 OK\r\nX-A: 3\r\nX-B: 2\r\nContent-Type: text/plain\r\nContent-Length: 10\r\n\r\n0123456789"
            .to_vec()
    );
}

#[test]
fn file_response_has_a_head_and_no_bytes_of_its_own() {
    let response = HttpResponse::new(HttpStatus::Okay)
        .with_content(HttpContent::from_file(PathBuf::from("/srv/a.bin")));
    assert_eq!(response.to_bytes(), None);
    assert_eq!(
        response.head(120_034),
        b"HTTP/1.1 200 OK\r\nContent-Type: application/octet-stream\r\nContent-Length: 120034\r\n\r\n"
            .to_vec()
    );
    match response.content() {
        Some(HttpContent::File(file)) => assert_eq!(file.path(), &PathBuf::from("/srv/a.bin")),
        other => panic!("not a file: {:?}", other),
    }
}

#[test]
fn empty_text_declares_length_zero() {
    let response = HttpResponse::new(HttpStatus::Okay).with_content(HttpContent::from_bytes(Vec::new()));
    assert_eq!(
        response.to_bytes().unwrap(),
        b"HTTP/1.1 200 OK\r\nContent-Type: text/plain\r\nContent-Length: 0\r\n\r\n".to_vec()
    );
}

#[test]
fn routes() {
    let route_for = |line: &[u8]| route(&request(line, &[]));
    assert_eq!(route_for(b"GET /"), Route::Index);
    assert_eq!(route_for(b"GET /user-agent"), Route::UserAgent);
    assert_eq!(route_for(b"GET /user-agent/x"), Route::NotFound);
    assert_eq!(route_for(b"GET /echo/"), Route::Echo);
    assert_eq!(route_for(b"GET /echo/a/b"), Route::Echo);
    assert_eq!(route_for(b"GET /echo"), Route::NotFound);
    assert_eq!(route_for(b"GET /files/a.txt"), Route::Files);
    assert_eq!(route_for(b"GET /nothing"), Route::NotFound);
    assert_eq!(route_for(b"POST /files/a.txt"), Route::FilesPost);
    assert_eq!(route_for(b"POST /"), Route::BadRequest);
    assert_eq!(route_for(b"POST /echo/abc"), Route::BadRequest);
}

#[test]
fn index_scenario() {
    let ctx = request(b"GET / HTTP/1.1\r\n", &[b"Host: x\r\n", b"\r\n"]);
    let bytes = respond(&ctx).to_bytes().unwrap();
    assert_eq!(bytes, b"HTTP/1.1 200 OK\r\n\r\n".to_vec());
    assert_eq!(index(&ctx).to_bytes().unwrap(), bytes);
}

#[test]
fn echo_scenario() {
    let ctx = request(b"GET /echo/abc HTTP/1.1\r\n", &[b"\r\n"]);
    assert_eq!(
        respond(&ctx).to_bytes().unwrap(),
        b"HTTP/1.1 200 OK\r\nContent-Type: text/plain\r\nContent-Length: 3\r\n\r\nabc".to_vec()
    );
}

#[test]
fn echo_answers_with_the_rest_of_the_path() {
    let cases: [&[u8]; 4] = [b"", b"a", b"a/b/c%20d", "grüße".as_bytes()];
    for x in cases {
        let mut line = b"GET /echo/".to_vec();
        line.extend_from_slice(x);
        let ctx = request(&line, &[]);
        let response = echo(&ctx);
        assert_eq!(response.status(), HttpStatus::Okay);
        match response.content() {
            Some(HttpContent::Text(text)) => {
                assert_eq!(text.content(), x);
                assert_eq!(text.content_length(), x.len());
            },
            other => panic!("not text: {:?}", other),
        }
        let mut expected = format!(
            "HTTP/1.1 200 OK\r\nContent-Type: text/plain\r\nContent-Length: {}\r\n\r\n",
            x.len()
        )
        .into_bytes();
        expected.extend_from_slice(x);
        assert_eq!(response.to_bytes().unwrap(), expected);
    }
}

#[test]
fn user_agent_answers_with_the_header() {
    let ctx = request(b"GET /user-agent", &[b"Host: x", b"User-Agent: curl/8.0"]);
    assert_eq!(
        respond(&ctx).to_bytes().unwrap(),
        b"HTTP/1.1 200 OK\r\nContent-Type: text/plain\r\nContent-Length: 8\r\n\r\ncurl/8.0".to_vec()
    );
}

#[test]
fn user_agent_without_the_header_is_a_bad_request() {
    let ctx = request(b"GET /user-agent", &[b"Host: x", b"user-agent: lower"]);
    let response = user_agent(&ctx);
    assert_eq!(response.status(), HttpStatus::BadRequest);
    assert!(response.content().is_none());
    assert_eq!(respond(&ctx).to_bytes().unwrap(), b"HTTP/1.1 400 BadRequest\r\n\r\n".to_vec());
}

#[test]
fn missing_file_scenario() {
    let ctx = request(b"GET /files/foo.txt HTTP/1.1\r\n", &[b"\r\n"]);
    assert!(matches!(process_request(&ctx), Outcome::FindFile));
    assert_eq!(file_name(&ctx), b"foo.txt".to_vec());
    let response = files(&ctx, FileLookup::Absent);
    assert_eq!(response.status(), HttpStatus::NotFound);
    assert!(response.content().is_none());
    assert_eq!(response.to_bytes().unwrap(), b"HTTP/1.1 404 NotFound\r\n\r\n".to_vec());
}

#[test]
fn files_without_a_directory_is_a_server_error() {
    let ctx = request(b"GET /files/foo.txt", &[]);
    let response = files(&ctx, FileLookup::Unconfigured);
    assert_eq!(response.to_bytes().unwrap(), b"HTTP/1.1 500 InternalServerError\r\n\r\n".to_vec());
}

#[test]
fn found_file_is_served_from_its_path() {
    let ctx = request(b"GET /files/dir/foo.txt", &[]);
    assert_eq!(file_name(&ctx), b"dir/foo.txt".to_vec());
    let response = files(&ctx, FileLookup::Present(PathBuf::from("/srv/dir/foo.txt")));
    assert_eq!(response.status(), HttpStatus::Okay);
    match response.content() {
        Some(HttpContent::File(file)) => assert_eq!(file.path(), &PathBuf::from("/srv/dir/foo.txt")),
        other => panic!("not a file: {:?}", other),
    }
    assert_eq!(
        response.head(5),
        b"HTTP/1.1 200 OK\r\nContent-Type: application/octet-stream\r\nContent-Length: 5\r\n\r\n".to_vec()
    );
}

#[test]
fn upload_without_a_directory_is_a_server_error() {
    let ctx = request(b"POST /files/a", &[b"Content-Length: 3"]);
    assert!(matches!(process_request(&ctx), Outcome::ReceiveFile));
    match files_post(&ctx, false) {
        UploadPlan::Refuse(response) => assert_eq!(response.status(), HttpStatus::InternalServerError),
        other => panic!("accepted: {:?}", other),
    }
}

#[test]
fn upload_without_a_length_is_a_bad_request() {
    let cases: [&[&[u8]]; 4] = [
        &[],
        &[b"Content-Length: abc"],
        &[b"Content-Length: -4"],
        &[b"content-length: 4"],
    ];
    for headers in cases {
        let ctx = request(b"POST /files/a", headers);
        match files_post(&ctx, true) {
            UploadPlan::Refuse(response) => {
                assert_eq!(response.status(), HttpStatus::BadRequest);
                assert!(response.content().is_none());
            },
            other => panic!("accepted: {:?}", other),
        }
    }
}

#[test]
fn upload_counts_the_declared_bytes() {
    let ctx = request(b"POST /files/a", &[b"Content-Length: 10000"]);
    let mut upload = match files_post(&ctx, true) {
        UploadPlan::Receive(upload) => upload,
        other => panic!("refused: {:?}", other),
    };
    assert_eq!(CHUNK, 8192);
    assert!(!upload.is_complete());
    assert_eq!(upload.wanted(), 8192);
    assert_eq!(upload.record(100), Progress::More);
    assert_eq!(upload.wanted(), 8192);
    assert_eq!(upload.record(8192), Progress::More);
    assert_eq!(upload.wanted(), 1708);
    assert_eq!(upload.record(0), Progress::Truncated);
    assert!(!upload.is_complete());
    assert_eq!(upload.record(1708), Progress::Complete);
    assert!(upload.is_complete());
    assert_eq!(upload.wanted(), 0);
    assert_eq!(upload.finish().to_bytes().unwrap(), b"HTTP/1.1 201 Created\r\n\r\n".to_vec());
}

#[test]
fn upload_of_nothing_is_complete_at_once() {
    let upload = Upload::new(0);
    assert!(upload.is_complete());
    assert_eq!(upload.wanted(), 0);
    assert_eq!(upload.finish().status(), HttpStatus::Created);
}

#[test]
fn unsupported_method_is_answered_with_400() {
    let error = parse_request(b"DELETE /files/a HTTP/1.1", &Vec::new()).err();
    assert_eq!(error, Some(ParseError::UnsupportedMethod));
    assert_eq!(
        reject(ParseError::UnsupportedMethod).to_bytes().unwrap(),
        b"HTTP/1.1 400 BadRequest\r\n\r\n".to_vec()
    );
    assert_eq!(reject(ParseError::MalformedRequest).status(), HttpStatus::BadRequest);
    assert_eq!(reject(ParseError::MalformedHeader).status(), HttpStatus::BadRequest);
}

#[test]
fn unmatched_requests() {
    let get = request(b"GET /nowhere", &[]);
    assert_eq!(respond(&get).to_bytes().unwrap(), b"HTTP/1.1 404 NotFound\r\n\r\n".to_vec());
    let post = request(b"POST /nowhere", &[]);
    assert_eq!(respond(&post).to_bytes().unwrap(), b"HTTP/1.1 400 BadRequest\r\n\r\n".to_vec());
}

#[test]
fn request_context_is_plain_data() {
    let mut headers = Headers::new();
    headers.insert(b"User-Agent".to_vec(), b"t".to_vec());
    let ctx = RequestContext {
        method: HttpMethod::Get,
        path: b"/user-agent".to_vec(),
        http_version: b"HTTP/1.1".to_vec(),
        headers,
    };
    assert_eq!(route(&ctx), Route::UserAgent);
    assert_eq!(user_agent(&ctx).to_bytes().unwrap().ends_with(b"\r\n\r\nt"), true);
}
