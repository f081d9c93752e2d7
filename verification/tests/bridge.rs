use std::io::Write;

use git_http_backend::body::prepare_body;
use git_http_backend::errors::BridgeError;
use git_http_backend::headers::Headers;
use git_http_backend::parse::{feed_header_line, parse_cgi_head, parse_header_block, response_head};
use git_http_backend::text::norm_path_exec;
use git_http_backend::Serve;

fn lines_of(block: &str) -> Vec<String> {
    block.split('\n').map(|l| l.to_string()).collect()
}

fn gzip(data: &[u8]) -> Vec<u8> {
    let mut enc = flate2::write::GzEncoder::new(Vec::new(), flate2::Compression::default());
    enc.write_all(data).unwrap();
    enc.finish().unwrap()
}

#[test]
fn env_contains_all_seven_variables() {
    let serve = Serve(String::from("/srv/repos"));
    let env = serve.cgi_env("get", "a/b", None, "127.0.0.1:4000", "");
    let pairs = env.to_pairs();
    assert_eq!(pairs.len(), 7);
    let names: Vec<&str> = pairs.iter().map(|p| p.0.as_str()).collect();
    assert_eq!(
        names,
        vec![
            "REQUEST_METHOD",
            "GIT_PROJECT_ROOT",
            "PATH_INFO",
            "REMOTE_USER",
            "REMOTE_ADDR",
            "QUERY_STRING",
            "CONTENT_TYPE",
        ]
    );
    assert_eq!(pairs[0].1, "GET");
    assert_eq!(pairs[1].1, "/srv/repos");
    assert_eq!(pairs[2].1, "/a/b");
    assert_eq!(pairs[3].1, "");
    assert_eq!(pairs[4].1, "127.0.0.1:4000");
    assert_eq!(pairs[5].1, "");
    assert_eq!(pairs[6].1, "");
}

#[test]
fn env_uses_given_values_when_present() {
    let serve = Serve(String::from("root"));
    let query = String::from("service=git-upload-pack");
    let env = serve.cgi_env(
        "POST",
        "/repo/info/refs",
        Some(&query),
        "10.0.0.1:80",
        "application/x-git-upload-pack-request",
    );
    assert_eq!(env.request_method, "POST");
    assert_eq!(env.path_info, "/repo/info/refs");
    assert_eq!(env.query_string, "service=git-upload-pack");
    assert_eq!(env.content_type, "application/x-git-upload-pack-request");
    assert_eq!(env.remote_user, "");
}

#[test]
fn path_info_always_begins_with_slash() {
    assert_eq!(norm_path_exec("a/b"), "/a/b");
    assert_eq!(norm_path_exec("/a/b"), "/a/b");
    assert_eq!(norm_path_exec(""), "/");
}

#[test]
fn round_trip_header_block() {
    let raw = "X-Test: value1\r\nX-Test: value2\r\nStatus: 404 Not Found\r\n\r\nBODY";
    let lines = lines_of(raw);
    let (head, consumed) = parse_cgi_head(&lines).unwrap();
    assert_eq!(head.status, 404);
    let values = head.headers.get("X-Test").unwrap();
    assert_eq!(values, &vec![String::from("value1"), String::from("value2")]);
    assert!(head.headers.get("Status").is_none());
    assert_eq!(head.headers.len(), 1);
    assert_eq!(consumed, 4);
    let body = lines[consumed..].join("\n");
    assert_eq!(body, "BODY");
}

#[test]
fn absent_status_defaults_to_200() {
    let lines = lines_of("Content-Type: text/plain\r\n\r\n");
    let (head, _) = parse_cgi_head(&lines).unwrap();
    assert_eq!(head.status, 200);
    assert_eq!(
        head.headers.get("Content-Type").unwrap(),
        &vec![String::from("text/plain")]
    );
}

#[test]
fn status_without_reason_phrase_parses() {
    let lines = lines_of("Status: 304\r\n\r\n");
    let (head, _) = parse_cgi_head(&lines).unwrap();
    assert_eq!(head.status, 304);
}

#[test]
fn unparsable_status_defaults_to_200() {
    for status_line in ["Status: abc", "Status: ", "Status: 99999999 Huge", "Status:"] {
        let mut block = String::from(status_line);
        block.push_str("\r\n\r\n");
        let (head, _) = parse_cgi_head(&lines_of(&block)).unwrap();
        assert_eq!(head.status, 200, "for {status_line:?}");
    }
}

#[test]
fn only_first_status_value_counts() {
    let lines = lines_of("Status: 404 Not Found\r\nStatus: 500 Oops\r\n\r\n");
    let (head, _) = parse_cgi_head(&lines).unwrap();
    assert_eq!(head.status, 404);
    assert!(head.headers.get("Status").is_none());
}

#[test]
fn header_value_leading_space_is_optional() {
    let lines = lines_of("A:1\r\nB: 2\r\nC:  3\r\n\r\n");
    let (head, _) = parse_cgi_head(&lines).unwrap();
    assert_eq!(head.headers.get("A").unwrap(), &vec![String::from("1")]);
    assert_eq!(head.headers.get("B").unwrap(), &vec![String::from("2")]);
    assert_eq!(head.headers.get("C").unwrap(), &vec![String::from(" 3")]);
}

#[test]
fn head_without_blank_line_consumes_everything() {
    let lines = lines_of("A: 1\r\nB: 2");
    let (headers, consumed) = parse_header_block(&lines).unwrap();
    assert_eq!(consumed, 2);
    assert_eq!(headers.get("A").unwrap(), &vec![String::from("1")]);
    assert_eq!(headers.get("B").unwrap(), &vec![String::from("2")]);
}

#[test]
fn malformed_header_line_fails_before_any_head() {
    let lines = lines_of("X-Ok: yes\r\nNoColonHere\r\n\r\n");
    match parse_cgi_head(&lines) {
        Err(BridgeError::ResponseParseError) => {}
        other => panic!("expected ResponseParseError, got {other:?}"),
    }
}

#[test]
fn feed_line_reports_blank_and_records_pairs() {
    let mut headers = Headers::new();
    assert_eq!(feed_header_line(&mut headers, "X: 1\r"), Ok(false));
    assert_eq!(feed_header_line(&mut headers, "X: 2"), Ok(false));
    assert_eq!(feed_header_line(&mut headers, "\r"), Ok(true));
    assert_eq!(
        headers.get("X").unwrap(),
        &vec![String::from("1"), String::from("2")]
    );
    let mut broken = Headers::new();
    assert_eq!(
        feed_header_line(&mut broken, "bad line"),
        Err(BridgeError::ResponseParseError)
    );
}

#[test]
fn removing_status_hands_out_its_values() {
    let mut headers = Headers::new();
    headers.add(String::from("Status"), String::from("404 Not Found"));
    headers.add(String::from("X"), String::from("1"));
    let taken = headers.remove("Status").unwrap();
    assert_eq!(taken, vec![String::from("404 Not Found")]);
    assert!(headers.get("Status").is_none());
    assert_eq!(headers.len(), 1);
    assert!(headers.remove("Status").is_none());
}

#[test]
fn gzip_body_is_transparently_inflated() {
    let compressed = gzip(b"hello");
    assert_ne!(compressed, b"hello");
    let forwarded = prepare_body("gzip", compressed).unwrap();
    assert_eq!(forwarded, b"hello");
}

#[test]
fn plain_body_passes_through_unchanged() {
    let body = b"hello".to_vec();
    assert_eq!(prepare_body("", body.clone()).unwrap(), body);
    assert_eq!(prepare_body("identity", body.clone()).unwrap(), body);
}

#[test]
fn corrupt_gzip_body_fails_with_decode_error() {
    let garbage = vec![0x1f, 0x8b, 0xff, 0x00, 0x01, 0x02];
    match prepare_body("gzip", garbage) {
        Err(BridgeError::BodyDecodeError) => {}
        other => panic!("expected BodyDecodeError, got {other:?}"),
    }
}

#[test]
fn identical_inputs_give_identical_outcomes() {
    let raw = "Status: 404 Not Found\r\nX-Test: value1\r\n\r\nBODY";
    let lines = lines_of(raw);
    let (head1, n1) = parse_cgi_head(&lines).unwrap();
    let (head2, n2) = parse_cgi_head(&lines).unwrap();
    assert_eq!(n1, n2);
    assert_eq!(head1.status, head2.status);
    assert_eq!(head1.headers.len(), head2.headers.len());
    assert_eq!(head1.headers.get("X-Test"), head2.headers.get("X-Test"));

    let compressed = gzip(b"payload");
    assert_eq!(
        prepare_body("gzip", compressed.clone()),
        prepare_body("gzip", compressed)
    );

    let serve = Serve(String::from("root"));
    let e1 = serve.cgi_env("GET", "a", None, "1.2.3.4:1", "t");
    let e2 = serve.cgi_env("GET", "a", None, "1.2.3.4:1", "t");
    assert_eq!(e1.to_pairs(), e2.to_pairs());
}

#[test]
fn error_messages_name_each_failure() {
    assert_eq!(
        BridgeError::ProcessSpawnError.message(),
        "failed to spawn backend process"
    );
    assert_eq!(
        BridgeError::BodyDecodeError.message(),
        "failed to decode request body"
    );
    assert_eq!(
        BridgeError::ResponseParseError.message(),
        "malformed header line in backend output"
    );
    assert_eq!(
        BridgeError::StreamIOError.message(),
        "stream read or write failed"
    );
}

#[test]
fn response_head_strips_status_pseudo_header() {
    let mut headers = Headers::new();
    headers.add(String::from("Status"), String::from("302 Found"));
    headers.add(String::from("Location"), String::from("/elsewhere"));
    let head = response_head(headers);
    assert_eq!(head.status, 302);
    assert!(head.headers.get("Status").is_none());
    assert_eq!(
        head.headers.get("Location").unwrap(),
        &vec![String::from("/elsewhere")]
    );
}
