use score_server::http::build_response;
use score_server::http::response_for;
use score_server::json::decimal_string;
use score_server::json::error_body;
use score_server::json::scores_body;
use score_server::reader::header_block_from_lines;
use score_server::reader::push_line;
use score_server::reader::trim_line_end;

const SCORES_JSON: &str = "{\"user1\":10,\"user2\":20,\"user3\":30,\"user4\":40,\"user5\":50,\"user6\":60,\"user7\":70,\"user8\":80,\"user9\":90,\"user10\":100}";

const ERROR_JSON: &str = "{\"status\":\"405\",\"error\":\"Method Not Allowed\",\"message\":\"POST requests are not supported at this endpoint. Please use GET.\",\"allowed\":\"[\\\"GET\\\"]\"}";

fn block(lines: &[&str]) -> Vec<String> {
    let raw: Vec<String> = lines.iter().map(|l| l.to_string()).collect();
    header_block_from_lines(&raw)
}

fn body_of(response: &str) -> &str {
    let at = response
        .find("\r\n\r\n")
        .expect("response has a blank line");
    &response[at + 4..]
}

fn content_length_of(response: &str) -> usize {
    let at = response
        .find("Content-Length: ")
        .expect("response has a Content-Length header");
    let rest = &response[at + "Content-Length: ".len()..];
    let end = rest.find("\r\n").expect("header line ends");
    rest[..end].parse().expect("Content-Length is a number")
}

#[test]
fn decimal_string_exact() {
    assert_eq!(decimal_string(0), "0");
    assert_eq!(decimal_string(7), "7");
    assert_eq!(decimal_string(86), "86");
    assert_eq!(decimal_string(12305), "12305");
    assert_eq!(decimal_string(u64::MAX), "18446744073709551615");
}

#[test]
fn scores_body_exact() {
    assert_eq!(scores_body(), SCORES_JSON);
}

#[test]
fn error_body_exact() {
    assert_eq!(error_body(), ERROR_JSON);
}

#[test]
fn trim_line_end_cases() {
    assert_eq!(trim_line_end("GET / HTTP/1.1\r\n"), "GET / HTTP/1.1");
    assert_eq!(trim_line_end("Host: x\n"), "Host: x");
    assert_eq!(trim_line_end("a b \t \r\n"), "a b");
    assert_eq!(trim_line_end("\r\n"), "");
    assert_eq!(trim_line_end(""), "");
    assert_eq!(trim_line_end("no newline"), "no newline");
}

#[test]
fn push_line_stops_on_blank() {
    let mut headers: Vec<String> = Vec::new();
    assert!(!push_line(&mut headers, "GET / HTTP/1.1\r\n"));
    assert!(!push_line(&mut headers, "Host: x\r\n"));
    assert!(push_line(&mut headers, "\r\n"));
    assert_eq!(headers, vec!["GET / HTTP/1.1", "Host: x", ""]);
}

#[test]
fn header_block_stops_at_blank_line() {
    let b = block(&["GET / HTTP/1.1\r\n", "Host: x\r\n", "\r\n", "ignored body\r\n"]);
    assert_eq!(b, vec!["GET / HTTP/1.1", "Host: x", ""]);
}

#[test]
fn header_block_without_terminator_keeps_all_lines() {
    let b = block(&["GET / HTTP/1.1\r\n", "Host: x\r\n"]);
    assert_eq!(b, vec!["GET / HTTP/1.1", "Host: x"]);
}

#[test]
fn get_root_responds_ok() {
    let b = block(&["GET / HTTP/1.1\r\n", "Host: x\r\n", "\r\n"]);
    let r = response_for(&b);
    assert!(r.starts_with("HTTP/1.1 200 OK\r\n"));
    assert_eq!(body_of(&r), SCORES_JSON);
    assert!(r.contains("\r\nContent-Type: application/json\r\n"));
    assert!(r.contains("\r\nAccess-Control-Allow-Origin: *\r\n"));
    assert!(r.contains("\r\nAccess-Control-Allow-Methods: GET\r\n"));
    assert!(r.contains("\r\nAccess-Control-Max-Age: 86400\r\n"));
    assert!(r.contains("\r\nAccess-Control-Allow-Headers: X-PINGOTHER, Content-Type\r\n"));
}

#[test]
fn post_root_responds_method_not_allowed() {
    let b = block(&["POST / HTTP/1.1\r\n", "\r\n"]);
    let r = response_for(&b);
    assert!(r.starts_with("HTTP/1.1 405 Method Not Allowed\r\n"));
    assert_eq!(body_of(&r), ERROR_JSON);
    assert!(r.contains("\"allowed\":\"[\\\"GET\\\"]\""));
}

#[test]
fn other_paths_respond_method_not_allowed() {
    for first in ["GET /foo HTTP/1.1", "get / http/1.1", "GET / HTTP/1.0", ""] {
        let b = block(&[&format!("{}\r\n", first), "\r\n"]);
        let r = response_for(&b);
        assert!(r.starts_with("HTTP/1.1 405 Method Not Allowed\r\n"));
    }
}

#[test]
fn empty_block_responds_method_not_allowed() {
    let b: Vec<String> = Vec::new();
    let r = response_for(&b);
    assert!(r.starts_with("HTTP/1.1 405 Method Not Allowed\r\n"));
    assert_eq!(body_of(&r), ERROR_JSON);
}

#[test]
fn content_length_matches_body_bytes() {
    for lines in [&["GET / HTTP/1.1\r\n", "\r\n"][..], &["POST / HTTP/1.1\r\n", "\r\n"][..]] {
        let r = response_for(&block(lines));
        assert_eq!(content_length_of(&r), body_of(&r).len());
    }
}

#[test]
fn build_response_frames_exactly() {
    let r = build_response("HTTP/1.1 200 OK", "ab");
    assert_eq!(
        r,
        "HTTP/1.1 200 OK\r\nContent-Type: application/json\r\nAccess-Control-Allow-Origin: *\r\nAccess-Control-Allow-Methods: GET\r\nAccess-Control-Max-Age: 86400\r\nAccess-Control-Allow-Headers: X-PINGOTHER, Content-Type\r\nContent-Length: 2\r\n\r\nab"
    );
}

#[test]
fn same_request_twice_gives_identical_bytes() {
    let b1 = block(&["GET / HTTP/1.1\r\n", "Host: x\r\n", "\r\n"]);
    let b2 = block(&["GET / HTTP/1.1\r\n", "Host: x\r\n", "\r\n"]);
    let r1 = response_for(&b1);
    let r2 = response_for(&b2);
    assert_eq!(r1.as_bytes(), r2.as_bytes());
    let e1 = response_for(&block(&["POST / HTTP/1.1\r\n", "\r\n"]));
    let e2 = response_for(&block(&["POST / HTTP/1.1\r\n", "\r\n"]));
    assert_eq!(e1.as_bytes(), e2.as_bytes());
}

#[test]
fn end_to_end_get_scenario() {
    let b = block(&["GET / HTTP/1.1\r\n", "Host: x\r\n", "\r\n"]);
    let r = response_for(&b);
    assert!(r.starts_with("HTTP/1.1 200 OK\r\n"));
    let parsed: serde_json::Value = serde_json::from_str(body_of(&r)).unwrap();
    let obj = parsed.as_object().unwrap();
    assert_eq!(obj.len(), 10);
    for i in 1..=10u64 {
        assert_eq!(obj.get(&format!("user{}", i)).unwrap().as_u64(), Some(10 * i));
    }
}

#[test]
fn end_to_end_post_scenario() {
    let b = block(&["POST / HTTP/1.1\r\n", "\r\n"]);
    let r = response_for(&b);
    assert!(r.starts_with("HTTP/1.1 405 Method Not Allowed\r\n"));
    let parsed: serde_json::Value = serde_json::from_str(body_of(&r)).unwrap();
    let obj = parsed.as_object().unwrap();
    assert_eq!(obj.len(), 4);
    assert_eq!(obj.get("status").unwrap().as_str(), Some("405"));
    assert_eq!(obj.get("error").unwrap().as_str(), Some("Method Not Allowed"));
    assert_eq!(
        obj.get("message").unwrap().as_str(),
        Some("POST requests are not supported at this endpoint. Please use GET.")
    );
    assert_eq!(obj.get("allowed").unwrap().as_str(), Some("[\"GET\"]"));
}

#[test]
fn scores_round_trip() {
    let mut original = serde_json::Map::new();
    for i in 1..=10u64 {
        original.insert(format!("user{}", i), serde_json::Value::from(10 * i));
    }
    let parsed: serde_json::Value = serde_json::from_str(&scores_body()).unwrap();
    assert_eq!(parsed, serde_json::Value::Object(original));
}

#[test]
fn error_round_trip() {
    let mut original = serde_json::Map::new();
    original.insert("status".to_string(), serde_json::Value::String("405".to_string()));
    original.insert(
        "error".to_string(),
        serde_json::Value::String("Method Not Allowed".to_string()),
    );
    original.insert(
        "message".to_string(),
        serde_json::Value::String(
            "POST requests are not supported at this endpoint. Please use GET.".to_string(),
        ),
    );
    original.insert("allowed".to_string(), serde_json::Value::String("[\"GET\"]".to_string()));
    let parsed: serde_json::Value = serde_json::from_str(&error_body()).unwrap();
    assert_eq!(parsed, serde_json::Value::Object(original));
}
