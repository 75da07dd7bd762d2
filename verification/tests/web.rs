use lingot::page::INDEX_HTML;
use lingot::web::{
    json_string, request_head_pending, request_target, response_head, route, scan_request_line,
    Peek, Route, MAX_REQUEST_HEAD, WS_PATH,
};

#[test]
fn note_names_are_escaped() {
    assert_eq!(json_string(r#"A"3"#), r#""A\"3""#);
    assert_eq!(json_string("A\\3"), r#""A\\3""#);
    assert_eq!(json_string("A\u{1}"), r#""A\u0001""#);
    assert_eq!(json_string("C♯4"), "\"C♯4\"");
}

#[test]
fn the_embedded_page_is_present_and_self_contained() {
    assert!(INDEX_HTML.contains("<canvas id=\"gauge\">"));
    // A CDN reference would break the whole point: Termux with no network.
    assert!(!INDEX_HTML.contains("https://cdn"));
    assert!(!INDEX_HTML.contains("<script src="));
}

#[test]
fn control_characters_are_escaped() {
    assert_eq!(json_string("a\nb\rc\td"), r#""a\nb\rc\td""#);
    assert_eq!(json_string("\u{1f}"), r#""\u001f""#);
    assert_eq!(json_string(""), r#""""#);
    assert_eq!(json_string(" "), "\" \"");
}

#[test]
fn request_target_is_the_middle_field() {
    assert_eq!(request_target(b"GET /ws HTTP/1.1"), Some(b"/ws".to_vec()));
    assert_eq!(request_target(b"GET / HTTP/1.1"), Some(b"/".to_vec()));
    assert_eq!(request_target(b"GET /x"), Some(b"/x".to_vec()));
    assert_eq!(request_target(b"GET  /x"), Some(Vec::new()));
    assert_eq!(request_target(b"GET"), None);
    assert_eq!(request_target(b""), None);
}

#[test]
fn routes_follow_the_target() {
    assert_eq!(WS_PATH, "/ws");
    assert_eq!(route(Some(b"/ws")), Route::WebSocket);
    assert_eq!(route(Some(b"/")), Route::Page);
    assert_eq!(route(Some(b"/index.html")), Route::NotFound);
    assert_eq!(route(Some(b"/wss")), Route::NotFound);
    assert_eq!(route(Some(b"")), Route::NotFound);
    assert_eq!(route(None), Route::NotFound);
}

#[test]
fn peeked_request_lines() {
    assert_eq!(scan_request_line(b"", 512), Peek::Closed);
    assert_eq!(
        scan_request_line(b"GET /ws HTTP/1.1\r\nHost: x\r\n\r\n", 512),
        Peek::Line(Some(b"/ws".to_vec()))
    );
    assert_eq!(scan_request_line(b"GARBAGE\r\n", 512), Peek::Line(None));
    assert_eq!(scan_request_line(b"GET / HT", 512), Peek::Pending);
    assert_eq!(scan_request_line(b"GET / HT", 8), Peek::Overlong);
    // a lone CR at the end is not yet a line ending
    assert_eq!(scan_request_line(b"GET / HTTP/1.1\r", 512), Peek::Pending);
}

#[test]
fn request_head_ends_at_the_blank_line() {
    assert!(request_head_pending(b""));
    assert!(request_head_pending(b"GET / HTTP/1.1\r\nHost: x\r\n"));
    assert!(!request_head_pending(b"GET / HTTP/1.1\r\nHost: x\r\n\r\n"));
    assert!(!request_head_pending(b"\r\n\r\nbody"));
    let long = vec![b'a'; MAX_REQUEST_HEAD];
    assert!(!request_head_pending(&long));
    assert!(request_head_pending(&long[..MAX_REQUEST_HEAD - 1]));
}

#[test]
fn response_head_is_exact() {
    assert_eq!(
        response_head("404 Not Found", "text/plain; charset=utf-8", 10),
        "HTTP/1.1 404 Not Found\r\nContent-Type: text/plain; charset=utf-8\r\nContent-Length: 10\r\nCache-Control: no-store\r\nConnection: close\r\n\r\n"
    );
    assert!(response_head("200 OK", "text/html", 0).contains("Content-Length: 0\r\n"));
    assert!(response_head("200 OK", "text/html", 1234567).contains("Content-Length: 1234567\r\n"));
}

#[test]
fn quoted_names_hold_no_raw_control_characters() {
    let all_controls: String = (0u32..0x20).map(|c| char::from_u32(c).unwrap()).collect();
    let quoted = json_string(&all_controls);
    assert!(quoted.chars().all(|c| c as u32 >= 0x20), "{quoted}");
    assert!(quoted.starts_with("\"\\u0000\\u0001"));
    assert!(quoted.ends_with("\\u001e\\u001f\""));
}
