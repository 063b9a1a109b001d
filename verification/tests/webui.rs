use rhythm::webui::{bytes_eq_ignore_case, file_answer, header_value, ui_answer, FileAnswer, UiAnswer};

fn hs(pairs: &[(&str, Option<&str>)]) -> Vec<(String, Option<String>)> {
    pairs.iter().map(|(k, v)| (k.to_string(), v.map(String::from))).collect()
}

fn handshake() -> Vec<(String, Option<String>)> {
    hs(&[
        ("host", Some("localhost:8081")),
        ("upgrade", Some("websocket")),
        ("connection", Some("keep-alive, Upgrade")),
        ("sec-websocket-key", Some("dGhlIHNhbXBsZSBub25jZQ==")),
        ("sec-websocket-version", Some("13")),
    ])
}

#[test]
fn header_lookup() {
    let h = hs(&[("accept", Some("a")), ("x-bin", None), ("Accept", Some("b"))]);
    assert_eq!(header_value(&h, "ACCEPT"), Some("a"));
    assert_eq!(header_value(&h, "x-bin"), None);
    assert_eq!(header_value(&h, "host"), None);
    assert!(bytes_eq_ignore_case(b"WebSocket", b"websocket"));
    assert!(!bytes_eq_ignore_case(b"websockets", b"websocket"));
}

#[test]
fn events_handshake() {
    match ui_answer("/events", &handshake()) {
        UiAnswer::Upgrade(r) => {
            assert_eq!(r.status, 101);
            assert_eq!(r.body, "");
            assert_eq!(
                r.headers,
                vec![
                    ("upgrade".to_string(), "websocket".to_string()),
                    ("connection".to_string(), "Upgrade".to_string()),
                    ("sec-websocket-accept".to_string(), "s3pPLMBiTxaQ9kYGzzhZRbK+xOo=".to_string()),
                ]
            );
        }
        other => panic!("expected an upgrade, got {:?}", other),
    }
}

#[test]
fn events_refused() {
    let mut h = handshake();
    h.retain(|(k, _)| k != "sec-websocket-version");
    match ui_answer("/events", &h) {
        UiAnswer::Reply(r) => {
            assert_eq!(r.status, 400);
            assert!(r.headers.is_empty());
        }
        other => panic!("expected a 400, got {:?}", other),
    }
    let mut h = handshake();
    h[1].1 = Some("h2c".to_string());
    assert!(matches!(ui_answer("/events", &h), UiAnswer::Reply(r) if r.status == 400));
}

#[test]
fn fixed_replies() {
    match ui_answer("/", &Vec::new()) {
        UiAnswer::Reply(r) => {
            assert_eq!(r.status, 301);
            assert_eq!(r.headers, vec![("location".to_string(), "/index.html".to_string())]);
        }
        other => panic!("expected a redirect, got {:?}", other),
    }
    assert!(matches!(ui_answer("/nope", &Vec::new()), UiAnswer::Reply(r) if r.status == 404 && r.body.is_empty()));
    assert!(matches!(ui_answer("/main.js", &Vec::new()), UiAnswer::ServeFile));
    assert!(matches!(ui_answer("/api", &Vec::new()), UiAnswer::Api));
    match file_answer(true) {
        FileAnswer::WithHeader(n, v) => assert_eq!((n.as_str(), v.as_str()), ("cache-control", "no-cache")),
        other => panic!("expected a header, got {:?}", other),
    }
    assert!(matches!(file_answer(false), FileAnswer::Reply(r) if r.status == 500));
}
