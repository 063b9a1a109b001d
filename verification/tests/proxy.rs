use rhythm::proto::{APICall, WSNotify};
use rhythm::proxy::{after_response, request_notice, AfterResponse};
use rhythm::proxy::{
    api_reply, connect_plan, default_dont_intercept, dispatch, error_page, forward_uri, gateway_status,
    is_upgrade, sniff, ui_route, upgrade_error_page, upgrade_failure_status, ConnectPlan, Dispatch, Sniffed, UiRoute, UriScheme,
};

#[test]
fn dispatch_by_method_and_authority() {
    assert_eq!(dispatch("CONNECT", true), Dispatch::Tunnel);
    assert_eq!(dispatch("CONNECT", false), Dispatch::Tunnel);
    assert_eq!(dispatch("GET", false), Dispatch::WebUi);
    assert_eq!(dispatch("GET", true), Dispatch::Forward);
    assert_eq!(dispatch("connect", true), Dispatch::Forward);
}

#[test]
fn web_ui_routes() {
    assert_eq!(ui_route("/events"), UiRoute::Events);
    assert_eq!(ui_route("/"), UiRoute::Root);
    for f in ["/favicon.ico", "/main.js", "/main.wasm", "/index.html", "/style.css"] {
        assert_eq!(ui_route(f), UiRoute::StaticFile);
    }
    assert_eq!(ui_route("/api"), UiRoute::Api);
    assert_eq!(ui_route("/secret.txt"), UiRoute::NotFound);
    assert_eq!(ui_route("/api/"), UiRoute::NotFound);
}

#[test]
fn api_replies() {
    let r = api_reply(None);
    assert_eq!((r.status, r.body.as_str()), (400, "no query"));
    let r = api_reply(Some(Err("unknown variant".to_string())));
    assert_eq!((r.status, r.body.as_str()), (400, "unknown variant"));
    let r = api_reply(Some(Ok(APICall::Brief { id: 1 })));
    assert_eq!((r.status, r.body.as_str()), (200, "[0,0,\"GET\",\"example.com\",\"???\",200,1,2000,[]]"));
    let r = api_reply(Some(Ok(APICall::Headers { id: 1 })));
    assert_eq!((r.status, r.body.as_str()), (200, ""));
}

#[test]
fn connect_plans() {
    let patterns = default_dont_intercept();
    assert_eq!(patterns.len(), 3);
    assert!(matches!(connect_plan(Some("www.github.com:443"), &patterns), Some(ConnectPlan::PassThrough)));
    assert!(matches!(connect_plan(Some("mail.google.com:443"), &patterns), Some(ConnectPlan::PassThrough)));
    assert!(matches!(connect_plan(Some("docs.rs:443"), &patterns), Some(ConnectPlan::Intercept)));
    assert!(matches!(connect_plan(Some("example.com:443"), &patterns), Some(ConnectPlan::Intercept)));
    match connect_plan(None, &patterns) {
        Some(ConnectPlan::Reject { status, body }) => {
            assert_eq!(status, 400);
            assert_eq!(body, "CONNECT must contain an endpoint to connect to");
        }
        _ => panic!("expected a rejection"),
    }
    assert!(connect_plan(Some("a"), &vec!["(".to_string()]).is_none());
}

#[test]
fn sniffing() {
    assert_eq!(sniff(&[0x16, 0x03, 0x01, 0x02, 0x00, 0x01]), Sniffed::Tls);
    assert_eq!(sniff(b"OPTIONS / HTTP/1.1\r\n"), Sniffed::PlainHttp);
    assert_eq!(sniff(b"GET /index.html HT"), Sniffed::PlainHttp);
    assert_eq!(sniff(b"GETTING"), Sniffed::PlainHttp);
    assert_eq!(sniff(b""), Sniffed::PlainHttp);
    assert_eq!(sniff(b"get / HTTP/1.1"), Sniffed::Unknown);
    assert_eq!(sniff(&[0x16]), Sniffed::Unknown);
    assert_eq!(sniff(&[0x05, 0x01, 0x00]), Sniffed::Unknown);
}

#[test]
fn forwarded_uris() {
    assert_eq!(
        forward_uri(UriScheme::Https, "example.com:443", Some("/a?b=c")),
        Some("https://example.com:443/a?b=c".to_string())
    );
    assert_eq!(forward_uri(UriScheme::Http, "example.com", Some("/")), Some("http://example.com/".to_string()));
    assert_eq!(forward_uri(UriScheme::Http, "example.com", None), None);
    assert_eq!(
        forward_uri(UriScheme::Https, "user@h:8443", Some("/p/{x}/\"y\"?q=1")),
        Some("https://user@h:8443/p/{x}/\"y\"?q=1".to_string())
    );
    assert_eq!(forward_uri(UriScheme::Http, "h", Some("/p?q=\"1\"")), None);
    assert_eq!(forward_uri(UriScheme::Http, "h", Some("/a#frag")), Some("http://h/a".to_string()));
    assert_eq!(forward_uri(UriScheme::Http, "h", Some("/a b")), None);
}

#[test]
fn gateway_replies() {
    assert_eq!(gateway_status(true), 504);
    assert_eq!(gateway_status(false), 502);
    assert_eq!(error_page("boom"), "<html><body><h1>Rhythm</h1> boom</body></html>");
    assert_eq!(upgrade_error_page("boom"), "<html><body><h1>Rhythm</h1>Upgrade boom</body></html>");
    assert_eq!(upgrade_failure_status(), 502);
    assert!(is_upgrade(101));
    assert!(!is_upgrade(200));
}

#[test]
fn exchange_steps() {
    assert!(request_notice(None, "GET".to_string(), "http://a/".to_string()).is_none());
    match request_notice(Some(4), "GET".to_string(), "http://a/".to_string()) {
        Some(WSNotify::NewReq { id, method, uri }) => assert_eq!((id, method.as_str(), uri.as_str()), (4, "GET", "http://a/")),
        _ => panic!("expected a request notice"),
    }
    assert_eq!(after_response(Some(4), 101), AfterResponse::Upgrade);
    assert_eq!(after_response(None, 101), AfterResponse::Upgrade);
    assert_eq!(after_response(Some(4), 200), AfterResponse::StoreAndNotify { id: 4 });
    assert_eq!(after_response(None, 502), AfterResponse::ForwardOnly);
}
