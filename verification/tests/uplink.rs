use rhythm::uplink::{
    connect_reply_step, connect_request, get_endpoint, EndpointError, Hosts, ProxyEntry, ProxyType,
    ReplyState, ReplyStep, Route, Target, Uplink, UriParts,
};

fn entry(ep: &str, kind: ProxyType) -> ProxyEntry {
    ProxyEntry { ep: ep.to_string(), kind, user: "".to_string(), pass: "".to_string() }
}

fn uri(text: &str) -> UriParts {
    UriParts::parse(text).unwrap()
}

#[test]
fn ipv6() {
    let uri = uri("http://[::1]:123/foo/bar?baz");
    let hosts = Hosts::new();
    let sa = get_endpoint(&uri, &hosts).unwrap();
    assert_eq!(sa, Target::Ip { ip: "::1".to_string(), port: 123 });
}

#[test]
fn custom_hosts() {
    let uri = uri("http://jowhat:123/foo/bar?baz");
    let mut hosts = Hosts::new();
    hosts.insert("jowhat".to_string(), "[::1]".to_string());
    let sa = get_endpoint(&uri, &hosts).unwrap();
    assert_eq!(sa, Target::Ip { ip: "::1".to_string(), port: 123 });
}

#[test]
fn proxy_name_over_http() {
    let uri = uri("https://test:123/foo/bar?baz");
    let up = Uplink::new(vec![entry("127.0.0.1:8081", ProxyType::HTTP)]);
    match up.route(&uri) {
        Route::Chain { entry, hops } => {
            assert_eq!(entry, "127.0.0.1:8081");
            assert_eq!(hops.len(), 1);
            assert_eq!(hops[0].via, 0);
            let target = hops[0].target.clone().unwrap();
            assert_eq!(
                connect_request(&target).into_bytes(),
                b"CONNECT test:123 HTTP/1.1\r\nHost: test:123\r\n\r\n".to_vec()
            );
        }
        Route::Direct(_) => panic!("expected a chain"),
    }
    assert_eq!(connect_reply_step(ReplyState::AwaitStatus, b"HTTP/1.1 200 bla\r\n\r\n"), ReplyStep::Established);
}

#[test]
fn proxy_ip_over_socks() {
    let uri = uri("http://192.168.1.1:123/foo/bar?baz");
    let up = Uplink::new(vec![entry("127.0.0.1:1090", ProxyType::Socks5)]);
    assert_eq!(up.proxies[0].credentials(), None);
    match up.route(&uri) {
        Route::Chain { hops, .. } => {
            assert_eq!(hops.len(), 1);
            assert_eq!(hops[0].target, Ok(Target::Ip { ip: "192.168.1.1".to_string(), port: 123 }));
        }
        Route::Direct(_) => panic!("expected a chain"),
    }
}

#[test]
fn no_proxy() {
    let uri = uri("http://127.0.0.1:4567/foo/bar?baz");
    let up = Uplink::new(Vec::new());
    match up.route(&uri) {
        Route::Direct(t) => assert_eq!(t, Ok(Target::Ip { ip: "127.0.0.1".to_string(), port: 4567 })),
        Route::Chain { .. } => panic!("expected a direct connection"),
    }
}

#[test]
fn proxy_order() {
    let uri = uri("https://test:123/foo/bar?baz");
    let up = Uplink::new(vec![
        entry("127.0.0.1:8081", ProxyType::HTTP),
        entry("2nd:2222", ProxyType::HTTP),
        entry("3rd:3333", ProxyType::HTTP),
    ]);
    match up.route(&uri) {
        Route::Chain { entry, hops } => {
            assert_eq!(entry, "127.0.0.1:8081");
            let requests: Vec<Vec<u8>> = hops
                .iter()
                .map(|h| connect_request(h.target.as_ref().unwrap()).into_bytes())
                .collect();
            assert_eq!(requests[0], b"CONNECT 2nd:2222 HTTP/1.1\r\nHost: 2nd:2222\r\n\r\n".to_vec());
            assert_eq!(requests[1], b"CONNECT 3rd:3333 HTTP/1.1\r\nHost: 3rd:3333\r\n\r\n".to_vec());
            assert_eq!(requests[2], b"CONNECT test:123 HTTP/1.1\r\nHost: test:123\r\n\r\n".to_vec());
            assert_eq!(hops.iter().map(|h| h.via).collect::<Vec<_>>(), vec![0, 1, 2]);
        }
        Route::Direct(_) => panic!("expected a chain"),
    }
}

#[test]
fn endpoint_default_ports() {
    let hosts = Hosts::new();
    assert_eq!(
        get_endpoint(&uri("https://example.com/x"), &hosts),
        Ok(Target::Domain { host: "example.com".to_string(), port: 443 })
    );
    assert_eq!(
        get_endpoint(&uri("http://example.com/x"), &hosts),
        Ok(Target::Domain { host: "example.com".to_string(), port: 80 })
    );
    assert_eq!(
        get_endpoint(&uri("HTTPS://example.com/x"), &hosts),
        Ok(Target::Domain { host: "example.com".to_string(), port: 443 })
    );
}

#[test]
fn endpoint_errors() {
    let hosts = Hosts::new();
    assert_eq!(get_endpoint(&uri("/only/a/path"), &hosts), Err(EndpointError::NoHost));
    assert_eq!(get_endpoint(&uri("example.com"), &hosts), Err(EndpointError::NoPortNorScheme));
    let plain = UriParts { scheme: None, host: Some("example.com".to_string()), port: None };
    assert_eq!(get_endpoint(&plain, &hosts), Err(EndpointError::NoPortNorScheme));
    let mut bad = Hosts::new();
    let long = "a".repeat(300);
    bad.insert("x".to_string(), long);
    let u = UriParts { scheme: Some("http".to_string()), host: Some("x".to_string()), port: None };
    assert_eq!(get_endpoint(&u, &bad), Err(EndpointError::InvalidAddress));
}

#[test]
fn authority_form_keeps_port() {
    let hosts = Hosts::new();
    assert_eq!(
        get_endpoint(&uri("example.com:8443"), &hosts),
        Ok(Target::Domain { host: "example.com".to_string(), port: 8443 })
    );
}

#[test]
fn hosts_later_entry_wins() {
    let mut hosts = Hosts::new();
    hosts.insert("a".to_string(), "1.1.1.1".to_string());
    hosts.insert("b".to_string(), "2.2.2.2".to_string());
    hosts.insert("a".to_string(), "3.3.3.3".to_string());
    assert_eq!(hosts.get("a").map(|s| s.as_str()), Some("3.3.3.3"));
    assert_eq!(hosts.get("b").map(|s| s.as_str()), Some("2.2.2.2"));
    assert_eq!(hosts.get("c"), None);
}

#[test]
fn connect_reply_steps() {
    assert_eq!(connect_reply_step(ReplyState::AwaitStatus, b"HTTP/1.0 200 OK\r\n"), ReplyStep::ReadMore);
    assert_eq!(connect_reply_step(ReplyState::AwaitStatus, b"HTTP/1.1 407 Auth\r\n\r\n"), ReplyStep::Refused);
    assert_eq!(connect_reply_step(ReplyState::AwaitStatus, b"HTTP/1.1 200"), ReplyStep::Refused);
    assert_eq!(connect_reply_step(ReplyState::AwaitStatus, b""), ReplyStep::Refused);
    assert_eq!(connect_reply_step(ReplyState::AwaitEnd, b"X: y\r\n\r\n"), ReplyStep::Established);
    assert_eq!(connect_reply_step(ReplyState::AwaitEnd, b"X: y\r\n"), ReplyStep::ReadMore);
    assert_eq!(connect_reply_step(ReplyState::AwaitEnd, b""), ReplyStep::Refused);
}

#[test]
fn connect_request_for_ip() {
    let t = Target::Ip { ip: "::1".to_string(), port: 8080 };
    assert_eq!(connect_request(&t), "CONNECT ::1:8080 HTTP/1.1\r\nHost: ::1:8080\r\n\r\n");
}

#[test]
fn credentials_when_user_given() {
    let e = ProxyEntry {
        ep: "p:1".to_string(),
        kind: ProxyType::Socks5,
        user: "me".to_string(),
        pass: "pw".to_string(),
    };
    assert_eq!(e.credentials(), Some(("me", "pw")));
}

#[test]
fn bad_proxy_address_fails_its_hop() {
    let up = Uplink::new(vec![entry("127.0.0.1:1", ProxyType::HTTP), entry("no-port", ProxyType::HTTP)]);
    match up.route(&uri("http://a:1/")) {
        Route::Chain { hops, .. } => {
            assert_eq!(hops[0].target, Err(EndpointError::InvalidAddress));
            assert_eq!(hops[1].target, Ok(Target::Domain { host: "a".to_string(), port: 1 }));
        }
        Route::Direct(_) => panic!("expected a chain"),
    }
}

fn run(chunks: &[&[u8]]) -> ReplyStep {
    let mut state = ReplyState::AwaitStatus;
    for c in chunks {
        match connect_reply_step(state, c) {
            ReplyStep::ReadMore => state = ReplyState::AwaitEnd,
            done => return done,
        }
    }
    ReplyStep::ReadMore
}

#[test]
fn reply_runs() {
    assert_eq!(run(&[b"HTTP/1.1 200 Connection established\r\n", b"Via: x\r\n", b"\r\n\r\n"]), ReplyStep::Established);
    assert_eq!(run(&[b"HTTP/1.1 200 Connection established\r\n", b"", b"\r\n\r\n"]), ReplyStep::Refused);
    assert_eq!(run(&[b"HTTP/1.1 200 Connection established\r\n", b"Via: x\r\n"]), ReplyStep::ReadMore);
    assert_eq!(run(&[b"HTTP/1.1 403 Forbidden\r\n\r\n"]), ReplyStep::Refused);
}
