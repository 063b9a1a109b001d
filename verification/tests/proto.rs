use rhythm::proto::{Method, ProtocolVersion, Request, Response, WSNotify};

#[test]
fn well_known_methods() {
    let names = ["GET", "HEAD", "POST", "PUT", "DELETE", "CONNECT", "OPTIONS", "PATCH", "TRACE"];
    for (code, name) in names.iter().enumerate() {
        match Method::from_name(name) {
            Method::WellKnown(c) => assert_eq!(c as usize, code),
            Method::Custom(_) => panic!("{} is well known", name),
        }
    }
}

#[test]
fn custom_method_keeps_its_bytes() {
    match Method::from_name("PURGE") {
        Method::Custom(b) => assert_eq!(b, b"PURGE".to_vec()),
        Method::WellKnown(_) => panic!("PURGE is not well known"),
    }
    match Method::from_name("get") {
        Method::Custom(b) => assert_eq!(b, b"get".to_vec()),
        Method::WellKnown(_) => panic!("method names are case-sensitive"),
    }
}

#[test]
fn version_codes() {
    let r = Request::new("GET", ProtocolVersion::Http11, "http://a/".to_string(), Vec::new());
    assert_eq!(r.1 .0, 11);
    let cases = [
        (ProtocolVersion::Http09, 9),
        (ProtocolVersion::Http10, 10),
        (ProtocolVersion::Http11, 11),
        (ProtocolVersion::H2, 2),
        (ProtocolVersion::H3, 3),
        (ProtocolVersion::Other, 0),
    ];
    for (v, code) in cases {
        assert_eq!(Response::new(200, v, Vec::new()).1 .0, code);
    }
}

#[test]
fn request_headers_last_value_wins() {
    let headers = vec![
        ("accept".to_string(), b"text/html".to_vec()),
        ("cookie".to_string(), b"a=1".to_vec()),
        ("cookie".to_string(), b"b=2".to_vec()),
    ];
    let r = Request::new("POST", ProtocolVersion::Http10, "http://a/b?c".to_string(), headers);
    assert!(matches!(r.0, Method::WellKnown(2)));
    assert_eq!(r.2, "http://a/b?c");
    assert_eq!(r.3.get("cookie"), Some(&b"b=2".to_vec()));
    assert_eq!(r.3.get("accept"), Some(&b"text/html".to_vec()));
    assert_eq!(r.3.get("host"), None);
}

#[test]
fn response_head() {
    let r = Response::new(404, ProtocolVersion::H2, vec![("server".to_string(), b"x".to_vec())]);
    assert_eq!(r.0, 404);
    assert_eq!(r.1 .0, 2);
    assert_eq!(r.2.get("server"), Some(&b"x".to_vec()));
}

#[test]
fn notices() {
    match WSNotify::new_request(7, "GET".to_string(), "http://a/".to_string()) {
        WSNotify::NewReq { id, method, uri } => {
            assert_eq!(id, 7);
            assert_eq!(method, "GET");
            assert_eq!(uri, "http://a/");
        }
        _ => panic!("expected a request notice"),
    }
    assert!(matches!(WSNotify::new_response(7, 200), WSNotify::NewResp { id: 7, status: 200 }));
}

#[test]
fn stored_forms_tell_methods_apart() {
    fn form(n: &str) -> Result<u8, Vec<u8>> {
        match Method::from_name(n) {
            Method::WellKnown(c) => Ok(c),
            Method::Custom(b) => Err(b),
        }
    }
    let names = ["GET", "HEAD", "POST", "PUT", "DELETE", "CONNECT", "OPTIONS", "PATCH", "TRACE", "PURGE", "get", "GETS"];
    for a in names {
        for b in names {
            assert_eq!(form(a) == form(b), a == b);
        }
    }
}
