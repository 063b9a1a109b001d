//! Messages shared by the proxy and its UI, and the records of requests and
//! responses kept in the history database.
use vstd::prelude::*;
use vstd::string::*;
use vstd::utf8::encode_utf8;
use crate::text::str_eq;
use crate::textmap::{TextMap, pairs_map};

verus! {

/// Data requested by the UI over its REST endpoint (`/api?op=..&id=..`).
#[derive(Debug, Clone, Copy, PartialEq, Eq, Structural)]
pub enum APICall {
    /// Whole request and response headers.
    Headers { id: u64 },
    /// The summary line of a request for the list.
    Brief { id: u64 },
    /// The body of a request.
    ReqBody { id: u64 },
    /// The body of a response.
    RespBody { id: u64 },
}

/// Data sent over the websocket from the proxy to the UI.
#[derive(Debug, Clone)]
pub enum WSNotify {
    /// A request was intercepted and stored under `id`.
    NewReq { id: u64, method: String, uri: String },
    /// The response to request `id` arrived with `status`.
    NewResp { id: u64, status: u16 },
}

/// An HTTP method as stored in the history: one byte for the nine methods
/// of RFC 7231/5789, the name's bytes otherwise.
#[derive(Debug, Clone)]
pub enum Method {
    WellKnown(u8),
    Custom(Vec<u8>),
}

/// The stored code of an HTTP version.
#[derive(Debug, Clone, Copy, PartialEq, Eq, Structural)]
pub struct HttpVersion(pub u8);

/// The HTTP versions that a request or response can carry.
#[derive(Debug, Clone, Copy, PartialEq, Eq, Structural)]
pub enum ProtocolVersion {
    Http09,
    Http10,
    Http11,
    H2,
    H3,
    /// A version that none of the above names.
    Other,
}

/// Header name to value, a later header of the same name replacing an earlier one.
pub type HeaderMap = TextMap<Vec<u8>>;

/// An HTTP request head as stored in the history: method, version, URI and headers.
#[derive(Debug)]
pub struct Request(pub Method, pub HttpVersion, pub String, pub HeaderMap);

/// An HTTP response head as stored in the history: status code, version and headers.
#[derive(Debug)]
pub struct Response(pub u16, pub HttpVersion, pub HeaderMap);

/// The name of the method stored under a well-known code.
pub open spec fn well_known_name(code: u8) -> Seq<char> {
    if code == 0 {
        "GET"@
    } else if code == 1 {
        "HEAD"@
    } else if code == 2 {
        "POST"@
    } else if code == 3 {
        "PUT"@
    } else if code == 4 {
        "DELETE"@
    } else if code == 5 {
        "CONNECT"@
    } else if code == 6 {
        "OPTIONS"@
    } else if code == 7 {
        "PATCH"@
    } else {
        "TRACE"@
    }
}

/// The well-known code of a method name, if it has one (the first code, in
/// order, whose name it is).
pub open spec fn well_known_code(name: Seq<char>) -> Option<u8> {
    if name == well_known_name(0) {
        Some(0u8)
    } else if name == well_known_name(1) {
        Some(1u8)
    } else if name == well_known_name(2) {
        Some(2u8)
    } else if name == well_known_name(3) {
        Some(3u8)
    } else if name == well_known_name(4) {
        Some(4u8)
    } else if name == well_known_name(5) {
        Some(5u8)
    } else if name == well_known_name(6) {
        Some(6u8)
    } else if name == well_known_name(7) {
        Some(7u8)
    } else if name == well_known_name(8) {
        Some(8u8)
    } else {
        None
    }
}

/// Each of the nine well-known codes reads back from its own name: the
/// stored code identifies the method.
pub proof fn lemma_well_known_codes_read_back(code: u8)
    requires
        code < 9,
    ensures
        well_known_code(well_known_name(code)) == Some(code),
{
    reveal_strlit("GET");
    reveal_strlit("HEAD");
    reveal_strlit("POST");
    reveal_strlit("PUT");
    reveal_strlit("DELETE");
    reveal_strlit("CONNECT");
    reveal_strlit("OPTIONS");
    reveal_strlit("PATCH");
    reveal_strlit("TRACE");
    assert forall|k: u8| k < 9 implies well_known_name(k).len() > 0 && #[trigger] well_known_name(k)[0] == (
    if k == 0 {
        'G'
    } else if k == 1 {
        'H'
    } else if k == 2 || k == 3 || k == 7 {
        'P'
    } else if k == 4 {
        'D'
    } else if k == 5 {
        'C'
    } else if k == 6 {
        'O'
    } else {
        'T'
    }) by {}
    assert forall|k: u8| k < code implies well_known_name(k) != well_known_name(code) by {
        if well_known_name(k) == well_known_name(code) {
            assert(well_known_name(k)[0] == well_known_name(code)[0]);
            assert(well_known_name(k).len() == well_known_name(code).len());
        }
    }
}

/// A stored method as a plain value: its code, or the bytes of its name.
pub open spec fn method_view(m: Method) -> Result<u8, Seq<u8>> {
    match m {
        Method::WellKnown(c) => Ok(c),
        Method::Custom(b) => Err(b@),
    }
}

/// The stored form of a method name: the well-known code, else the name's
/// UTF-8 bytes.
pub open spec fn stored_form(name: Seq<char>) -> Result<u8, Seq<u8>> {
    match well_known_code(name) {
        Some(c) => Ok(c),
        None => Err(encode_utf8(name)),
    }
}

/// The stored form determines the method: two method names are stored
/// alike exactly when they are the same name.
pub proof fn lemma_stored_form_injective(n1: Seq<char>, n2: Seq<char>)
    ensures
        (stored_form(n1) == stored_form(n2)) == (n1 == n2),
{
    if stored_form(n1) == stored_form(n2) {
        if well_known_code(n1) is None {
            vstd::utf8::encode_utf8_decode_utf8(n1);
            vstd::utf8::encode_utf8_decode_utf8(n2);
        }
    }
}

/// The codes under which the nine well-known methods are stored: GET 0,
/// HEAD 1, POST 2, PUT 3, DELETE 4, CONNECT 5, OPTIONS 6, PATCH 7, TRACE 8;
/// any other name is stored as its UTF-8 bytes.
pub proof fn lemma_method_codes(other: Seq<char>)
    requires
        other != "GET"@ && other != "HEAD"@ && other != "POST"@ && other != "PUT"@ && other != "DELETE"@
            && other != "CONNECT"@ && other != "OPTIONS"@ && other != "PATCH"@ && other != "TRACE"@,
    ensures
        stored_form("GET"@) == Ok::<u8, Seq<u8>>(0u8),
        stored_form("HEAD"@) == Ok::<u8, Seq<u8>>(1u8),
        stored_form("POST"@) == Ok::<u8, Seq<u8>>(2u8),
        stored_form("PUT"@) == Ok::<u8, Seq<u8>>(3u8),
        stored_form("DELETE"@) == Ok::<u8, Seq<u8>>(4u8),
        stored_form("CONNECT"@) == Ok::<u8, Seq<u8>>(5u8),
        stored_form("OPTIONS"@) == Ok::<u8, Seq<u8>>(6u8),
        stored_form("PATCH"@) == Ok::<u8, Seq<u8>>(7u8),
        stored_form("TRACE"@) == Ok::<u8, Seq<u8>>(8u8),
        stored_form(other) == Err::<u8, Seq<u8>>(encode_utf8(other)),
{
    reveal_strlit("GET");
    reveal_strlit("HEAD");
    reveal_strlit("POST");
    reveal_strlit("PUT");
    reveal_strlit("DELETE");
    reveal_strlit("CONNECT");
    reveal_strlit("OPTIONS");
    reveal_strlit("PATCH");
    reveal_strlit("TRACE");
    assert("GET"@.len() == 3 && "GET"@[0] == 'G');
    assert("HEAD"@.len() == 4 && "HEAD"@[0] == 'H');
    assert("POST"@.len() == 4 && "POST"@[0] == 'P');
    assert("PUT"@.len() == 3 && "PUT"@[0] == 'P');
    assert("DELETE"@.len() == 6 && "DELETE"@[0] == 'D');
    assert("CONNECT"@.len() == 7 && "CONNECT"@[0] == 'C');
    assert("OPTIONS"@.len() == 7 && "OPTIONS"@[0] == 'O');
    assert("PATCH"@.len() == 5 && "PATCH"@[0] == 'P');
    assert("TRACE"@.len() == 5 && "TRACE"@[0] == 'T');
}

/// The stored version numbers: HTTP/0.9 is 9, HTTP/1.0 10, HTTP/1.1 11,
/// HTTP/2 2, HTTP/3 3, and any other version 0.
pub proof fn lemma_version_codes()
    ensures
        version_code(ProtocolVersion::Http09) == 9,
        version_code(ProtocolVersion::Http10) == 10,
        version_code(ProtocolVersion::Http11) == 11,
        version_code(ProtocolVersion::H2) == 2,
        version_code(ProtocolVersion::H3) == 3,
        version_code(ProtocolVersion::Other) == 0,
{
}

impl Method {
    /// The stored form of the method named `name` (as `http::Method::as_str`
    /// writes it).
    pub fn from_name(name: &str) -> (res: Method)
        ensures
            method_view(res) == stored_form(name@),
            match well_known_code(name@) {
                Some(c) => res == Method::WellKnown(c),
                None => res matches Method::Custom(b) && b@ == name.spec_bytes(),
            },
    {
        if str_eq(name, "GET") {
            Method::WellKnown(0)
        } else if str_eq(name, "HEAD") {
            Method::WellKnown(1)
        } else if str_eq(name, "POST") {
            Method::WellKnown(2)
        } else if str_eq(name, "PUT") {
            Method::WellKnown(3)
        } else if str_eq(name, "DELETE") {
            Method::WellKnown(4)
        } else if str_eq(name, "CONNECT") {
            Method::WellKnown(5)
        } else if str_eq(name, "OPTIONS") {
            Method::WellKnown(6)
        } else if str_eq(name, "PATCH") {
            Method::WellKnown(7)
        } else if str_eq(name, "TRACE") {
            Method::WellKnown(8)
        } else {
            Method::Custom(name.as_bytes_vec())
        }
    }
}

/// The stored code of a version: 9, 10 and 11 for HTTP/0.9, 1.0 and 1.1,
/// 2 and 3 for HTTP/2 and HTTP/3, 0 for anything else.
pub open spec fn version_code(v: ProtocolVersion) -> u8 {
    match v {
        ProtocolVersion::Http09 => 9,
        ProtocolVersion::Http10 => 10,
        ProtocolVersion::Http11 => 11,
        ProtocolVersion::H2 => 2,
        ProtocolVersion::H3 => 3,
        ProtocolVersion::Other => 0,
    }
}

impl HttpVersion {
    /// The stored form of a version.
    pub fn from_version(v: ProtocolVersion) -> (res: HttpVersion)
        ensures
            res.0 == version_code(v),
    {
        HttpVersion(
            match v {
                ProtocolVersion::Http09 => 9,
                ProtocolVersion::Http10 => 10,
                ProtocolVersion::Http11 => 11,
                ProtocolVersion::H2 => 2,
                ProtocolVersion::H3 => 3,
                ProtocolVersion::Other => 0,
            },
        )
    }
}

/// Header pairs as plain values.
pub open spec fn header_pairs(headers: Seq<(String, Vec<u8>)>) -> Seq<(Seq<char>, Vec<u8>)> {
    headers.map_values(|p: (String, Vec<u8>)| (p.0@, p.1))
}

impl Request {
    /// The stored head of a request with the given method name, version,
    /// URI text and header pairs (in the order they came).
    pub fn new(method: &str, version: ProtocolVersion, uri: String, headers: Vec<(String, Vec<u8>)>) -> (res: Request)
        ensures
            method_view(res.0) == stored_form(method@),
            match well_known_code(method@) {
                Some(c) => res.0 == Method::WellKnown(c),
                None => res.0 matches Method::Custom(b) && b@ == method.spec_bytes(),
            },
            res.1.0 == version_code(version),
            res.2@ == uri@,
            res.3.map() == pairs_map(header_pairs(headers@)),
    {
        Request(Method::from_name(method), HttpVersion::from_version(version), uri, TextMap::from_pairs(headers))
    }
}

impl Response {
    /// The stored head of a response with the given status, version and
    /// header pairs (in the order they came).
    pub fn new(status: u16, version: ProtocolVersion, headers: Vec<(String, Vec<u8>)>) -> (res: Response)
        ensures
            res.0 == status,
            res.1.0 == version_code(version),
            res.2.map() == pairs_map(header_pairs(headers@)),
    {
        Response(status, HttpVersion::from_version(version), TextMap::from_pairs(headers))
    }
}

impl WSNotify {
    /// The notice that request `id` (method and URI as text) was stored.
    pub fn new_request(id: u64, method: String, uri: String) -> (res: WSNotify)
        ensures
            res matches WSNotify::NewReq { id: i, method: m, uri: u } && i == id && m@ == method@ && u@ == uri@,
    {
        WSNotify::NewReq { id, method, uri }
    }

    /// The notice that the response to request `id` arrived with `status`.
    pub fn new_response(id: u64, status: u16) -> (res: WSNotify)
        ensures
            res matches WSNotify::NewResp { id: i, status: s } && i == id && s == status,
    {
        WSNotify::NewResp { id, status }
    }
}

} // verus!
