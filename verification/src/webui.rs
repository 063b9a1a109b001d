//! What the web UI answers: the websocket handshake of `/events`, the
//! redirect of `/`, the headers of served files and the error replies.
use vstd::prelude::*;
use vstd::string::*;
use vstd::utf8::encode_utf8;
use crate::proxy::{ui_route, spec_ui_route, UiRoute};

verus! {

// ---------------------------------------------------------------------------
// Request headers
// ---------------------------------------------------------------------------

/// An ASCII upper-case letter turned into lower case; other bytes unchanged.
pub open spec fn ascii_lower(b: u8) -> u8 {
    if 65 <= b <= 90 {
        (b + 32) as u8
    } else {
        b
    }
}

/// Equality of two byte strings up to ASCII case (`eq_ignore_ascii_case`).
pub open spec fn eq_ignore_case(a: Seq<u8>, b: Seq<u8>) -> bool {
    a.len() == b.len() && forall|i: int| 0 <= i < a.len() ==> ascii_lower(#[trigger] a[i]) == ascii_lower(b[i])
}

/// `needle` occurs in `hay` up to ASCII case.
pub open spec fn contains_ignore_case(hay: Seq<u8>, needle: Seq<u8>) -> bool {
    exists|i: int|
        0 <= i && i + needle.len() <= hay.len() && eq_ignore_case(
            #[trigger] hay.subrange(i, i + needle.len()),
            needle,
        )
}

/// A request's headers as bytes, in order: the name, and the value when it
/// is visible ASCII text (`None` when `HeaderValue::to_str` refuses it).
pub open spec fn header_views(h: Seq<(String, Option<String>)>) -> Seq<(Seq<u8>, Option<Seq<u8>>)> {
    h.map_values(
        |p: (String, Option<String>)|
            (
                encode_utf8(p.0@),
                match p.1 {
                    Some(v) => Some(encode_utf8(v@)),
                    None => None,
                },
            ),
    )
}

/// The first header whose name is `name` up to ASCII case, as
/// `HeaderMap::get` finds it.
pub open spec fn first_header(hs: Seq<(Seq<u8>, Option<Seq<u8>>)>, name: Seq<u8>) -> Option<Option<Seq<u8>>>
    decreases hs.len(),
{
    if hs.len() == 0 {
        None
    } else if eq_ignore_case(hs[0].0, name) {
        Some(hs[0].1)
    } else {
        first_header(hs.drop_first(), name)
    }
}

/// The text of the first header named `name`, if it has one.
pub open spec fn header_text(hs: Seq<(Seq<u8>, Option<Seq<u8>>)>, name: Seq<u8>) -> Option<Seq<u8>> {
    match first_header(hs, name) {
        Some(Some(v)) => Some(v),
        _ => None,
    }
}

/// Case is folded on ASCII letters only: `A` to `Z` become `a` to `z`,
/// every other byte stays as it is.
pub proof fn lemma_ascii_case(b: u8)
    ensures
        0x41u8 <= b && b <= 0x5Au8 ==> ascii_lower(b) == b + 0x20,
        !(0x41u8 <= b && b <= 0x5Au8) ==> ascii_lower(b) == b,
{
}

/// A header lookup finds the first header whose name matches up to ASCII
/// case, and finds nothing when no name matches.
pub proof fn lemma_first_header_is_first_match(hs: Seq<(Seq<u8>, Option<Seq<u8>>)>, name: Seq<u8>, i: int)
    ensures
        0 <= i < hs.len() && eq_ignore_case(hs[i].0, name) && (forall|j: int|
            0 <= j < i ==> !eq_ignore_case(#[trigger] hs[j].0, name)) ==> first_header(hs, name) == Some(hs[i].1),
        (forall|j: int| 0 <= j < hs.len() ==> !eq_ignore_case(#[trigger] hs[j].0, name)) ==> first_header(hs, name)
            is None,
    decreases hs.len(),
{
    if hs.len() > 0 {
        let rest = hs.drop_first();
        lemma_first_header_is_first_match(rest, name, i - 1);
        if 0 < i < hs.len() && eq_ignore_case(hs[i].0, name) && (forall|j: int|
            0 <= j < i ==> !eq_ignore_case(#[trigger] hs[j].0, name)) {
            assert(!eq_ignore_case(hs[0].0, name));
            assert(rest[i - 1] == hs[i]);
            assert forall|j: int| 0 <= j < i - 1 implies !eq_ignore_case(#[trigger] rest[j].0, name) by {
                assert(rest[j] == hs[j + 1]);
            }
        }
        if forall|j: int| 0 <= j < hs.len() ==> !eq_ignore_case(#[trigger] hs[j].0, name) {
            assert(!eq_ignore_case(hs[0].0, name));
            assert forall|j: int| 0 <= j < rest.len() implies !eq_ignore_case(#[trigger] rest[j].0, name) by {
                assert(rest[j] == hs[j + 1]);
            }
        }
    }
}

fn lower_byte(b: u8) -> (res: u8)
    ensures
        res == ascii_lower(b),
{
    if 65 <= b && b <= 90 {
        b + 32
    } else {
        b
    }
}

/// Compares two byte strings up to ASCII case.
pub fn bytes_eq_ignore_case(a: &[u8], b: &[u8]) -> (res: bool)
    ensures
        res == eq_ignore_case(a@, b@),
{
    if a.len() != b.len() {
        return false;
    }
    let mut i: usize = 0;
    while i < a.len()
        invariant
            a@.len() == b@.len(),
            i <= a@.len(),
            forall|j: int| 0 <= j < i ==> ascii_lower(#[trigger] a@[j]) == ascii_lower(b@[j]),
        decreases a@.len() - i,
    {
        if lower_byte(a[i]) != lower_byte(b[i]) {
            return false;
        }
        i += 1;
    }
    true
}

/// The text of the first header named `name` (up to ASCII case); `None`
/// when there is no such header or its value is not text.
pub fn header_value<'a>(headers: &'a Vec<(String, Option<String>)>, name: &str) -> (res: Option<&'a str>)
    ensures
        match header_text(header_views(headers@), name.spec_bytes()) {
            Some(v) => res matches Some(s) && s.spec_bytes() == v,
            None => res is None,
        },
{
    let ghost hv = header_views(headers@);
    let nb = name.as_bytes();
    assert(hv.subrange(0, hv.len() as int) =~= hv);
    let mut i: usize = 0;
    while i < headers.len()
        invariant
            hv == header_views(headers@),
            nb@ == name.spec_bytes(),
            i <= headers@.len(),
            first_header(hv, nb@) == first_header(hv.subrange(i as int, hv.len() as int), nb@),
        decreases headers@.len() - i,
    {
        let entry = &headers[i];
        let ghost rest = hv.subrange(i as int, hv.len() as int);
        assert(rest[0] == hv[i as int]);
        assert(rest.drop_first() =~= hv.subrange(i + 1, hv.len() as int));
        if bytes_eq_ignore_case(entry.0.as_str().as_bytes(), nb) {
            return match &entry.1 {
                Some(v) => Some(v.as_str()),
                None => None,
            };
        }
        i += 1;
    }
    assert(hv.subrange(i as int, hv.len() as int) =~= Seq::<(Seq<u8>, Option<Seq<u8>>)>::empty());
    None
}

// ---------------------------------------------------------------------------
// Websocket handshake
// ---------------------------------------------------------------------------

/// The bytes of a header name or expected value.
pub open spec fn text_bytes(s: &str) -> Seq<u8> {
    encode_utf8(s@)
}

/// A client's opening handshake as `websocket_codec::ClientRequest::parse`
/// accepts it: `Upgrade` is `websocket` and `Connection` contains `Upgrade`
/// (both up to ASCII case), `Sec-WebSocket-Version` is `13`, and there is
/// a `Sec-WebSocket-Key`.
pub open spec fn websocket_request(hs: Seq<(Seq<u8>, Option<Seq<u8>>)>) -> bool {
    &&& header_text(hs, text_bytes("Upgrade")) matches Some(u) && eq_ignore_case(u, text_bytes("websocket"))
    &&& header_text(hs, text_bytes("Connection")) matches Some(c) && contains_ignore_case(
        c,
        text_bytes("Upgrade"),
    )
    &&& header_text(hs, text_bytes("Sec-WebSocket-Version")) matches Some(v) && eq_ignore_case(
        v,
        text_bytes("13"),
    )
    &&& header_text(hs, text_bytes("Sec-WebSocket-Key")) is Some
}

/// The `Sec-WebSocket-Accept` value for a client's key, as
/// `websocket_codec` computes it (SHA-1 of the key and the protocol's GUID,
/// in base64).
pub uninterp spec fn ws_accept_for_key(key: Seq<u8>) -> Seq<char>;

/// Parses a client's opening handshake with
/// `websocket_codec::ClientRequest::parse`, reading headers through
/// [`header_value`], and answers `ws_accept`. The contract states the
/// header checks that the source makes and names the accept value, which
/// depends on the key alone.
#[verifier::external_body]
fn client_ws_accept(headers: &Vec<(String, Option<String>)>) -> (res: Option<String>)
    ensures
        res is Some <==> websocket_request(header_views(headers@)),
        res matches Some(a) ==> a@ == ws_accept_for_key(
            header_text(header_views(headers@), text_bytes("Sec-WebSocket-Key"))->0,
        ),
{
    match websocket_codec::ClientRequest::parse(|name| header_value(headers, name)) {
        Ok(c) => Some(c.ws_accept()),
        Err(_) => None,
    }
}

// ---------------------------------------------------------------------------
// Replies
// ---------------------------------------------------------------------------

/// A reply of the web UI: status, headers (lower-case names) and body.
#[derive(Debug, Clone)]
pub struct HttpReply {
    pub status: u16,
    pub headers: Vec<(String, String)>,
    pub body: String,
}

/// Headers as text pairs.
pub open spec fn reply_headers(h: Seq<(String, String)>) -> Seq<(Seq<char>, Seq<char>)> {
    h.map_values(|p: (String, String)| (p.0@, p.1@))
}

/// How the web UI answers a request.
#[derive(Debug, Clone)]
pub enum UiAnswer {
    /// Send this reply.
    Reply(HttpReply),
    /// Send this reply (101), then take over the connection as the
    /// notification websocket.
    Upgrade(HttpReply),
    /// Serve the file that the path names.
    ServeFile,
    /// Answer the REST call in the query.
    Api,
}

fn empty_reply(status: u16) -> (res: HttpReply)
    ensures
        res.status == status,
        res.headers@.len() == 0,
        res.body@.len() == 0,
{
    HttpReply { status, headers: Vec::new(), body: String::new() }
}

fn header_pair(name: &str, value: &str) -> (res: (String, String))
    ensures
        res.0@ == name@,
        res.1@ == value@,
{
    (String::from_str(name), String::from_str(value))
}

/// The answer to a request for `path` with `headers`.
pub fn ui_answer(path: &str, headers: &Vec<(String, Option<String>)>) -> (res: UiAnswer)
    ensures
        match spec_ui_route(path@) {
            UiRoute::Events => if websocket_request(header_views(headers@)) {
                res matches UiAnswer::Upgrade(r) && r.status == 101 && r.body@.len() == 0 && reply_headers(r.headers@)
                    == seq![
                    ("upgrade"@, "websocket"@),
                    ("connection"@, "Upgrade"@),
                    (
                        "sec-websocket-accept"@,
                        ws_accept_for_key(
                            header_text(header_views(headers@), text_bytes("Sec-WebSocket-Key"))->0,
                        ),
                    ),
                ]
            } else {
                res matches UiAnswer::Reply(r) && r.status == 400 && r.headers@.len() == 0 && r.body@.len() == 0
            },
            UiRoute::Root => res matches UiAnswer::Reply(r) && r.status == 301 && r.body@.len() == 0
                && reply_headers(r.headers@) == seq![("location"@, "/index.html"@)],
            UiRoute::StaticFile => res matches UiAnswer::ServeFile,
            UiRoute::Api => res matches UiAnswer::Api,
            UiRoute::NotFound => res matches UiAnswer::Reply(r) && r.status == 404 && r.headers@.len() == 0
                && r.body@.len() == 0,
        },
{
    match ui_route(path) {
        UiRoute::Events => match client_ws_accept(headers) {
            Some(accept) => {
                let ghost a = accept@;
                let mut hs: Vec<(String, String)> = Vec::new();
                hs.push(header_pair("upgrade", "websocket"));
                hs.push(header_pair("connection", "Upgrade"));
                hs.push((String::from_str("sec-websocket-accept"), accept));
                assert(reply_headers(hs@) =~= seq![
                    ("upgrade"@, "websocket"@),
                    ("connection"@, "Upgrade"@),
                    ("sec-websocket-accept"@, a),
                ]);
                UiAnswer::Upgrade(HttpReply { status: 101, headers: hs, body: String::new() })
            },
            None => UiAnswer::Reply(empty_reply(400)),
        },
        UiRoute::Root => {
            let mut hs: Vec<(String, String)> = Vec::new();
            hs.push(header_pair("location", "/index.html"));
            assert(reply_headers(hs@) =~= seq![("location"@, "/index.html"@)]);
            UiAnswer::Reply(HttpReply { status: 301, headers: hs, body: String::new() })
        },
        UiRoute::StaticFile => UiAnswer::ServeFile,
        UiRoute::Api => UiAnswer::Api,
        UiRoute::NotFound => UiAnswer::Reply(empty_reply(404)),
    }
}

/// What follows an attempt to serve a file.
#[derive(Debug, Clone)]
pub enum FileAnswer {
    /// Send the file server's reply with this header added.
    WithHeader(String, String),
    /// Send this reply instead.
    Reply(HttpReply),
}

/// The answer after serving a file: a served file is sent uncached
/// (`cache-control: no-cache`); a failure is answered with 500.
pub fn file_answer(served: bool) -> (res: FileAnswer)
    ensures
        served ==> (res matches FileAnswer::WithHeader(n, v) && n@ == "cache-control"@ && v@ == "no-cache"@),
        !served ==> (res matches FileAnswer::Reply(r) && r.status == 500 && r.headers@.len() == 0 && r.body@.len()
            == 0),
{
    if served {
        let (n, v) = header_pair("cache-control", "no-cache");
        FileAnswer::WithHeader(n, v)
    } else {
        FileAnswer::Reply(empty_reply(500))
    }
}

} // verus!
