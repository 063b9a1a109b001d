//! The decisions of the proxy front end: where an incoming request goes,
//! what the web UI serves, how a tunnelled connection is classified and
//! rewritten, and the error replies of the gateway.
use vstd::prelude::*;
use vstd::string::*;
use crate::proto::{APICall, WSNotify};
use crate::text::{str_eq, push_str};
use crate::uplink::opt_text;

verus! {

// ---------------------------------------------------------------------------
// Incoming requests
// ---------------------------------------------------------------------------

/// Where a request that reached the listener is handled.
#[derive(Debug, Clone, Copy, PartialEq, Eq, Structural)]
pub enum Dispatch {
    /// `CONNECT host:port`: open a tunnel (intercepted or passed through).
    Tunnel,
    /// A request without authority (`GET / HTTP/1.1`): the web UI.
    WebUi,
    /// An absolute-form request (`GET http://host/ HTTP/1.1`): forward it.
    Forward,
}

/// Chooses the handler of a request from its method name and whether its
/// URI has an authority.
pub fn dispatch(method: &str, has_authority: bool) -> (res: Dispatch)
    ensures
        res == (if method@ == "CONNECT"@ {
            Dispatch::Tunnel
        } else if !has_authority {
            Dispatch::WebUi
        } else {
            Dispatch::Forward
        }),
{
    if str_eq(method, "CONNECT") {
        Dispatch::Tunnel
    } else if !has_authority {
        Dispatch::WebUi
    } else {
        Dispatch::Forward
    }
}

/// What the web UI answers for a path.
#[derive(Debug, Clone, Copy, PartialEq, Eq, Structural)]
pub enum UiRoute {
    /// `/events`: upgrade to the notification websocket.
    Events,
    /// `/`: permanent redirect to `/index.html`.
    Root,
    /// One of the UI's files, served from the working directory.
    StaticFile,
    /// `/api`: a REST call.
    Api,
    /// Anything else: 404.
    NotFound,
}

/// The files of the UI that are served as they are.
pub open spec fn is_ui_file(path: Seq<char>) -> bool {
    path == "/favicon.ico"@ || path == "/main.js"@ || path == "/main.wasm"@ || path == "/index.html"@
        || path == "/style.css"@
}

/// The UI route of a request path.
pub open spec fn spec_ui_route(path: Seq<char>) -> UiRoute {
    if path == "/events"@ {
        UiRoute::Events
    } else if path == "/"@ {
        UiRoute::Root
    } else if is_ui_file(path) {
        UiRoute::StaticFile
    } else if path == "/api"@ {
        UiRoute::Api
    } else {
        UiRoute::NotFound
    }
}

/// Chooses what the web UI answers for `path`.
pub fn ui_route(path: &str) -> (res: UiRoute)
    ensures
        res == spec_ui_route(path@),
{
    if str_eq(path, "/events") {
        UiRoute::Events
    } else if str_eq(path, "/") {
        UiRoute::Root
    } else if str_eq(path, "/favicon.ico") || str_eq(path, "/main.js") || str_eq(path, "/main.wasm")
        || str_eq(path, "/index.html") || str_eq(path, "/style.css") {
        UiRoute::StaticFile
    } else if str_eq(path, "/api") {
        UiRoute::Api
    } else {
        UiRoute::NotFound
    }
}

/// The web UI's routes: `/events` upgrades, `/` redirects, the five files
/// of the UI (`/favicon.ico`, `/main.js`, `/main.wasm`, `/index.html`,
/// `/style.css`) are served, `/api` takes REST calls, and every other path
/// is not found.
pub proof fn lemma_ui_routes(path: Seq<char>)
    ensures
        spec_ui_route("/events"@) == UiRoute::Events,
        spec_ui_route("/"@) == UiRoute::Root,
        spec_ui_route("/favicon.ico"@) == UiRoute::StaticFile,
        spec_ui_route("/main.js"@) == UiRoute::StaticFile,
        spec_ui_route("/main.wasm"@) == UiRoute::StaticFile,
        spec_ui_route("/index.html"@) == UiRoute::StaticFile,
        spec_ui_route("/style.css"@) == UiRoute::StaticFile,
        spec_ui_route("/api"@) == UiRoute::Api,
        path != "/events"@ && path != "/"@ && path != "/favicon.ico"@ && path != "/main.js"@ && path
            != "/main.wasm"@ && path != "/index.html"@ && path != "/style.css"@ && path != "/api"@
            ==> spec_ui_route(path) == UiRoute::NotFound,
{
    reveal_strlit("/events");
    reveal_strlit("/");
    reveal_strlit("/favicon.ico");
    reveal_strlit("/main.js");
    reveal_strlit("/main.wasm");
    reveal_strlit("/index.html");
    reveal_strlit("/style.css");
    reveal_strlit("/api");
    assert("/events"@.len() == 7 && "/events"@[1] == 'e');
    assert("/"@.len() == 1);
    assert("/favicon.ico"@.len() == 12);
    assert("/main.js"@.len() == 8);
    assert("/main.wasm"@.len() == 10);
    assert("/index.html"@.len() == 11);
    assert("/style.css"@.len() == 10 && "/style.css"@[1] == 's');
    assert("/api"@.len() == 4);
}

/// Status and body of a reply of the REST endpoint.
#[derive(Debug, Clone)]
pub struct ApiReply {
    pub status: u16,
    pub body: String,
}

/// The list line answered for a `Brief` call:
/// ID, time, method, host, path, code, RTT, size, tags.
pub open spec fn brief_line() -> Seq<char> {
    "[0,0,\"GET\",\"example.com\",\"???\",200,1,2000,[]]"@
}

/// The line answered for a `Brief` call is the fixed sample row
/// `[0,0,"GET","example.com","???",200,1,2000,[]]`.
pub proof fn lemma_brief_line()
    ensures
        brief_line() == "[0,0,\"GET\",\"example.com\",\"???\",200,1,2000,[]]"@,
{
}

/// The reply to a REST call: `call` is `None` when the URI has no query,
/// `Some(Err(message))` when the query is no call.
pub fn api_reply(call: Option<Result<APICall, String>>) -> (res: ApiReply)
    ensures
        match call {
            None => res.status == 400 && res.body@ == "no query"@,
            Some(Err(m)) => res.status == 400 && res.body@ == m@,
            Some(Ok(APICall::Brief { .. })) => res.status == 200 && res.body@ == brief_line(),
            Some(Ok(_)) => res.status == 200 && res.body@ == Seq::<char>::empty(),
        },
{
    match call {
        None => ApiReply { status: 400, body: String::from_str("no query") },
        Some(Err(m)) => ApiReply { status: 400, body: m },
        Some(Ok(APICall::Brief { .. })) => ApiReply {
            status: 200,
            body: String::from_str("[0,0,\"GET\",\"example.com\",\"???\",200,1,2000,[]]"),
        },
        Some(Ok(_)) => ApiReply { status: 200, body: String::new() },
    }
}

// ---------------------------------------------------------------------------
// Tunnels
// ---------------------------------------------------------------------------

/// The authorities that are tunnelled without interception by default.
pub open spec fn default_dont_intercept_patterns() -> Seq<Seq<char>> {
    seq![".+\\.google\\..+"@, ".+\\.github\\.com(:[0-9]+)?"@, ".+\\.docs\\.rs(:[0-9]+)?"@]
}

/// The default patterns of authorities that are passed through.
pub fn default_dont_intercept() -> (res: Vec<String>)
    ensures
        res@.map_values(|p: String| p@) == default_dont_intercept_patterns(),
{
    let mut v: Vec<String> = Vec::new();
    v.push(String::from_str(".+\\.google\\..+"));
    v.push(String::from_str(".+\\.github\\.com(:[0-9]+)?"));
    v.push(String::from_str(".+\\.docs\\.rs(:[0-9]+)?"));
    assert(v@.map_values(|p: String| p@) =~= default_dont_intercept_patterns());
    v
}

/// What `regex::RegexSet` built from `patterns` says of `text`: `None` when
/// the patterns do not compile, else whether any of them matches.
pub uninterp spec fn regex_set_match(patterns: Seq<Seq<char>>, text: Seq<char>) -> Option<bool>;

/// Builds a `regex::RegexSet` from `patterns` and asks `is_match`. The
/// contract names the result; regular-expression semantics are `regex`'s.
#[verifier::external_body]
fn regex_set_is_match(patterns: &Vec<String>, text: &str) -> (res: Option<bool>)
    ensures
        res == regex_set_match(patterns@.map_values(|p: String| p@), text@),
{
    Some(regex::RegexSet::new(patterns).ok()?.is_match(text))
}

/// What to do with a `CONNECT` request.
#[derive(Debug, Clone)]
pub enum ConnectPlan {
    /// Answer with this status and body, open no tunnel.
    Reject { status: u16, body: String },
    /// Accept, then relay bytes to the endpoint untouched.
    PassThrough,
    /// Accept, then intercept (TLS with a forged certificate, or plain HTTP).
    Intercept,
}

/// Plans a `CONNECT` to `authority` (`None`: the request names none):
/// authorities that a pattern of `dont_intercept` matches are passed
/// through. `None` when the patterns do not compile.
pub fn connect_plan(authority: Option<&str>, dont_intercept: &Vec<String>) -> (res: Option<ConnectPlan>)
    ensures
        match authority {
            None => res matches Some(ConnectPlan::Reject { status, body }) && status == 400 && body@
                == "CONNECT must contain an endpoint to connect to"@,
            Some(a) => match regex_set_match(dont_intercept@.map_values(|p: String| p@), a@) {
                None => res is None,
                Some(true) => res matches Some(ConnectPlan::PassThrough),
                Some(false) => res matches Some(ConnectPlan::Intercept),
            },
        },
{
    match authority {
        None => Some(
            ConnectPlan::Reject {
                status: 400,
                body: String::from_str("CONNECT must contain an endpoint to connect to"),
            },
        ),
        Some(a) => match regex_set_is_match(dont_intercept, a) {
            None => None,
            Some(true) => Some(ConnectPlan::PassThrough),
            Some(false) => Some(ConnectPlan::Intercept),
        },
    }
}

/// How the first bytes sent into an accepted tunnel look.
#[derive(Debug, Clone, Copy, PartialEq, Eq, Structural)]
pub enum Sniffed {
    /// A TLS handshake record (SSL 3.0 to TLS 1.3).
    Tls,
    /// A plain HTTP/1.x request line.
    PlainHttp,
    /// Something else: relay it untouched.
    Unknown,
}

/// A TLS handshake record starts with content type 22 and major version 3.
pub open spec fn looks_like_tls(p: Seq<u8>) -> bool {
    p.len() > 1 && p[0] == 0x16 && p[1] == 0x03
}

/// Every byte before the first space (or the end) is an upper-case ASCII
/// letter, as in `OPTIONS / HTTP/1.1`.
pub open spec fn looks_like_http(p: Seq<u8>) -> bool {
    forall|i: int|
        #![trigger p[i]]
        0 <= i < p.len() && (forall|j: int| 0 <= j <= i ==> p[j] != 32) ==> 65 <= p[i] <= 90
}

/// The class of a tunnel whose first bytes are `p`.
pub open spec fn sniffed_as(p: Seq<u8>) -> Sniffed {
    if looks_like_tls(p) {
        Sniffed::Tls
    } else if looks_like_http(p) {
        Sniffed::PlainHttp
    } else {
        Sniffed::Unknown
    }
}

/// A tunnel that opens with a method token made of capital letters `A`
/// to `Z` (GET, HEAD, POST, PUT, DELETE, CONNECT, OPTIONS, TRACE, PATCH or
/// any other) up to the first space, or up to the end of what was peeked,
/// is intercepted as plain HTTP, whatever follows the space.
pub proof fn lemma_method_token_is_http(p: Seq<u8>, token_len: int)
    requires
        0 <= token_len <= p.len(),
        token_len < p.len() ==> p[token_len] == 0x20u8,
        forall|m: int| 0 <= m < token_len ==> 0x41u8 <= #[trigger] p[m] && p[m] <= 0x5Au8,
    ensures
        sniffed_as(p) == Sniffed::PlainHttp,
{
    if token_len > 0 {
        assert(0x41u8 <= p[0]);
    }
    assert forall|a: int|
        #![trigger p[a]]
        0 <= a < p.len() && (forall|b: int| 0 <= b <= a ==> p[b] != 0x20u8) implies 0x41u8 <= p[a] && p[a]
        <= 0x5Au8 by {
        if a >= token_len {
            assert(p[token_len] == 0x20u8);
        }
    }
}

/// A tunnel that opens with a TLS handshake record header (content type
/// 0x16, major version 3) is taken for TLS; one whose first byte is not
/// 0x16 never is.
pub proof fn lemma_handshake_is_tls(p: Seq<u8>)
    ensures
        p.len() >= 2 && p[0] == 0x16u8 && p[1] == 0x03u8 ==> sniffed_as(p) == Sniffed::Tls,
        p.len() < 2 || p[0] != 0x16u8 || p[1] != 0x03u8 ==> sniffed_as(p) != Sniffed::Tls,
{
}

/// A tunnel whose first bytes are no TLS record and hold, before any space,
/// a byte that is no capital letter `A` to `Z` is relayed untouched.
pub proof fn lemma_other_byte_is_unknown(p: Seq<u8>, at: int)
    requires
        !(p.len() > 1 && p[0] == 0x16u8 && p[1] == 0x03u8),
        0 <= at < p.len(),
        forall|m: int| 0 <= m <= at ==> #[trigger] p[m] != 0x20u8,
        p[at] < 0x41u8 || p[at] > 0x5Au8,
    ensures
        sniffed_as(p) == Sniffed::Unknown,
{
    assert(p[at] != 0x20u8);
}

/// The three default patterns: every `google` host under any top-level
/// domain, and `github.com` and `docs.rs` hosts with an optional port.
pub proof fn lemma_default_patterns()
    ensures
        default_dont_intercept_patterns().len() == 3,
        default_dont_intercept_patterns()[0] == ".+\\.google\\..+"@,
        default_dont_intercept_patterns()[1] == ".+\\.github\\.com(:[0-9]+)?"@,
        default_dont_intercept_patterns()[2] == ".+\\.docs\\.rs(:[0-9]+)?"@,
{
}

/// Classifies a tunnel by the bytes peeked from it (HTTP/2 is only spoken
/// inside TLS, so it is not looked for here).
pub fn sniff(peeked: &[u8]) -> (res: Sniffed)
    ensures
        res == sniffed_as(peeked@),
{
    if peeked.len() > 1 && peeked[0] == 0x16 && peeked[1] == 0x03 {
        return Sniffed::Tls;
    }
    let mut i: usize = 0;
    while i < peeked.len()
        invariant
            i <= peeked@.len(),
            !looks_like_tls(peeked@),
            forall|k: int| 0 <= k < i ==> peeked@[k] != 32 && 65 <= #[trigger] peeked@[k] <= 90,
        decreases peeked@.len() - i,
    {
        let b = peeked[i];
        if b == 32 {
            assert forall|k: int|
                #![trigger peeked@[k]]
                0 <= k < peeked@.len() && (forall|j: int| 0 <= j <= k ==> peeked@[j] != 32) implies 65
                <= peeked@[k] <= 90 by {
                if k >= i {
                    assert(peeked@[i as int] == 32);
                }
            }
            return Sniffed::PlainHttp;
        }
        if b < 65 || b > 90 {
            assert(forall|j: int| 0 <= j <= i ==> peeked@[j] != 32);
            return Sniffed::Unknown;
        }
        i += 1;
    }
    Sniffed::PlainHttp
}

/// The scheme of a rewritten request URI.
#[derive(Debug, Clone, Copy, PartialEq, Eq, Structural)]
pub enum UriScheme {
    Http,
    Https,
}

/// What `http::Uri::builder()` with `scheme`, `authority` and (where
/// present) `path_and_query` builds, as text: `None` when it refuses.
pub uninterp spec fn built_uri(https: bool, authority: Seq<char>, path_and_query: Option<Seq<char>>) -> Option<
    Seq<char>,
>;

/// An optional string slice as optional text.
pub open spec fn opt_str(o: Option<&str>) -> Option<Seq<char>> {
    match o {
        Some(s) => Some(s@),
        None => None,
    }
}

/// The scheme as `Scheme`'s `Display` writes it.
pub open spec fn scheme_text(scheme: UriScheme) -> Seq<char> {
    match scheme {
        UriScheme::Http => "http"@,
        UriScheme::Https => "https"@,
    }
}

/// A path and query that `Uri`'s `Display` writes back unchanged: it starts
/// with `/`, has no fragment (`#`) and is shorter than 65535 bytes.
pub open spec fn plain_path(p: &str) -> bool {
    p@.len() > 0 && p@[0] == '/' && !p@.contains('#') && p.spec_bytes().len() < 65535
}

/// Builds a URI with `http::Uri::builder()` and writes it with `Display`.
/// The result is named. Further facts stated from the source: with a scheme
/// and no path the build fails (`Uri::from_parts`); a built URI is written
/// as the scheme, `://`, the authority as given and, for a plain path, the
/// path and query as given (`Authority` and `PathAndQuery` keep their text,
/// `Display` writes scheme, authority, path and `?query`).
#[verifier::external_body]
fn build_uri_text(scheme: UriScheme, authority: &str, path_and_query: Option<&str>) -> (res: Option<String>)
    ensures
        opt_text(res) == built_uri(scheme == UriScheme::Https, authority@, opt_str(path_and_query)),
        path_and_query is None ==> res is None,
        path_and_query matches Some(p) ==> (res is Some && plain_path(p) ==> res->0@ == scheme_text(scheme)
            + "://"@ + authority@ + p@),
{
    let s = match scheme {
        UriScheme::Http => http::uri::Scheme::HTTP,
        UriScheme::Https => http::uri::Scheme::HTTPS,
    };
    let b = http::Uri::builder().scheme(s).authority(authority);
    let b = match path_and_query {
        Some(pq) => b.path_and_query(pq),
        None => b,
    };
    Some(b.build().ok()?.to_string())
}

/// The absolute URI of a request read from an intercepted tunnel: the
/// tunnel's scheme and authority with the request's path and query. `None`
/// when no such URI can be built (the request has no path).
pub fn forward_uri(scheme: UriScheme, authority: &str, path_and_query: Option<&str>) -> (res: Option<String>)
    ensures
        opt_text(res) == built_uri(scheme == UriScheme::Https, authority@, opt_str(path_and_query)),
        path_and_query is None ==> res is None,
        path_and_query matches Some(p) ==> (res is Some && plain_path(p) ==> res->0@ == scheme_text(scheme)
            + "://"@ + authority@ + p@),
{
    build_uri_text(scheme, authority, path_and_query)
}

// ---------------------------------------------------------------------------
// Gateway replies
// ---------------------------------------------------------------------------

/// The status of the reply when the upstream request failed: 504 Gateway
/// Timeout when the cause was a timeout, 502 Bad Gateway otherwise.
pub fn gateway_status(timed_out: bool) -> (res: u16)
    ensures
        res == (if timed_out { 504u16 } else { 502u16 }),
{
    if timed_out {
        504
    } else {
        502
    }
}

/// The page sent with a failed upstream request.
pub fn error_page(message: &str) -> (res: String)
    ensures
        res@ == "<html><body><h1>Rhythm</h1> "@ + message@ + "</body></html>"@,
{
    let mut s = String::new();
    push_str(&mut s, "<html><body><h1>Rhythm</h1> ");
    push_str(&mut s, message);
    push_str(&mut s, "</body></html>");
    assert(s@ =~= "<html><body><h1>Rhythm</h1> "@ + message@ + "</body></html>"@);
    s
}

/// The page sent when a protocol upgrade with the server failed.
pub fn upgrade_error_page(message: &str) -> (res: String)
    ensures
        res@ == "<html><body><h1>Rhythm</h1>Upgrade "@ + message@ + "</body></html>"@,
{
    let mut s = String::new();
    push_str(&mut s, "<html><body><h1>Rhythm</h1>Upgrade ");
    push_str(&mut s, message);
    push_str(&mut s, "</body></html>");
    assert(s@ =~= "<html><body><h1>Rhythm</h1>Upgrade "@ + message@ + "</body></html>"@);
    s
}

/// The status sent with `upgrade_error_page`: 502 Bad Gateway.
pub fn upgrade_failure_status() -> (res: u16)
    ensures
        res == 502,
{
    502
}

/// A response with status 101 (Switching Protocols) turns the exchange
/// into a relayed upgrade.
pub fn is_upgrade(status: u16) -> (res: bool)
    ensures
        res == (status == 101),
{
    status == 101
}

// ---------------------------------------------------------------------------
// A forwarded exchange
// ---------------------------------------------------------------------------

/// The notice sent when a forwarded request was (or was not) stored: only a
/// stored request, with the id it got, is announced to the UI.
pub fn request_notice(stored_id: Option<u64>, method: String, uri: String) -> (res: Option<WSNotify>)
    ensures
        match stored_id {
            None => res is None,
            Some(id) => res matches Some(WSNotify::NewReq { id: i, method: m, uri: u }) && i == id && m@ == method@
                && u@ == uri@,
        },
{
    match stored_id {
        Some(id) => Some(WSNotify::NewReq { id, method, uri }),
        None => None,
    }
}

/// What follows once the response head of a forwarded request is known.
#[derive(Debug, Clone, Copy, PartialEq, Eq, Structural)]
pub enum AfterResponse {
    /// 101: relay the upgraded connection; nothing more is stored.
    Upgrade,
    /// Store the response under the request's id, announce it, send it on.
    StoreAndNotify { id: u64 },
    /// The request was not stored: only send the response on.
    ForwardOnly,
}

/// Chooses the step after the response to a request stored under
/// `stored_id` (`None`: storing it failed) came back with `status`.
pub fn after_response(stored_id: Option<u64>, status: u16) -> (res: AfterResponse)
    ensures
        res == (if status == 101 {
            AfterResponse::Upgrade
        } else {
            match stored_id {
                Some(id) => AfterResponse::StoreAndNotify { id },
                None => AfterResponse::ForwardOnly,
            }
        }),
{
    if is_upgrade(status) {
        AfterResponse::Upgrade
    } else {
        match stored_id {
            Some(id) => AfterResponse::StoreAndNotify { id },
            None => AfterResponse::ForwardOnly,
        }
    }
}

} // verus!
