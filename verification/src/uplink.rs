//! Upstream connections: the target endpoint of a request, the chain of
//! upstream proxies ("proxychains style", innermost first) and the HTTP
//! `CONNECT` handshake spoken with an HTTP proxy.
//!
//! `InnerProxy > ... > OuterProxy > (HTTP) > HTTPS > Timeout`
use vstd::prelude::*;
use crate::textmap::TextMap;
use crate::text::{decimal, digit_char, ends_with, has_prefix, has_suffix, push_char, push_decimal, push_str, starts_with, str_eq};

verus! {

/// Host name overrides, applied before name resolution (like entries of a
/// hosts file): a request for a key is sent to its value instead.
pub type Hosts = TextMap<String>;

// ---------------------------------------------------------------------------
// Proxies
// ---------------------------------------------------------------------------

/// The protocol spoken with an upstream proxy.
#[derive(Debug, Clone, Copy, PartialEq, Eq, Structural)]
pub enum ProxyType {
    Socks5,
    HTTP,
}

/// One upstream proxy: its address (`host:port`), its protocol and the
/// credentials to present (empty user name: none).
#[derive(Debug, Clone)]
pub struct ProxyEntry {
    pub ep: String,
    pub kind: ProxyType,
    pub user: String,
    pub pass: String,
}

impl ProxyEntry {
    /// The user name and password to authenticate with, or `None` when the
    /// user name is empty and the proxy is used without authentication.
    pub fn credentials(&self) -> (res: Option<(&str, &str)>)
        ensures
            match res {
                Some((u, p)) => self.user@.len() > 0 && u@ == self.user@ && p@ == self.pass@,
                None => self.user@.len() == 0,
            },
    {
        if self.user.as_str().is_empty() {
            None
        } else {
            Some((self.user.as_str(), self.pass.as_str()))
        }
    }
}

/// The upstream side of the proxy: the chain of proxies that every outgoing
/// connection runs through, and the host overrides.
#[derive(Debug, Clone)]
pub struct Uplink {
    pub proxies: Vec<ProxyEntry>,
    pub hosts: Hosts,
}

impl Uplink {
    /// An uplink through `proxies` (innermost first) without host overrides.
    pub fn new(proxies: Vec<ProxyEntry>) -> (res: Uplink)
        ensures
            res.proxies@ == proxies@,
            res.hosts.map() == Map::<Seq<char>, String>::empty(),
    {
        Uplink { proxies, hosts: Hosts::new() }
    }
}

// ---------------------------------------------------------------------------
// URIs and targets
// ---------------------------------------------------------------------------

/// What `http::Uri`'s parser makes of a text: `None` when it refuses it,
/// otherwise its scheme, host and port, each where present.
pub uninterp spec fn uri_components(text: Seq<char>) -> Option<(Option<Seq<char>>, Option<Seq<char>>, Option<u16>)>;

/// The parts of a request URI that select the endpoint.
#[derive(Debug, Clone)]
pub struct UriParts {
    pub scheme: Option<String>,
    pub host: Option<String>,
    pub port: Option<u16>,
}

/// An optional string as optional text.
pub open spec fn opt_text(o: Option<String>) -> Option<Seq<char>> {
    match o {
        Some(s) => Some(s@),
        None => None,
    }
}

impl UriParts {
    /// Scheme, host and port as plain values.
    pub open spec fn view(&self) -> (Option<Seq<char>>, Option<Seq<char>>, Option<u16>) {
        (opt_text(self.scheme), opt_text(self.host), self.port)
    }

    /// Parses a URI text with `http::Uri`.
    pub fn parse(text: &str) -> (res: Option<UriParts>)
        ensures
            match res {
                Some(u) => uri_components(text@) == Some(u.view()),
                None => uri_components(text@) is None,
            },
    {
        parse_uri(text)
    }
}

/// Parses `text` with `http::Uri`'s `FromStr` and reads back `scheme_str`,
/// `host` and `port_u16`. The contract only ties the result to the named
/// parse of the text; what the parser accepts is left to `http`.
#[verifier::external_body]
fn parse_uri(text: &str) -> (res: Option<UriParts>)
    ensures
        match res {
            Some(u) => uri_components(text@) == Some(u.view()),
            None => uri_components(text@) is None,
        },
{
    let u: http::Uri = text.parse().ok()?;
    Some(UriParts {
        scheme: u.scheme_str().map(String::from),
        host: u.host().map(String::from),
        port: u.port_u16(),
    })
}

/// A connection target: an IP socket address (IP text as `IpAddr`'s
/// `Display` writes it) or a domain name that a proxy resolves.
#[derive(Debug, Clone, PartialEq, Eq)]
pub enum Target {
    Ip { ip: String, port: u16 },
    Domain { host: String, port: u16 },
}

impl Target {
    /// `(is an IP address, host text, port)`.
    pub open spec fn view(&self) -> (bool, Seq<char>, u16) {
        match self {
            Target::Ip { ip, port } => (true, ip@, *port),
            Target::Domain { host, port } => (false, host@, *port),
        }
    }

    /// The host text to write in a `CONNECT` line (the IP address or the domain).
    pub fn host_text(&self) -> (res: &str)
        ensures
            res@ == self.view().1,
    {
        match self {
            Target::Ip { ip, .. } => ip.as_str(),
            Target::Domain { host, .. } => host.as_str(),
        }
    }

    /// The port of the target.
    pub fn port(&self) -> (res: u16)
        ensures
            res == self.view().2,
    {
        match self {
            Target::Ip { port, .. } => *port,
            Target::Domain { port, .. } => *port,
        }
    }

    /// Converts `host:port` text as `tokio_socks` does: a socket address
    /// becomes an IP target, anything else a domain target.
    pub fn from_text(text: String) -> (res: Option<Target>)
        ensures
            match res {
                Some(t) => target_addr_of(text@) == Some(t.view()),
                None => target_addr_of(text@) is None,
            },
            res matches Some(Target::Domain { host, port }) ==> domain_split(text@, host@, port),
    {
        target_from_text(text)
    }
}

/// What `tokio_socks`' `IntoTargetAddr` for `String` makes of a text: `None`
/// on error, otherwise `(is an IP address, host text, port)`.
pub uninterp spec fn target_addr_of(text: Seq<char>) -> Option<(bool, Seq<char>, u16)>;

/// An ASCII decimal digit.
pub open spec fn is_digit(c: char) -> bool {
    '0' <= c <= '9'
}

/// The value of a sequence of decimal digits.
pub open spec fn digits_value(ds: Seq<char>) -> nat
    decreases ds.len(),
{
    if ds.len() == 0 {
        0
    } else {
        digits_value(ds.drop_last()) * 10 + ((ds.last() as int - 48) as nat)
    }
}

/// `tail` is what `u16::from_str` reads as `port`: an optional `+`, then
/// one or more decimal digits whose value is `port`.
pub open spec fn port_text(tail: Seq<char>, port: u16) -> bool {
    let ds = if tail.len() > 0 && tail[0] == '+' { tail.drop_first() } else { tail };
    &&& ds.len() > 0
    &&& forall|i: int| 0 <= i < ds.len() ==> is_digit(#[trigger] ds[i])
    &&& digits_value(ds) == port
}

/// `text` is `host`, a colon, and a colon-free port text that reads as `port`,
/// with `host` of at most 255 characters.
pub open spec fn domain_split(text: Seq<char>, host: Seq<char>, port: u16) -> bool {
    exists|tail: Seq<char>|
        #![trigger host + seq![':'] + tail]
        {
            &&& text == host + seq![':'] + tail
            &&& !tail.contains(':')
            &&& port_text(tail, port)
            &&& host.len() <= 255
        }
}

/// Converts a `host:port` text with `tokio_socks::IntoTargetAddr` for
/// `String`. The contract names the conversion, and states of a domain
/// result what the source shows: the text is split at its last colon, the
/// port is read by `u16::from_str` and the domain has at most 255 bytes.
#[verifier::external_body]
fn target_from_text(text: String) -> (res: Option<Target>)
    ensures
        match res {
            Some(t) => target_addr_of(text@) == Some(t.view()),
            None => target_addr_of(text@) is None,
        },
        res matches Some(Target::Domain { host, port }) ==> domain_split(text@, host@, port),
{
    match tokio_socks::IntoTargetAddr::into_target_addr(text).ok()? {
        tokio_socks::TargetAddr::Ip(sa) => Some(Target::Ip { ip: sa.ip().to_string(), port: sa.port() }),
        tokio_socks::TargetAddr::Domain(d, p) => Some(Target::Domain { host: d.into_owned(), port: p }),
    }
}


// ---------------------------------------------------------------------------
// Endpoint of a request
// ---------------------------------------------------------------------------

/// Why no endpoint can be derived from a request URI.
#[derive(Debug, Clone, Copy, PartialEq, Eq, Structural)]
pub enum EndpointError {
    /// The URI has no host.
    NoHost,
    /// The URI has neither a port nor a scheme.
    NoPortNorScheme,
    /// `host:port` is no address that `tokio_socks` accepts.
    InvalidAddress,
}

pub open spec fn https_text() -> Seq<char> {
    seq!['h', 't', 't', 'p', 's']
}

/// The port to connect to: the explicit one, else 443 for `https`, else 80
/// when there is some other scheme, else none.
pub open spec fn endpoint_port(u: (Option<Seq<char>>, Option<Seq<char>>, Option<u16>)) -> Option<u16> {
    match u.2 {
        Some(p) => Some(p),
        None => if u.0 == Some(https_text()) {
            Some(443u16)
        } else if u.0 is None {
            None
        } else {
            Some(80u16)
        },
    }
}

/// Host (after the host overrides) and port of the endpoint of a URI.
pub open spec fn spec_endpoint(
    u: (Option<Seq<char>>, Option<Seq<char>>, Option<u16>),
    hosts: Map<Seq<char>, String>,
) -> Result<(Seq<char>, u16), EndpointError> {
    match u.1 {
        None => Err(EndpointError::NoHost),
        Some(h) => match endpoint_port(u) {
            None => Err(EndpointError::NoPortNorScheme),
            Some(p) => Ok((if hosts.contains_key(h) { hosts[h]@ } else { h }, p)),
        },
    }
}

/// `host:port`.
pub open spec fn endpoint_text(host: Seq<char>, port: u16) -> Seq<char> {
    host + seq![':'] + decimal(port as nat)
}

/// The `host:port` text of the endpoint that a request URI addresses.
pub fn endpoint_address(uri: &UriParts, hosts: &Hosts) -> (res: Result<String, EndpointError>)
    ensures
        match spec_endpoint(uri.view(), hosts.map()) {
            Ok((h, p)) => res matches Ok(t) && t@ == endpoint_text(h, p),
            Err(e) => res == Err::<String, EndpointError>(e),
        },
{
    let host: &str = match &uri.host {
        Some(s) => match hosts.get(s.as_str()) {
            Some(r) => r.as_str(),
            None => s.as_str(),
        },
        None => {
            return Err(EndpointError::NoHost);
        },
    };
    let port: u16 = match uri.port {
        Some(p) => p,
        None => {
            let https = match &uri.scheme {
                Some(s) => {
                    let b = str_eq(s.as_str(), "https");
                    proof {
                        reveal_strlit("https");
                        assert("https"@ =~= https_text());
                    }
                    b
                },
                None => false,
            };
            if https {
                443
            } else {
                if uri.scheme.is_none() {
                    return Err(EndpointError::NoPortNorScheme);
                }
                80
            }
        },
    };
    let mut text = String::new();
    push_str(&mut text, host);
    push_char(&mut text, ':');
    push_decimal(&mut text, port as u64);
    assert(text@ =~= endpoint_text(host@, port));
    Ok(text)
}

/// The endpoint that a request URI addresses, as a connection target.
pub fn get_endpoint(uri: &UriParts, hosts: &Hosts) -> (res: Result<Target, EndpointError>)
    ensures
        target_result(res) == spec_endpoint_target(uri.view(), hosts.map()),
        res matches Ok(Target::Domain { host, port }) ==> spec_endpoint(uri.view(), hosts.map()) == Ok::<
            (Seq<char>, u16),
            EndpointError,
        >((host@, port)),
{
    let text = endpoint_address(uri, hosts)?;
    let ghost t = text@;
    match Target::from_text(text) {
        Some(target) => {
            proof {
                if target.view().0 == false {
                    let (h, p) = spec_endpoint(uri.view(), hosts.map())->Ok_0;
                    lemma_domain_of_endpoint(h, p, target.view().1, target.view().2);
                }
            }
            Ok(target)
        },
        None => Err(EndpointError::InvalidAddress),
    }
}

/// The decimal rendering is a non-empty run of digits that reads back as the number.
pub proof fn lemma_decimal_reads_back(n: nat)
    ensures
        decimal(n).len() > 0,
        forall|i: int| 0 <= i < decimal(n).len() ==> is_digit(#[trigger] decimal(n)[i]),
        digits_value(decimal(n)) == n,
    decreases n,
{
    let d = (n % 10) as nat;
    assert(digit_char(d) as int == d + 48);
    if n >= 10 {
        lemma_decimal_reads_back(n / 10);
        assert(decimal(n).drop_last() =~= decimal(n / 10));
        assert(decimal(n).last() == digit_char(d));
        vstd::arithmetic::div_mod::lemma_fundamental_div_mod(n as int, 10);
        assert(digits_value(decimal(n)) == digits_value(decimal(n / 10)) * 10 + d);
    } else {
        assert(decimal(n).drop_last() =~= Seq::<char>::empty());
        assert(digits_value(Seq::<char>::empty()) == 0);
        assert(digits_value(decimal(n)) == d);
    }
}

proof fn lemma_split_unique(h1: Seq<char>, t1: Seq<char>, h2: Seq<char>, t2: Seq<char>)
    requires
        h1 + seq![':'] + t1 == h2 + seq![':'] + t2,
        !t1.contains(':'),
        !t2.contains(':'),
    ensures
        h1 == h2,
        t1 == t2,
{
    let x = h1 + seq![':'] + t1;
    let y = h2 + seq![':'] + t2;
    assert(x.len() == h1.len() + 1 + t1.len());
    assert(y.len() == h2.len() + 1 + t2.len());
    assert(x.len() == y.len());
    assert(x[h1.len() as int] == ':');
    assert(y[h2.len() as int] == ':');
    if h1.len() < h2.len() {
        let j = h2.len() - h1.len() - 1;
        assert(x[h2.len() as int] == t1[j]);
        assert(t1[j] == ':');
        assert(t1.contains(':'));
    }
    if h2.len() < h1.len() {
        let j = h1.len() - h2.len() - 1;
        assert(y[h1.len() as int] == t2[j]);
        assert(t2[j] == ':');
        assert(t2.contains(':'));
    }
    assert(h1 =~= x.subrange(0, h1.len() as int));
    assert(h2 =~= x.subrange(0, h2.len() as int));
    assert(t1 =~= x.subrange(h1.len() as int + 1, x.len() as int));
    assert(t2 =~= x.subrange(h2.len() as int + 1, x.len() as int));
}

/// A domain target read from `host:port` text is that host and that port.
pub proof fn lemma_domain_of_endpoint(h: Seq<char>, p: u16, host: Seq<char>, port: u16)
    requires
        domain_split(endpoint_text(h, p), host, port),
    ensures
        host == h,
        port == p,
{
    let tail = choose|tail: Seq<char>|
        #![trigger host + seq![':'] + tail]
        {
            &&& endpoint_text(h, p) == host + seq![':'] + tail
            &&& !tail.contains(':')
            &&& port_text(tail, port)
            &&& host.len() <= 255
        };
    let dec = decimal(p as nat);
    lemma_decimal_reads_back(p as nat);
    assert(!dec.contains(':')) by {
        if dec.contains(':') {
            let i = choose|i: int| 0 <= i < dec.len() && dec[i] == ':';
            assert(is_digit(dec[i]));
        }
    }
    lemma_split_unique(host, tail, h, dec);
    assert(is_digit(dec[0]));
}


/// A target, or why there is none, as plain values.
pub open spec fn target_result(r: Result<Target, EndpointError>) -> Result<(bool, Seq<char>, u16), EndpointError> {
    match r {
        Ok(t) => Ok(t.view()),
        Err(e) => Err(e),
    }
}

/// The target that a `host:port` text names.
pub open spec fn spec_text_target(text: Seq<char>) -> Result<(bool, Seq<char>, u16), EndpointError> {
    match target_addr_of(text) {
        Some(v) => Ok(v),
        None => Err(EndpointError::InvalidAddress),
    }
}

/// The target of the endpoint that a request URI addresses.
pub open spec fn spec_endpoint_target(
    u: (Option<Seq<char>>, Option<Seq<char>>, Option<u16>),
    hosts: Map<Seq<char>, String>,
) -> Result<(bool, Seq<char>, u16), EndpointError> {
    match spec_endpoint(u, hosts) {
        Err(e) => Err(e),
        Ok((h, p)) => spec_text_target(endpoint_text(h, p)),
    }
}

// ---------------------------------------------------------------------------
// Chain of proxies
// ---------------------------------------------------------------------------

/// One step through the chain: ask proxy number `via` to open a tunnel to
/// `target` (or fail with the error, when the target is unusable).
#[derive(Debug)]
pub struct Hop {
    pub via: usize,
    pub target: Result<Target, EndpointError>,
}

/// How a connection to a request's endpoint is set up.
#[derive(Debug)]
pub enum Route {
    /// No proxies: connect to the endpoint itself.
    Direct(Result<Target, EndpointError>),
    /// Connect to the address `entry` of the innermost proxy, then run the
    /// hops in order over that connection.
    Chain { entry: String, hops: Vec<Hop> },
}

impl Uplink {
    /// The way to the endpoint of `uri`: proxy `i` tunnels to proxy `i + 1`,
    /// and the outermost proxy tunnels to the endpoint itself.
    pub fn route(&self, uri: &UriParts) -> (res: Route)
        ensures
            self.proxies@.len() == 0 ==> (res matches Route::Direct(t) && target_result(t)
                == spec_endpoint_target(uri.view(), self.hosts.map())),
            self.proxies@.len() > 0 ==> (res matches Route::Chain { entry, hops } && {
                &&& entry@ == self.proxies@[0].ep@
                &&& hops@.len() == self.proxies@.len()
                &&& forall|i: int|
                    0 <= i < hops@.len() ==> #[trigger] hops@[i].via == i && target_result(hops@[i].target) == (
                    if i + 1 < hops@.len() {
                        spec_text_target(self.proxies@[i + 1].ep@)
                    } else {
                        spec_endpoint_target(uri.view(), self.hosts.map())
                    })
            }),
    {
        let l = self.proxies.len();
        if l == 0 {
            return Route::Direct(get_endpoint(uri, &self.hosts));
        }
        let entry = self.proxies[0].ep.clone();
        let mut hops: Vec<Hop> = Vec::new();
        let mut i: usize = 0;
        while i + 1 < l
            invariant
                l == self.proxies@.len(),
                l > 0,
                i + 1 <= l,
                hops@.len() == i,
                forall|j: int|
                    0 <= j < i ==> #[trigger] hops@[j].via == j && target_result(hops@[j].target)
                        == spec_text_target(self.proxies@[j + 1].ep@),
            decreases l - i,
        {
            let next = Target::from_text(self.proxies[i + 1].ep.clone());
            let target = match next {
                Some(t) => Ok(t),
                None => Err(EndpointError::InvalidAddress),
            };
            hops.push(Hop { via: i, target });
            i += 1;
        }
        hops.push(Hop { via: l - 1, target: get_endpoint(uri, &self.hosts) });
        Route::Chain { entry, hops }
    }
}

// ---------------------------------------------------------------------------
// HTTP CONNECT handshake
// ---------------------------------------------------------------------------

/// The request asking an HTTP proxy for a tunnel to `host:port`.
pub open spec fn connect_request_text(host: Seq<char>, port: u16) -> Seq<char> {
    let hp = endpoint_text(host, port);
    "CONNECT "@ + hp + " HTTP/1.1\r\nHost: "@ + hp + "\r\n\r\n"@
}

/// The `CONNECT` request for a target (host text as the target writes it).
pub fn connect_request(target: &Target) -> (res: String)
    ensures
        res@ == connect_request_text(target.view().1, target.view().2),
{
    let host = target.host_text();
    let port = target.port();
    let mut s = String::new();
    push_str(&mut s, "CONNECT ");
    push_str(&mut s, host);
    push_char(&mut s, ':');
    push_decimal(&mut s, port as u64);
    push_str(&mut s, " HTTP/1.1\r\nHost: ");
    push_str(&mut s, host);
    push_char(&mut s, ':');
    push_decimal(&mut s, port as u64);
    push_str(&mut s, "\r\n\r\n");
    assert(s@ =~= connect_request_text(host@, port));
    s
}

/// `HTTP/1.1 200`
pub open spec fn status_ok_http11() -> Seq<u8> {
    seq![72u8, 84, 84, 80, 47, 49, 46, 49, 32, 50, 48, 48]
}

/// `HTTP/1.0 200`
pub open spec fn status_ok_http10() -> Seq<u8> {
    seq![72u8, 84, 84, 80, 47, 49, 46, 48, 32, 50, 48, 48]
}

/// The empty line that ends a header block: `\r\n\r\n`.
pub open spec fn header_end() -> Seq<u8> {
    seq![13u8, 10, 13, 10]
}

/// Where the reading of a proxy's reply to `CONNECT` stands.
#[derive(Debug, Clone, Copy, PartialEq, Eq, Structural)]
pub enum ReplyState {
    /// Nothing read yet: the next chunk must carry the status line.
    AwaitStatus,
    /// A `200` status line was read; waiting for the end of the headers.
    AwaitEnd,
}

/// What to do after reading a chunk of the proxy's reply.
#[derive(Debug, Clone, Copy, PartialEq, Eq, Structural)]
pub enum ReplyStep {
    /// The tunnel is open.
    Established,
    /// Read the next chunk (in state `AwaitEnd`).
    ReadMore,
    /// The proxy refused, or closed the connection.
    Refused,
}

/// The reply handling of an HTTP proxy: the first chunk must be longer than
/// twelve bytes and start with a `200` status line of HTTP/1.1 or HTTP/1.0;
/// the tunnel stands once a chunk ends with an empty line; an empty chunk
/// (the connection closed) or a refused status ends it.
pub open spec fn spec_reply_step(state: ReplyState, chunk: Seq<u8>) -> ReplyStep {
    match state {
        ReplyState::AwaitStatus => if chunk.len() > 12 && (has_prefix(chunk, status_ok_http11())
            || has_prefix(chunk, status_ok_http10())) {
            if has_suffix(chunk, header_end()) {
                ReplyStep::Established
            } else {
                ReplyStep::ReadMore
            }
        } else {
            ReplyStep::Refused
        },
        ReplyState::AwaitEnd => if chunk.len() == 0 {
            ReplyStep::Refused
        } else if has_suffix(chunk, header_end()) {
            ReplyStep::Established
        } else {
            ReplyStep::ReadMore
        },
    }
}

/// Judges one chunk of a proxy's reply to `CONNECT`.
pub fn connect_reply_step(state: ReplyState, chunk: &[u8]) -> (res: ReplyStep)
    ensures
        res == spec_reply_step(state, chunk@),
{
    let end: [u8; 4] = [13, 10, 13, 10];
    assert(end@ =~= header_end());
    match state {
        ReplyState::AwaitStatus => {
            let ok11: [u8; 12] = [72, 84, 84, 80, 47, 49, 46, 49, 32, 50, 48, 48];
            let ok10: [u8; 12] = [72, 84, 84, 80, 47, 49, 46, 48, 32, 50, 48, 48];
            assert(ok11@ =~= status_ok_http11());
            assert(ok10@ =~= status_ok_http10());
            if chunk.len() > 12 && (starts_with(chunk, ok11.as_slice()) || starts_with(chunk, ok10.as_slice())) {
                if ends_with(chunk, end.as_slice()) {
                    ReplyStep::Established
                } else {
                    ReplyStep::ReadMore
                }
            } else {
                ReplyStep::Refused
            }
        },
        ReplyState::AwaitEnd => {
            if chunk.len() == 0 {
                ReplyStep::Refused
            } else if ends_with(chunk, end.as_slice()) {
                ReplyStep::Established
            } else {
                ReplyStep::ReadMore
            }
        },
    }
}

/// The outcome of reading the reply chunk by chunk, from `state`, until a
/// step ends it (`ReadMore` when the chunks run out first).
pub open spec fn reply_run(state: ReplyState, chunks: Seq<Seq<u8>>) -> ReplyStep
    decreases chunks.len(),
{
    if chunks.len() == 0 {
        ReplyStep::ReadMore
    } else {
        match spec_reply_step(state, chunks[0]) {
            ReplyStep::ReadMore => reply_run(ReplyState::AwaitEnd, chunks.drop_first()),
            r => r,
        }
    }
}

/// A first chunk that carries a `200` status line.
pub open spec fn status_accepted(c: Seq<u8>) -> bool {
    c.len() > 12 && (has_prefix(c, status_ok_http11()) || has_prefix(c, status_ok_http10()))
}

/// Some chunk ends with the empty line, and neither it nor any chunk before
/// it is empty (the connection stayed open until then).
pub open spec fn ends_before_close(chunks: Seq<Seq<u8>>) -> bool {
    exists|k: int|
        0 <= k < chunks.len() && #[trigger] has_suffix(chunks[k], header_end()) && forall|j: int|
            0 <= j <= k ==> #[trigger] chunks[j].len() > 0
}

proof fn lemma_end_run(chunks: Seq<Seq<u8>>)
    ensures
        (reply_run(ReplyState::AwaitEnd, chunks) == ReplyStep::Established) == ends_before_close(chunks),
    decreases chunks.len(),
{
    if chunks.len() > 0 {
        let rest = chunks.drop_first();
        lemma_end_run(rest);
        if chunks[0].len() == 0 {
            if ends_before_close(chunks) {
                let k = choose|k: int|
                    0 <= k < chunks.len() && #[trigger] has_suffix(chunks[k], header_end()) && forall|j: int|
                        0 <= j <= k ==> #[trigger] chunks[j].len() > 0;
                assert(chunks[0].len() > 0);
            }
        } else if has_suffix(chunks[0], header_end()) {
            assert(forall|j: int| 0 <= j <= 0 ==> #[trigger] chunks[j].len() > 0);
            assert(ends_before_close(chunks));
        } else {
            if ends_before_close(rest) {
                let k = choose|k: int|
                    0 <= k < rest.len() && #[trigger] has_suffix(rest[k], header_end()) && forall|j: int|
                        0 <= j <= k ==> #[trigger] rest[j].len() > 0;
                assert(has_suffix(chunks[k + 1], header_end()));
                assert forall|j: int| 0 <= j <= k + 1 implies #[trigger] chunks[j].len() > 0 by {
                    if j > 0 {
                        assert(chunks[j] == rest[j - 1]);
                    }
                }
            }
            if ends_before_close(chunks) {
                let k = choose|k: int|
                    0 <= k < chunks.len() && #[trigger] has_suffix(chunks[k], header_end()) && forall|j: int|
                        0 <= j <= k ==> #[trigger] chunks[j].len() > 0;
                assert(k > 0);
                assert(has_suffix(rest[k - 1], header_end()));
                assert forall|j: int| 0 <= j <= k - 1 implies #[trigger] rest[j].len() > 0 by {
                    assert(rest[j] == chunks[j + 1]);
                }
            }
        }
    }
}

/// Reading a proxy's reply chunk by chunk opens the tunnel exactly when the
/// first chunk carries a `200` status line and some chunk ends with the
/// empty line before the connection closes.
pub proof fn lemma_reply_run(chunks: Seq<Seq<u8>>)
    ensures
        (reply_run(ReplyState::AwaitStatus, chunks) == ReplyStep::Established) == (chunks.len() > 0
            && status_accepted(chunks[0]) && ends_before_close(chunks)),
{
    if chunks.len() > 0 && status_accepted(chunks[0]) {
        let rest = chunks.drop_first();
        lemma_end_run(rest);
        if has_suffix(chunks[0], header_end()) {
            assert(forall|j: int| 0 <= j <= 0 ==> #[trigger] chunks[j].len() > 0);
            assert(ends_before_close(chunks));
        } else {
            if ends_before_close(rest) {
                let k = choose|k: int|
                    0 <= k < rest.len() && #[trigger] has_suffix(rest[k], header_end()) && forall|j: int|
                        0 <= j <= k ==> #[trigger] rest[j].len() > 0;
                assert(has_suffix(chunks[k + 1], header_end()));
                assert forall|j: int| 0 <= j <= k + 1 implies #[trigger] chunks[j].len() > 0 by {
                    if j > 0 {
                        assert(chunks[j] == rest[j - 1]);
                    }
                }
            }
            if ends_before_close(chunks) {
                let k = choose|k: int|
                    0 <= k < chunks.len() && #[trigger] has_suffix(chunks[k], header_end()) && forall|j: int|
                        0 <= j <= k ==> #[trigger] chunks[j].len() > 0;
                assert(k > 0);
                assert(has_suffix(rest[k - 1], header_end()));
                assert forall|j: int| 0 <= j <= k - 1 implies #[trigger] rest[j].len() > 0 by {
                    assert(rest[j] == chunks[j + 1]);
                }
            }
        }
    }
}

/// The markers of a proxy's reply: the accepted status lines are
/// `HTTP/1.1 200` and `HTTP/1.0 200`, and the head ends with an empty line
/// (`\r\n\r\n`), all in ASCII.
pub proof fn lemma_reply_markers()
    ensures
        status_ok_http11() == "HTTP/1.1 200"@.map_values(|c: char| c as u8),
        status_ok_http10() == "HTTP/1.0 200"@.map_values(|c: char| c as u8),
        header_end() == "\r\n\r\n"@.map_values(|c: char| c as u8),
{
    reveal_strlit("HTTP/1.1 200");
    reveal_strlit("HTTP/1.0 200");
    reveal_strlit("\r\n\r\n");
    assert(status_ok_http11() =~= "HTTP/1.1 200"@.map_values(|c: char| c as u8));
    assert(status_ok_http10() =~= "HTTP/1.0 200"@.map_values(|c: char| c as u8));
    assert(header_end() =~= "\r\n\r\n"@.map_values(|c: char| c as u8));
}

/// A host override sends a request for its host to the override's
/// target, at the port that the URI selects.
pub proof fn lemma_override_applies(
    u: (Option<Seq<char>>, Option<Seq<char>>, Option<u16>),
    hosts: Map<Seq<char>, String>,
    target: String,
)
    requires
        u.1 is Some,
        endpoint_port(u) is Some,
    ensures
        spec_endpoint(u, hosts.insert(u.1->0, target)) == Ok::<(Seq<char>, u16), EndpointError>(
            (target@, endpoint_port(u)->0),
        ),
{
}

/// A host with no override entry is connected to as the URI names it, at
/// the port that the URI selects.
pub proof fn lemma_no_override_keeps_host(
    u: (Option<Seq<char>>, Option<Seq<char>>, Option<u16>),
    hosts: Map<Seq<char>, String>,
)
    requires
        u.1 is Some,
        endpoint_port(u) is Some,
        !hosts.dom().contains(u.1->0),
    ensures
        spec_endpoint(u, hosts) == Ok::<(Seq<char>, u16), EndpointError>((u.1->0, endpoint_port(u)->0)),
{
}

/// The `CONNECT` request for `host` and `port` always writes the port: its
/// request line is `CONNECT host:port HTTP/1.1`, followed by the header
/// `Host: host:port` and an empty line, the port in decimal.
pub proof fn lemma_connect_request_names_port(host: Seq<char>, port: u16)
    ensures
        connect_request_text(host, port) == ("CONNECT "@ + host + seq![':'] + decimal(port as nat)
            + " HTTP/1.1\r\n"@) + ("Host: "@ + host + seq![':'] + decimal(port as nat) + "\r\n"@)
            + "\r\n"@,
{
    reveal_strlit("CONNECT ");
    reveal_strlit(" HTTP/1.1\r\nHost: ");
    reveal_strlit("\r\n\r\n");
    reveal_strlit(" HTTP/1.1\r\n");
    reveal_strlit("Host: ");
    reveal_strlit("\r\n");
    assert(connect_request_text(host, port) =~= ("CONNECT "@ + host + seq![':'] + decimal(port as nat)
        + " HTTP/1.1\r\n"@) + ("Host: "@ + host + seq![':'] + decimal(port as nat) + "\r\n"@)
        + "\r\n"@);
}

/// The endpoint of a URI: without a host there is none; the port is the
/// URI's own when it has one, else 443 for `https`, 80 for any other
/// scheme, and none without a scheme.
pub proof fn lemma_endpoint_ports(
    u: (Option<Seq<char>>, Option<Seq<char>>, Option<u16>),
    hosts: Map<Seq<char>, String>,
)
    ensures
        u.1 is None ==> spec_endpoint(u, hosts) == Err::<(Seq<char>, u16), EndpointError>(EndpointError::NoHost),
        u.2 matches Some(p) ==> endpoint_port(u) == Some(p),
        u.2 is None && u.0 == Some("https"@) ==> endpoint_port(u) == Some(443u16),
        u.2 is None && u.0 is Some && u.0 != Some("https"@) ==> endpoint_port(u) == Some(80u16),
        u.2 is None && u.0 is None && u.1 is Some ==> spec_endpoint(u, hosts) == Err::<(Seq<char>, u16), EndpointError>(
            EndpointError::NoPortNorScheme,
        ),
        u.1 is Some && endpoint_port(u) is Some ==> spec_endpoint(u, hosts) is Ok,
{
    reveal_strlit("https");
    assert("https"@ =~= https_text());
}

/// `host:port` reads back: the host, one `:`, then the port as a non-empty
/// run of decimal digits.
pub proof fn lemma_endpoint_text_reads_back(host: Seq<char>, port: u16)
    ensures
        endpoint_text(host, port).len() > host.len() + 1,
        endpoint_text(host, port).subrange(0, host.len() as int) == host,
        endpoint_text(host, port)[host.len() as int] == ':',
        forall|i: int|
            host.len() < i < endpoint_text(host, port).len() ==> is_digit(#[trigger] endpoint_text(host, port)[i]),
        digits_value(endpoint_text(host, port).subrange(host.len() + 1int, endpoint_text(host, port).len() as int))
            == port,
{
    lemma_decimal_reads_back(port as nat);
    let t = endpoint_text(host, port);
    let tail = t.subrange(host.len() + 1int, t.len() as int);
    assert(t.subrange(0, host.len() as int) =~= host);
    assert(tail =~= decimal(port as nat));
    assert forall|i: int| host.len() < i < t.len() implies is_digit(#[trigger] t[i]) by {
        assert(t[i] == decimal(port as nat)[i - host.len() - 1]);
    }
}

} // verus!
