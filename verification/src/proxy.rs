//! What the proxy does with one request.
//!
//! A request is routed by its method: `CONNECT` asks for a tunnel, any other
//! method for a plain forward. Its target is read, its signature is
//! verified, and its target is checked against the policy; all of it with
//! one snapshot of the policy and of the node's identifier. The caller
//! resolves host names, dials, and moves the bytes.

use std::collections::HashSet;
use vstd::prelude::*;
use vstd::slice::slice_to_vec;
use vstd::string::StringSliceAdditionalSpecFns;
use vstd::utf8::encode_utf8;
use crate::auth::{auth_verdict, authenticate, AuthError, SignedRequest, SignedRequestView};
use crate::chars::{all_digit_chars, parse_port, port_value, same_text, to_chars, to_text};
use crate::dynamic_config::{port_set, DynamicConfig};
use crate::headers::{
    find_header,
    first_named,
    forwarded,
    header_views,
    strip_hop_by_hop,
    Header,
    HeaderView,
};
use crate::net::{IpAddress, SocketAddress};
use crate::target_filter::{
    host_literal,
    needs_resolution,
    target_verdict,
    validate_target,
    FilterError,
    FilterErrorView,
};

verus! {

/// Why the proxy itself answers a request, or drops it.
#[derive(Debug, PartialEq, Eq)]
pub enum ProxyError {
    /// The request target cannot be read.
    MalformedRequest,
    MissingCredentials,
    TimestampSkew,
    BadSignature,
    PortNotAllowed(u16),
    PrivateIp(IpAddress),
    DnsResolutionFailed(String),
    /// The upstream could not be reached.
    UpstreamDialFailed,
    /// The upstream failed while bytes were moving.
    UpstreamIoError,
}

/// A `ProxyError` with its host as a sequence of characters.
pub enum ProxyErrorView {
    MalformedRequest,
    MissingCredentials,
    TimestampSkew,
    BadSignature,
    PortNotAllowed(u16),
    PrivateIp(IpAddress),
    DnsResolutionFailed(Seq<char>),
    UpstreamDialFailed,
    UpstreamIoError,
}

impl View for ProxyError {
    type V = ProxyErrorView;

    open spec fn view(&self) -> ProxyErrorView {
        match self {
            ProxyError::MalformedRequest => ProxyErrorView::MalformedRequest,
            ProxyError::MissingCredentials => ProxyErrorView::MissingCredentials,
            ProxyError::TimestampSkew => ProxyErrorView::TimestampSkew,
            ProxyError::BadSignature => ProxyErrorView::BadSignature,
            ProxyError::PortNotAllowed(p) => ProxyErrorView::PortNotAllowed(*p),
            ProxyError::PrivateIp(ip) => ProxyErrorView::PrivateIp(*ip),
            ProxyError::DnsResolutionFailed(h) => ProxyErrorView::DnsResolutionFailed(h@),
            ProxyError::UpstreamDialFailed => ProxyErrorView::UpstreamDialFailed,
            ProxyError::UpstreamIoError => ProxyErrorView::UpstreamIoError,
        }
    }
}

/// The error that the proxy reports for a failed authentication.
pub open spec fn auth_error_view(e: AuthError) -> ProxyErrorView {
    match e {
        AuthError::MissingCredentials => ProxyErrorView::MissingCredentials,
        AuthError::TimestampSkew => ProxyErrorView::TimestampSkew,
        AuthError::BadSignature => ProxyErrorView::BadSignature,
    }
}

/// The error that the proxy reports for a refused target.
pub open spec fn filter_error_view(e: FilterErrorView) -> ProxyErrorView {
    match e {
        FilterErrorView::PrivateIp(ip) => ProxyErrorView::PrivateIp(ip),
        FilterErrorView::PortNotAllowed(p) => ProxyErrorView::PortNotAllowed(p),
        FilterErrorView::DnsResolutionFailed(h) => ProxyErrorView::DnsResolutionFailed(h),
    }
}

/// The status that the proxy answers an error with; none where it drops the
/// connection without an answer.
pub open spec fn status_of(e: ProxyErrorView) -> Option<u16> {
    match e {
        ProxyErrorView::MalformedRequest => Some(400u16),
        ProxyErrorView::MissingCredentials => Some(401u16),
        ProxyErrorView::TimestampSkew => Some(401u16),
        ProxyErrorView::BadSignature => Some(403u16),
        ProxyErrorView::PortNotAllowed(_) => Some(403u16),
        ProxyErrorView::PrivateIp(_) => Some(403u16),
        ProxyErrorView::DnsResolutionFailed(_) => Some(502u16),
        ProxyErrorView::UpstreamDialFailed => Some(502u16),
        ProxyErrorView::UpstreamIoError => None,
    }
}

impl ProxyError {
    /// The error for a failed authentication.
    pub fn from_auth(e: AuthError) -> (error: ProxyError)
        ensures
            error@ == auth_error_view(e),
    {
        match e {
            AuthError::MissingCredentials => ProxyError::MissingCredentials,
            AuthError::TimestampSkew => ProxyError::TimestampSkew,
            AuthError::BadSignature => ProxyError::BadSignature,
        }
    }

    /// The error for a refused target.
    pub fn from_filter(e: FilterError) -> (error: ProxyError)
        ensures
            error@ == filter_error_view(e@),
    {
        match e {
            FilterError::PrivateIp(ip) => ProxyError::PrivateIp(ip),
            FilterError::PortNotAllowed(p) => ProxyError::PortNotAllowed(p),
            FilterError::DnsResolutionFailed(h) => ProxyError::DnsResolutionFailed(h),
        }
    }

    /// The status to answer with; none where the connection is dropped
    /// without an answer.
    pub fn status_code(&self) -> (status: Option<u16>)
        ensures
            status == status_of(self@),
    {
        match self {
            ProxyError::MalformedRequest => Some(400),
            ProxyError::MissingCredentials => Some(401),
            ProxyError::TimestampSkew => Some(401),
            ProxyError::BadSignature => Some(403),
            ProxyError::PortNotAllowed(_) => Some(403),
            ProxyError::PrivateIp(_) => Some(403),
            ProxyError::DnsResolutionFailed(_) => Some(502),
            ProxyError::UpstreamDialFailed => Some(502),
            ProxyError::UpstreamIoError => None,
        }
    }
}

/// Which handler takes a request.
#[derive(Clone, Copy, Debug, PartialEq, Eq, Structural)]
pub enum Route {
    /// A tunnel to `host:port`.
    Connect,
    /// A plain forward of the request.
    Forward,
}

/// The handler for a method: the tunnel for `CONNECT`, the plain forward for
/// any other.
pub open spec fn route_of(method: Seq<char>) -> Route {
    if method == "CONNECT"@ {
        Route::Connect
    } else {
        Route::Forward
    }
}

/// The handler for a method.
pub fn route(method: &str) -> (r: Route)
    ensures
        r == route_of(method@),
{
    if same_text(method, "CONNECT") {
        Route::Connect
    } else {
        Route::Forward
    }
}

/// The target of a request line.
pub enum RequestTarget {
    /// `host:port`, as `CONNECT` carries it.
    Authority(String),
    /// An absolute URI, taken apart.
    Absolute { scheme: String, host: String, port: Option<u16>, path_and_query: String },
    /// Any other form.
    Other,
}

/// A request target as plain mathematical values.
pub enum RequestTargetView {
    Authority(Seq<char>),
    Absolute { scheme: Seq<char>, host: Seq<char>, port: Option<u16>, path_and_query: Seq<char> },
    Other,
}

impl View for RequestTarget {
    type V = RequestTargetView;

    open spec fn view(&self) -> RequestTargetView {
        match self {
            RequestTarget::Authority(a) => RequestTargetView::Authority(a@),
            RequestTarget::Absolute { scheme, host, port, path_and_query } => {
                RequestTargetView::Absolute {
                    scheme: scheme@,
                    host: host@,
                    port: *port,
                    path_and_query: path_and_query@,
                }
            },
            RequestTarget::Other => RequestTargetView::Other,
        }
    }
}

/// What of a request the proxy decides on.
pub struct ProxyRequest {
    pub method: String,
    pub target: RequestTarget,
    pub headers: Vec<Header>,
}

/// A request as plain mathematical values.
pub struct ProxyRequestView {
    pub method: Seq<char>,
    pub target: RequestTargetView,
    pub headers: Seq<HeaderView>,
}

impl View for ProxyRequest {
    type V = ProxyRequestView;

    open spec fn view(&self) -> ProxyRequestView {
        ProxyRequestView {
            method: self.method@,
            target: self.target@,
            headers: header_views(self.headers@),
        }
    }
}

/// What one request reads of the node's state, taken once when the request
/// arrives.
pub struct RequestSnapshot {
    pub node_id: String,
    pub allowed_ports: HashSet<u16>,
    pub timestamp_tolerance: u32,
}

impl RequestSnapshot {
    /// Takes the snapshot for one request from the node identifier and the
    /// live policy as they are now.
    pub fn take(node_id: &str, live: &DynamicConfig) -> (snapshot: RequestSnapshot)
        ensures
            snapshot.node_id@ == node_id@,
            snapshot.allowed_ports@ == port_set(live@.allowed_ports),
            snapshot.timestamp_tolerance == live@.timestamp_tolerance,
    {
        RequestSnapshot {
            node_id: node_id.to_owned(),
            allowed_ports: live.allowed_ports(),
            timestamp_tolerance: live.timestamp_tolerance(),
        }
    }
}

/// Where a request wants to go, with what of it is signed.
pub struct Endpoint {
    pub scheme: String,
    pub host: String,
    /// The port as the request wrote it, if it wrote one.
    pub written_port: Option<u16>,
    /// The port to connect to.
    pub port: u16,
    pub path_and_query: String,
}

/// An endpoint as plain mathematical values.
pub struct EndpointView {
    pub scheme: Seq<char>,
    pub host: Seq<char>,
    pub written_port: Option<u16>,
    pub port: u16,
    pub path_and_query: Seq<char>,
}

impl View for Endpoint {
    type V = EndpointView;

    open spec fn view(&self) -> EndpointView {
        EndpointView {
            scheme: self.scheme@,
            host: self.host@,
            written_port: self.written_port,
            port: self.port,
            path_and_query: self.path_and_query@,
        }
    }
}

/// The position of the last colon of `s`; -1 where it has none.
pub open spec fn last_colon(s: Seq<char>) -> int
    decreases s.len(),
{
    if s.len() == 0 {
        -1
    } else if s.last() == ':' {
        s.len() - 1
    } else {
        last_colon(s.drop_last())
    }
}

/// Host and port of an authority `host:port`: the text before the last
/// colon, which must not be empty, and the decimal port behind it.
pub open spec fn authority_parts(s: Seq<char>) -> Option<(Seq<char>, u16)> {
    let colon = last_colon(s);
    let digits = s.subrange(colon + 1, s.len() as int);
    if colon > 0 && all_digit_chars(digits) && port_value(digits) is Some {
        Some((s.subrange(0, colon), port_value(digits)->0))
    } else {
        None
    }
}

/// The port that a scheme stands for: 80 for `http`, 443 for `https`.
pub open spec fn scheme_port(scheme: Seq<char>) -> Option<u16> {
    crate::auth::default_port(encode_utf8(scheme))
}

/// Where a request wants to go. A `CONNECT` carries `host:port` and is
/// signed as `https://host:port/`; any other method carries an absolute URI,
/// whose port is the written one or that of its scheme. Anything else is
/// malformed.
pub open spec fn endpoint_of(r: ProxyRequestView) -> Option<EndpointView> {
    match (route_of(r.method), r.target) {
        (Route::Connect, RequestTargetView::Authority(a)) => match authority_parts(a) {
            Some((host, port)) => Some(
                EndpointView {
                    scheme: "https"@,
                    host,
                    written_port: Some(port),
                    port,
                    path_and_query: "/"@,
                },
            ),
            None => None,
        },
        (Route::Forward, RequestTargetView::Absolute { scheme, host, port, path_and_query }) => {
            let connect_port = match port {
                Some(p) => Some(p),
                None => scheme_port(scheme),
            };
            if host.len() > 0 && connect_port is Some {
                Some(
                    EndpointView {
                        scheme,
                        host,
                        written_port: port,
                        port: connect_port->0,
                        path_and_query,
                    },
                )
            } else {
                None
            }
        },
        _ => None,
    }
}

/// The host as the target filter reads it: without the square brackets that
/// stand around an IPv6 literal in a URI.
pub open spec fn bare_host(host: Seq<char>) -> Seq<char> {
    if host.len() >= 2 && host[0] == '[' && host.last() == ']' {
        host.subrange(1, host.len() - 1)
    } else {
        host
    }
}

/// What of a request is signed, with the credentials from its headers.
pub open spec fn signed_view(r: ProxyRequestView, e: EndpointView) -> SignedRequestView {
    SignedRequestView {
        method: encode_utf8(r.method),
        scheme: encode_utf8(e.scheme),
        host: encode_utf8(e.host),
        port: e.written_port,
        path_and_query: encode_utf8(e.path_and_query),
        timestamp: first_named(r.headers, "x-aether-timestamp"),
        nonce: first_named(r.headers, "x-aether-nonce"),
        signature: first_named(r.headers, "x-aether-signature"),
    }
}

/// What the proxy does with a request.
pub enum Decision {
    /// Answer with the status of the error, or drop the connection.
    Reject(ProxyError),
    /// Resolve the host, then decide again with the answer.
    Resolve { host: String, port: u16 },
    /// Connect to the address.
    Dial(SocketAddress),
}

/// A decision as plain mathematical values.
pub enum DecisionView {
    Reject(ProxyErrorView),
    Resolve { host: Seq<char>, port: u16 },
    Dial(SocketAddress),
}

impl View for Decision {
    type V = DecisionView;

    open spec fn view(&self) -> DecisionView {
        match self {
            Decision::Reject(e) => DecisionView::Reject(e@),
            Decision::Resolve { host, port } => DecisionView::Resolve { host: host@, port: *port },
            Decision::Dial(addr) => DecisionView::Dial(*addr),
        }
    }
}

/// The decision on a request, with the policy and the node identifier of
/// one snapshot, under `key`, at the time `now`. `resolved` is the answer
/// of the resolver, once the caller has it.
///
/// The target is read first, then the signature is verified, then the
/// target is checked. A host name on an allowed port is resolved by the
/// caller only after the request is found authentic.
pub open spec fn decision_of(
    r: ProxyRequestView,
    node_id: Seq<char>,
    allowed_ports: Set<u16>,
    timestamp_tolerance: u32,
    key: Seq<u8>,
    now: u64,
    resolved: Option<Seq<IpAddress>>,
) -> DecisionView {
    match endpoint_of(r) {
        None => DecisionView::Reject(ProxyErrorView::MalformedRequest),
        Some(e) => match auth_verdict(
            signed_view(r, e),
            key,
            encode_utf8(node_id),
            timestamp_tolerance,
            now,
        ) {
            Err(err) => DecisionView::Reject(auth_error_view(err)),
            Ok(_) => {
                let host = bare_host(e.host);
                if resolved is None && allowed_ports.contains(e.port) && host_literal(host)
                    is None {
                    DecisionView::Resolve { host, port: e.port }
                } else {
                    let answer = match resolved {
                        Some(a) => a,
                        None => Seq::empty(),
                    };
                    match target_verdict(host, e.port, allowed_ports, answer) {
                        Ok(addr) => DecisionView::Dial(addr),
                        Err(err) => DecisionView::Reject(filter_error_view(err)),
                    }
                }
            },
        },
    }
}

/// The part of `s` from `from` to `to`.
fn part(s: &Vec<char>, from: usize, to: usize) -> (p: Vec<char>)
    requires
        from <= to <= s.len(),
    ensures
        p@ == s@.subrange(from as int, to as int),
{
    let mut p: Vec<char> = Vec::new();
    let mut i: usize = from;
    while i < to
        invariant
            from <= i <= to <= s.len(),
            p@ == s@.subrange(from as int, i as int),
        decreases to - i,
    {
        p.push(s[i]);
        i += 1;
        assert(p@ =~= s@.subrange(from as int, i as int));
    }
    p
}

/// Reads `host:port`.
pub fn parse_authority(target: &str) -> (parts: Option<(String, u16)>)
    ensures
        match parts {
            Some(p) => authority_parts(target@) == Some((p.0@, p.1)),
            None => authority_parts(target@) is None,
        },
{
    let chars = to_chars(target);
    let mut end: usize = chars.len();
    assert(chars@.take(end as int) =~= chars@);
    while end > 0 && chars[end - 1] != ':'
        invariant
            end <= chars.len(),
            last_colon(chars@) == last_colon(chars@.take(end as int)),
        decreases end,
    {
        assert(chars@.take(end as int).drop_last() =~= chars@.take(end - 1));
        end -= 1;
    }
    if end <= 1 {
        assert(last_colon(chars@) <= 0) by {
            if end == 1 {
                assert(chars@.take(1).last() == ':');
            }
        }
        return None;
    }
    assert(chars@.take(end as int).last() == ':');
    let colon: usize = end - 1;
    let digits = part(&chars, end, chars.len());
    if digits.len() == 0 || digits[0] == '+' {
        assert(!(all_digit_chars(digits@) && port_value(digits@) is Some)) by {
            if digits@.len() > 0 {
                assert(digits@[0] == '+');
            } else {
                assert(crate::chars::as_bytes(digits@).len() == 0);
            }
        }
        return None;
    }
    match parse_port(digits.as_slice()) {
        Some(port) => {
            let host = to_text(part(&chars, 0, colon).as_slice());
            Some((host, port))
        },
        None => None,
    }
}

/// The host without the square brackets around an IPv6 literal.
pub fn strip_brackets(host: &str) -> (bare: String)
    ensures
        bare@ == bare_host(host@),
{
    let chars = to_chars(host);
    let n = chars.len();
    if n >= 2 && chars[0] == '[' && chars[n - 1] == ']' {
        to_text(part(&chars, 1, n - 1).as_slice())
    } else {
        host.to_owned()
    }
}

/// The port that a scheme stands for.
pub fn default_port_of(scheme: &str) -> (port: Option<u16>)
    ensures
        port == scheme_port(scheme@),
{
    crate::auth::scheme_default_port(scheme.as_bytes())
}

/// Reads where a request wants to go.
pub fn read_endpoint(request: &ProxyRequest) -> (endpoint: Option<Endpoint>)
    ensures
        match endpoint {
            Some(e) => endpoint_of(request@) == Some(e@),
            None => endpoint_of(request@) is None,
        },
{
    match (route(request.method.as_str()), &request.target) {
        (Route::Connect, RequestTarget::Authority(a)) => match parse_authority(a.as_str()) {
            Some((host, port)) => Some(
                Endpoint {
                    scheme: "https".to_owned(),
                    host,
                    written_port: Some(port),
                    port,
                    path_and_query: "/".to_owned(),
                },
            ),
            None => None,
        },
        (Route::Forward, RequestTarget::Absolute { scheme, host, port, path_and_query }) => {
            let connect_port = match port {
                Some(p) => Some(*p),
                None => default_port_of(scheme.as_str()),
            };
            match connect_port {
                Some(p) => if !host.as_str().is_empty() {
                    Some(
                        Endpoint {
                            scheme: scheme.clone(),
                            host: host.clone(),
                            written_port: *port,
                            port: p,
                            path_and_query: path_and_query.clone(),
                        },
                    )
                } else {
                    None
                },
                None => None,
            }
        },
        _ => None,
    }
}

/// What of a request is signed, with the credentials from its headers.
pub fn signed_request(request: &ProxyRequest, endpoint: &Endpoint) -> (signed: SignedRequest)
    ensures
        signed@ == signed_view(request@, endpoint@),
{
    SignedRequest {
        method: slice_to_vec(request.method.as_str().as_bytes()),
        scheme: slice_to_vec(endpoint.scheme.as_str().as_bytes()),
        host: slice_to_vec(endpoint.host.as_str().as_bytes()),
        port: endpoint.written_port,
        path_and_query: slice_to_vec(endpoint.path_and_query.as_str().as_bytes()),
        timestamp: find_header(&request.headers, "x-aether-timestamp"),
        nonce: find_header(&request.headers, "x-aether-nonce"),
        signature: find_header(&request.headers, "x-aether-signature"),
    }
}

/// Decides on a request with one snapshot of the node's state.
///
/// The caller first decides without an answer of the resolver. Where it is
/// told to resolve, it does so and decides again, with the same snapshot
/// and the answer.
pub fn decide(
    request: &ProxyRequest,
    snapshot: &RequestSnapshot,
    hmac_key: &[u8],
    now: u64,
    resolved: Option<&Vec<IpAddress>>,
) -> (decision: Decision)
    ensures
        decision@ == decision_of(
            request@,
            snapshot.node_id@,
            snapshot.allowed_ports@,
            snapshot.timestamp_tolerance,
            hmac_key@,
            now,
            match resolved {
                Some(a) => Some(a@),
                None => None,
            },
        ),
{
    let endpoint = match read_endpoint(request) {
        Some(e) => e,
        None => {
            return Decision::Reject(ProxyError::MalformedRequest);
        },
    };
    let signed = signed_request(request, &endpoint);
    match authenticate(
        &signed,
        hmac_key,
        snapshot.node_id.as_str().as_bytes(),
        snapshot.timestamp_tolerance,
        now,
    ) {
        Err(e) => {
            return Decision::Reject(ProxyError::from_auth(e));
        },
        Ok(_) => {},
    }
    let host = strip_brackets(endpoint.host.as_str());
    let empty: Vec<IpAddress> = Vec::new();
    let answer: &Vec<IpAddress> = match resolved {
        Some(a) => a,
        None => {
            if needs_resolution(host.as_str(), endpoint.port, &snapshot.allowed_ports) {
                return Decision::Resolve { host, port: endpoint.port };
            }
            &empty
        },
    };
    match validate_target(host.as_str(), endpoint.port, &snapshot.allowed_ports, answer) {
        Ok(addr) => Decision::Dial(addr),
        Err(e) => Decision::Reject(ProxyError::from_filter(e)),
    }
}

/// The request that goes upstream in a plain forward.
pub struct UpstreamRequest {
    pub method: String,
    /// The request target in origin form: path and query.
    pub path_and_query: String,
    pub headers: Vec<Header>,
}

/// An upstream request as plain mathematical values.
pub struct UpstreamRequestView {
    pub method: Seq<char>,
    pub path_and_query: Seq<char>,
    pub headers: Seq<HeaderView>,
}

impl View for UpstreamRequest {
    type V = UpstreamRequestView;

    open spec fn view(&self) -> UpstreamRequestView {
        UpstreamRequestView {
            method: self.method@,
            path_and_query: self.path_and_query@,
            headers: header_views(self.headers@),
        }
    }
}

/// The request that a plain forward sends upstream: the same method, the
/// target in origin form, and the headers that do not stay on this hop.
/// There is none for a request without an absolute URI.
pub open spec fn upstream_of(r: ProxyRequestView) -> Option<UpstreamRequestView> {
    match r.target {
        RequestTargetView::Absolute { scheme, host, port, path_and_query } => Some(
            UpstreamRequestView { method: r.method, path_and_query, headers: forwarded(r.headers) },
        ),
        _ => None,
    }
}

/// Builds the request that a plain forward sends upstream.
pub fn upstream_request(request: &ProxyRequest) -> (upstream: Option<UpstreamRequest>)
    ensures
        match upstream {
            Some(u) => upstream_of(request@) == Some(u@),
            None => upstream_of(request@) is None,
        },
{
    match &request.target {
        RequestTarget::Absolute { scheme, host, port, path_and_query } => Some(
            UpstreamRequest {
                method: request.method.clone(),
                path_and_query: path_and_query.clone(),
                headers: strip_hop_by_hop(&request.headers),
            },
        ),
        _ => None,
    }
}

/// Whether `text` holds `needle` somewhere.
pub open spec fn holds(text: Seq<char>, needle: Seq<char>) -> bool {
    exists|i: int|
        0 <= i <= text.len() - needle.len() && #[trigger] text.subrange(i, i + needle.len())
            == needle
}

/// Whether the words of a connection error tell of a client that closed
/// the connection in the ordinary way, which is not worth a log line.
pub open spec fn is_ordinary_close(error_text: Seq<char>) -> bool {
    holds(error_text, "connection closed"@)
}

/// Whether `needle` stands in `text` at `at`.
fn stands_at(text: &Vec<char>, needle: &Vec<char>, at: usize) -> (found: bool)
    requires
        at + needle.len() <= text.len(),
    ensures
        found == (text@.subrange(at as int, at + needle.len()) == needle@),
{
    let mut k: usize = 0;
    while k < needle.len()
        invariant
            k <= needle.len(),
            at + needle.len() <= text.len(),
            forall|j: int| 0 <= j < k ==> text@[at + j] == needle@[j],
        decreases needle.len() - k,
    {
        if text[at + k] != needle[k] {
            assert(text@.subrange(at as int, at + needle.len())[k as int] != needle@[k as int]);
            return false;
        }
        k += 1;
    }
    assert(text@.subrange(at as int, at + needle.len()) =~= needle@);
    true
}

/// Whether the words of a connection error tell of an ordinary close.
pub fn is_quiet_close(error_text: &str) -> (quiet: bool)
    ensures
        quiet == is_ordinary_close(error_text@),
{
    let text = to_chars(error_text);
    let needle = to_chars("connection closed");
    if needle.len() > text.len() {
        return false;
    }
    let last: usize = text.len() - needle.len();
    let mut i: usize = 0;
    while i < last
        invariant
            i <= last,
            last == text.len() - needle.len(),
            text@ == error_text@,
            needle@ == "connection closed"@,
            forall|j: int| 0 <= j < i ==> #[trigger] text@.subrange(j, j + needle.len()) != needle@,
        decreases last - i,
    {
        if stands_at(&text, &needle, i) {
            return true;
        }
        i += 1;
    }
    stands_at(&text, &needle, last)
}

/// A request is answered, dialled or resolved on the strength of one
/// snapshot: whatever the decision, it is the decision for the node
/// identifier, the allow-list and the tolerance that were handed in, and a
/// request is dialled only if it is authentic under that tolerance and
/// identifier and its target passes that allow-list.
pub proof fn decision_rests_on_one_snapshot(
    r: ProxyRequestView,
    node_id: Seq<char>,
    allowed_ports: Set<u16>,
    timestamp_tolerance: u32,
    key: Seq<u8>,
    now: u64,
    resolved: Option<Seq<IpAddress>>,
)
    requires
        decision_of(r, node_id, allowed_ports, timestamp_tolerance, key, now, resolved) is Dial,
    ensures
        endpoint_of(r) is Some,
        auth_verdict(
            signed_view(r, endpoint_of(r)->0),
            key,
            encode_utf8(node_id),
            timestamp_tolerance,
            now,
        ) is Ok,
        allowed_ports.contains(endpoint_of(r)->0.port),
        !crate::target_filter::ip_is_private(
            decision_of(r, node_id, allowed_ports, timestamp_tolerance, key, now, resolved)->Dial_0.ip,
        ),
        decision_of(r, node_id, allowed_ports, timestamp_tolerance, key, now, resolved)->Dial_0.port
            == endpoint_of(r)->0.port,
{
    let e = endpoint_of(r)->0;
    let answer = match resolved {
        Some(a) => a,
        None => Seq::empty(),
    };
    crate::target_filter::accepted_target_is_public(bare_host(e.host), e.port, allowed_ports, answer);
}

} // verus!
