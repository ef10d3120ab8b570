use std::collections::HashSet;

use aether_proxy::dynamic_config::{DynamicConfig, RemoteConfig};
use aether_proxy::headers::{
    connection_names, find_header, is_credential, is_fixed_hop, stays_on_hop, strip_hop_by_hop,
    value_lists, Header,
};
use aether_proxy::net::{IpAddress, Ipv4Address, Ipv6Address, SocketAddress};
use aether_proxy::proxy::{
    decide, default_port_of, is_quiet_close, parse_authority, read_endpoint, route,
    strip_brackets, upstream_request, Decision, ProxyError, ProxyRequest, RequestSnapshot,
    RequestTarget, Route,
};

const ZERO_KEY: [u8; 32] = [0u8; 32];

fn header(name: &str, value: &str) -> Header {
    Header { name: name.as_bytes().to_vec(), value: value.as_bytes().to_vec() }
}

fn signed(signature: &str) -> Vec<Header> {
    vec![
        header("Host", "example.com"),
        header("X-Aether-Timestamp", "1700000000"),
        header("x-aether-nonce", "n1"),
        header("X-AETHER-SIGNATURE", signature),
    ]
}

fn snapshot() -> RequestSnapshot {
    RequestSnapshot {
        node_id: "node-A".to_string(),
        allowed_ports: [80u16, 443, 8080, 8443].into_iter().collect::<HashSet<u16>>(),
        timestamp_tolerance: 300,
    }
}

fn get(host: &str, port: Option<u16>, signature: &str) -> ProxyRequest {
    ProxyRequest {
        method: "GET".to_string(),
        target: RequestTarget::Absolute {
            scheme: "http".to_string(),
            host: host.to_string(),
            port,
            path_and_query: "/x".to_string(),
        },
        headers: signed(signature),
    }
}

fn connect(authority: &str, signature: &str) -> ProxyRequest {
    ProxyRequest {
        method: "CONNECT".to_string(),
        target: RequestTarget::Authority(authority.to_string()),
        headers: signed(signature),
    }
}

const GET_SIGNATURE: &str = "60b2d94853ab18d7b3f067edbcace5ba12fd3b12ba4fe8d4cade509c337bf977";
const CONNECT_SIGNATURE: &str =
    "66bdc04d74c17fcaca2c8857073fa4e7c4aeba31f41fd007f7356653ddab6688";
const CONNECT_8443_SIGNATURE: &str =
    "b6ab576386fd39cbd850020a01c63076be7961c4ae270930160def0e5fc459e9";

fn public() -> Vec<IpAddress> {
    vec![IpAddress::V4(Ipv4Address::new(93, 184, 216, 34))]
}

#[test]
fn connect_goes_to_the_tunnel() {
    assert_eq!(route("CONNECT"), Route::Connect);
    assert_eq!(route("GET"), Route::Forward);
    assert_eq!(route("connect"), Route::Forward);
    assert_eq!(route(""), Route::Forward);
}

#[test]
fn an_authority_is_host_and_port() {
    assert_eq!(
        parse_authority("example.com:443"),
        Some(("example.com".to_string(), 443))
    );
    assert_eq!(parse_authority("[::1]:8080"), Some(("[::1]".to_string(), 8080)));
    assert_eq!(parse_authority("a:0"), Some(("a".to_string(), 0)));
    assert_eq!(parse_authority("a:65535"), Some(("a".to_string(), 65535)));
    assert_eq!(parse_authority("a:b:80"), Some(("a:b".to_string(), 80)));
    assert_eq!(parse_authority("a:00080"), Some(("a".to_string(), 80)));
    assert_eq!(parse_authority("a:65536"), None);
    assert_eq!(parse_authority("example.com"), None);
    assert_eq!(parse_authority("example.com:"), None);
    assert_eq!(parse_authority(":443"), None);
    assert_eq!(parse_authority("a:+80"), None);
    assert_eq!(parse_authority("a:80 "), None);
    assert_eq!(parse_authority("a:8o"), None);
    assert_eq!(parse_authority(""), None);
    assert_eq!(parse_authority(":"), None);
}

#[test]
fn brackets_around_a_host_are_dropped() {
    assert_eq!(strip_brackets("[::1]"), "::1");
    assert_eq!(strip_brackets("example.com"), "example.com");
    assert_eq!(strip_brackets("[]"), "");
    assert_eq!(strip_brackets("["), "[");
    assert_eq!(strip_brackets("[a"), "[a");
    assert_eq!(strip_brackets("a]"), "a]");
}

#[test]
fn schemes_have_default_ports() {
    assert_eq!(default_port_of("http"), Some(80));
    assert_eq!(default_port_of("https"), Some(443));
    assert_eq!(default_port_of("ws"), None);
}

#[test]
fn the_endpoint_of_a_connect_is_signed_as_https() {
    let e = read_endpoint(&connect("example.com:8443", "")).unwrap();
    assert_eq!(e.scheme, "https");
    assert_eq!(e.host, "example.com");
    assert_eq!(e.written_port, Some(8443));
    assert_eq!(e.port, 8443);
    assert_eq!(e.path_and_query, "/");
}

#[test]
fn the_endpoint_of_a_forward_takes_the_port_of_its_scheme() {
    let e = read_endpoint(&get("example.com", None, "")).unwrap();
    assert_eq!(e.port, 80);
    assert_eq!(e.written_port, None);
    assert_eq!(e.path_and_query, "/x");
    let e = read_endpoint(&get("example.com", Some(8080), "")).unwrap();
    assert_eq!(e.port, 8080);
    assert_eq!(e.written_port, Some(8080));
}

#[test]
fn requests_without_a_usable_target_are_malformed() {
    let mut r = get("example.com", None, GET_SIGNATURE);
    r.target = RequestTarget::Other;
    assert!(read_endpoint(&r).is_none());
    let mut r = get("example.com", None, GET_SIGNATURE);
    r.target = RequestTarget::Authority("example.com:80".to_string());
    assert!(read_endpoint(&r).is_none());
    let mut r = connect("example.com:443", CONNECT_SIGNATURE);
    r.target = RequestTarget::Other;
    assert!(read_endpoint(&r).is_none());
    assert!(read_endpoint(&connect("example.com", CONNECT_SIGNATURE)).is_none());
    assert!(read_endpoint(&get("", None, GET_SIGNATURE)).is_none());
    let r = ProxyRequest {
        method: "GET".to_string(),
        target: RequestTarget::Absolute {
            scheme: "gopher".to_string(),
            host: "example.com".to_string(),
            port: None,
            path_and_query: "/".to_string(),
        },
        headers: Vec::new(),
    };
    assert!(read_endpoint(&r).is_none());
    match decide(&r, &snapshot(), &ZERO_KEY, 1700000000, None) {
        Decision::Reject(e) => {
            assert_eq!(e, ProxyError::MalformedRequest);
            assert_eq!(e.status_code(), Some(400));
        }
        _ => panic!("a malformed request must be rejected"),
    }
}

#[test]
fn an_authentic_forward_to_a_name_is_resolved_then_dialled() {
    let r = get("example.com", None, GET_SIGNATURE);
    match decide(&r, &snapshot(), &ZERO_KEY, 1700000000, None) {
        Decision::Resolve { host, port } => {
            assert_eq!(host, "example.com");
            assert_eq!(port, 80);
        }
        _ => panic!("the name must be resolved"),
    }
    let answer = public();
    match decide(&r, &snapshot(), &ZERO_KEY, 1700000000, Some(&answer)) {
        Decision::Dial(addr) => {
            assert_eq!(addr, SocketAddress::new(answer[0], 80));
        }
        _ => panic!("the address must be dialled"),
    }
}

#[test]
fn an_authentic_connect_is_dialled() {
    let r = connect("example.com:443", CONNECT_SIGNATURE);
    let answer = public();
    match decide(&r, &snapshot(), &ZERO_KEY, 1700000000, Some(&answer)) {
        Decision::Dial(addr) => assert_eq!(addr, SocketAddress::new(answer[0], 443)),
        _ => panic!("the tunnel must be dialled"),
    }
    let r = connect("Example.COM:8443", CONNECT_8443_SIGNATURE);
    match decide(&r, &snapshot(), &ZERO_KEY, 1700000000, Some(&answer)) {
        Decision::Dial(addr) => assert_eq!(addr, SocketAddress::new(answer[0], 8443)),
        _ => panic!("the tunnel must be dialled"),
    }
}

#[test]
fn authentication_comes_before_the_target_check() {
    let r = connect("127.0.0.1:22", "00");
    match decide(&r, &snapshot(), &ZERO_KEY, 1700000000, None) {
        Decision::Reject(e) => {
            assert_eq!(e, ProxyError::BadSignature);
            assert_eq!(e.status_code(), Some(403));
        }
        _ => panic!("a badly signed request must be rejected"),
    }
    let mut r = get("example.com", None, GET_SIGNATURE);
    r.headers.remove(2);
    match decide(&r, &snapshot(), &ZERO_KEY, 1700000000, None) {
        Decision::Reject(e) => {
            assert_eq!(e, ProxyError::MissingCredentials);
            assert_eq!(e.status_code(), Some(401));
        }
        _ => panic!("a request without nonce must be rejected"),
    }
    let r = get("example.com", None, GET_SIGNATURE);
    match decide(&r, &snapshot(), &ZERO_KEY, 1700000301, None) {
        Decision::Reject(e) => {
            assert_eq!(e, ProxyError::TimestampSkew);
            assert_eq!(e.status_code(), Some(401));
        }
        _ => panic!("a stale request must be rejected"),
    }
}

#[test]
fn the_snapshot_decides_identity_tolerance_and_ports() {
    let r = get("example.com", None, GET_SIGNATURE);
    let answer = public();
    let mut other = snapshot();
    other.node_id = "node-B".to_string();
    assert!(matches!(
        decide(&r, &other, &ZERO_KEY, 1700000000, Some(&answer)),
        Decision::Reject(ProxyError::BadSignature)
    ));
    let mut other = snapshot();
    other.timestamp_tolerance = 5;
    assert!(matches!(
        decide(&r, &other, &ZERO_KEY, 1700000006, Some(&answer)),
        Decision::Reject(ProxyError::TimestampSkew)
    ));
    let mut other = snapshot();
    other.allowed_ports = [443u16].into_iter().collect();
    match decide(&r, &other, &ZERO_KEY, 1700000000, None) {
        Decision::Reject(e) => {
            assert_eq!(e, ProxyError::PortNotAllowed(80));
            assert_eq!(e.status_code(), Some(403));
        }
        _ => panic!("the port must be refused"),
    }
}

#[test]
fn targets_are_filtered_after_authentication() {
    let r = get("example.com", None, GET_SIGNATURE);
    let private = vec![
        IpAddress::V4(Ipv4Address::new(93, 184, 216, 34)),
        IpAddress::V6(Ipv6Address::localhost()),
    ];
    match decide(&r, &snapshot(), &ZERO_KEY, 1700000000, Some(&private)) {
        Decision::Reject(e) => {
            assert_eq!(e, ProxyError::PrivateIp(IpAddress::V6(Ipv6Address::localhost())));
            assert_eq!(e.status_code(), Some(403));
        }
        _ => panic!("a private answer must be refused"),
    }
    let nothing: Vec<IpAddress> = Vec::new();
    match decide(&r, &snapshot(), &ZERO_KEY, 1700000000, Some(&nothing)) {
        Decision::Reject(e) => {
            assert_eq!(e, ProxyError::DnsResolutionFailed("example.com".to_string()));
            assert_eq!(e.status_code(), Some(502));
        }
        _ => panic!("a failed resolution must be reported"),
    }
}

#[test]
fn statuses_of_errors() {
    assert_eq!(ProxyError::MalformedRequest.status_code(), Some(400));
    assert_eq!(ProxyError::MissingCredentials.status_code(), Some(401));
    assert_eq!(ProxyError::TimestampSkew.status_code(), Some(401));
    assert_eq!(ProxyError::BadSignature.status_code(), Some(403));
    assert_eq!(ProxyError::PortNotAllowed(22).status_code(), Some(403));
    assert_eq!(
        ProxyError::PrivateIp(IpAddress::V4(Ipv4Address::new(10, 0, 0, 1))).status_code(),
        Some(403)
    );
    assert_eq!(ProxyError::DnsResolutionFailed("h".to_string()).status_code(), Some(502));
    assert_eq!(ProxyError::UpstreamDialFailed.status_code(), Some(502));
    assert_eq!(ProxyError::UpstreamIoError.status_code(), None);
}

#[test]
fn hop_by_hop_headers_are_stripped() {
    let headers = vec![
        header("Host", "example.com"),
        header("Connection", "keep-alive, X-Trace , close"),
        header("Keep-Alive", "timeout=5"),
        header("X-Trace", "abc"),
        header("x-trace", "def"),
        header("Proxy-Authorization", "Basic xyz"),
        header("Proxy-Authenticate", "Basic"),
        header("TE", "trailers"),
        header("Trailer", "Expires"),
        header("Transfer-Encoding", "chunked"),
        header("Upgrade", "websocket"),
        header("X-Aether-Timestamp", "1"),
        header("X-Aether-Nonce", "n"),
        header("X-Aether-Signature", "s"),
        header("x-aether-anything", "v"),
        header("Accept", "*/*"),
        header("X-Tracer", "kept"),
        header("User-Agent", "t"),
    ];
    let kept = strip_hop_by_hop(&headers);
    assert_eq!(
        kept,
        vec![
            header("Host", "example.com"),
            header("Accept", "*/*"),
            header("X-Tracer", "kept"),
            header("User-Agent", "t"),
        ]
    );
}

#[test]
fn every_connection_header_is_read() {
    let headers = vec![
        header("connection", "a"),
        header("A", "1"),
        header("B", "2"),
        header("CONNECTION", "\tb\t"),
        header("C", "3"),
    ];
    assert_eq!(strip_hop_by_hop(&headers), vec![header("C", "3")]);
    assert!(connection_names(&headers, b"a"));
    assert!(connection_names(&headers, b"B"));
    assert!(!connection_names(&headers, b"c"));
    assert!(stays_on_hop(&headers, b"b"));
    assert!(!stays_on_hop(&headers, b"c"));
}

#[test]
fn headers_without_hop_by_hop_pass_unchanged() {
    let headers = vec![header("Host", "h"), header("Accept", "a"), header("Host", "again")];
    assert_eq!(strip_hop_by_hop(&headers), headers);
    assert_eq!(strip_hop_by_hop(&Vec::new()), Vec::new());
}

#[test]
fn tokens_of_a_connection_value() {
    assert!(value_lists(b"close", b"close"));
    assert!(value_lists(b"Close", b"cLOSE"));
    assert!(value_lists(b"a,b,c", b"b"));
    assert!(value_lists(b" a , b ,\tc\t", b"c"));
    assert!(value_lists(b"a,,b", b""));
    assert!(value_lists(b"", b""));
    assert!(!value_lists(b"a b", b"a"));
    assert!(!value_lists(b"ab", b"a"));
    assert!(!value_lists(b"a,b", b"a,b"));
    assert!(!value_lists(b"a", b""));
}

#[test]
fn fixed_and_own_headers() {
    for name in [
        "Connection",
        "Keep-Alive",
        "Proxy-Authenticate",
        "Proxy-Authorization",
        "TE",
        "Trailer",
        "Transfer-Encoding",
        "Upgrade",
        "upgrade",
    ] {
        assert!(is_fixed_hop(name.as_bytes()), "for {}", name);
    }
    for name in ["Host", "T", "Trailers", "Content-Length", ""] {
        assert!(!is_fixed_hop(name.as_bytes()), "for {}", name);
    }
    assert!(is_credential(b"X-Aether-Signature"));
    assert!(is_credential(b"x-aether-"));
    assert!(!is_credential(b"x-aether"));
    assert!(!is_credential(b"xx-aether-a"));
}

#[test]
fn the_first_header_of_a_name_is_found() {
    let headers = vec![header("A", "1"), header("a", "2"), header("B", "3")];
    assert_eq!(find_header(&headers, "a"), Some(b"1".to_vec()));
    assert_eq!(find_header(&headers, "b"), Some(b"3".to_vec()));
    assert_eq!(find_header(&headers, "c"), None);
}

#[test]
fn the_upstream_request_has_origin_form_and_end_to_end_headers() {
    let mut r = get("example.com", None, GET_SIGNATURE);
    r.headers.push(header("Connection", "close"));
    r.headers.push(header("Accept", "text/html"));
    let up = upstream_request(&r).unwrap();
    assert_eq!(up.method, "GET");
    assert_eq!(up.path_and_query, "/x");
    assert_eq!(
        up.headers,
        vec![header("Host", "example.com"), header("Accept", "text/html")]
    );
    assert!(upstream_request(&connect("example.com:443", "")).is_none());
}

#[test]
fn ordinary_closes_are_quiet() {
    assert!(is_quiet_close("connection closed before message completed"));
    assert!(is_quiet_close("error: connection closed"));
    assert!(is_quiet_close("connection closed"));
    assert!(!is_quiet_close("connection reset by peer"));
    assert!(!is_quiet_close("Connection Closed"));
    assert!(!is_quiet_close("connection close"));
    assert!(!is_quiet_close(""));
}

#[test]
fn a_snapshot_is_taken_from_the_live_policy() {
    let mut live = DynamicConfig::new(30, vec![80, 443], 120, "info".to_string()).unwrap();
    let before = RequestSnapshot::take("node-A", &live);
    live.apply(
        &RemoteConfig {
            heartbeat_interval: None,
            allowed_ports: Some(vec![8443]),
            timestamp_tolerance: Some(5),
            log_level: None,
        },
        1,
    );
    let after = RequestSnapshot::take("node-B", &live);
    assert_eq!(before.node_id, "node-A");
    assert_eq!(before.timestamp_tolerance, 120);
    assert_eq!(before.allowed_ports, [80u16, 443].into_iter().collect::<HashSet<u16>>());
    assert_eq!(after.node_id, "node-B");
    assert_eq!(after.timestamp_tolerance, 5);
    assert_eq!(after.allowed_ports, [8443u16].into_iter().collect::<HashSet<u16>>());
    // A request that is under way keeps the snapshot it started with.
    let r = get("example.com", None, GET_SIGNATURE);
    assert!(matches!(
        decide(&r, &before, &ZERO_KEY, 1700000100, Some(&public())),
        Decision::Dial(_)
    ));
    assert!(matches!(
        decide(&r, &after, &ZERO_KEY, 1700000100, Some(&public())),
        Decision::Reject(ProxyError::TimestampSkew)
    ));
}
