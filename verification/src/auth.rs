//! Proof of origin for proxied requests.
//!
//! A request carries a timestamp, a nonce and a signature. The signature is
//! the lower-case hexadecimal HMAC-SHA256, under the node's key, of the
//! canonical text of the request: six fields joined by single line feeds,
//!
//! ```text
//! METHOD
//! scheme://host[:port]
//! path?query
//! timestamp
//! nonce
//! node_id
//! ```
//!
//! with the method in upper case, the host in lower case, and the port left
//! out where it is the default of the scheme.

use hmac::{Hmac, Mac};
use sha2::Sha256;
use vstd::prelude::*;
use crate::bytes_text::{
    constant_time_eq,
    decimal,
    decimal_u64,
    hex_lower,
    hex_text_tells_its_bytes,
    lower,
    parse_decimal_u64,
    push_all,
    push_decimal,
    push_lower,
    push_upper,
    to_hex_lower,
    upper,
};

verus! {

pub const LINE_FEED: u8 = 10;

/// Why a request was not accepted as authentic.
#[derive(Clone, Copy, Debug, PartialEq, Eq, Structural)]
pub enum AuthError {
    /// A credential is absent, the nonce is empty, or the timestamp is no
    /// decimal number of seconds.
    MissingCredentials,
    /// The timestamp is further from the clock than the tolerance allows.
    TimestampSkew,
    /// The signature is not the one that the key gives for this request.
    BadSignature,
}

/// What of a request is signed, and the credentials it carries.
pub struct SignedRequest {
    pub method: Vec<u8>,
    pub scheme: Vec<u8>,
    pub host: Vec<u8>,
    pub port: Option<u16>,
    /// Path and query as they came over the wire.
    pub path_and_query: Vec<u8>,
    /// The value of `X-Aether-Timestamp`, if the request has one.
    pub timestamp: Option<Vec<u8>>,
    /// The value of `X-Aether-Nonce`, if the request has one.
    pub nonce: Option<Vec<u8>>,
    /// The value of `X-Aether-Signature`, if the request has one.
    pub signature: Option<Vec<u8>>,
}

/// A request as plain mathematical values.
pub struct SignedRequestView {
    pub method: Seq<u8>,
    pub scheme: Seq<u8>,
    pub host: Seq<u8>,
    pub port: Option<u16>,
    pub path_and_query: Seq<u8>,
    pub timestamp: Option<Seq<u8>>,
    pub nonce: Option<Seq<u8>>,
    pub signature: Option<Seq<u8>>,
}

/// The view of a header value that may be absent.
pub open spec fn value_view(v: Option<Vec<u8>>) -> Option<Seq<u8>> {
    match v {
        Some(bytes) => Some(bytes@),
        None => None,
    }
}

impl View for SignedRequest {
    type V = SignedRequestView;

    open spec fn view(&self) -> SignedRequestView {
        SignedRequestView {
            method: self.method@,
            scheme: self.scheme@,
            host: self.host@,
            port: self.port,
            path_and_query: self.path_and_query@,
            timestamp: value_view(self.timestamp),
            nonce: value_view(self.nonce),
            signature: value_view(self.signature),
        }
    }
}

/// The bytes of `http`.
pub open spec fn http_scheme() -> Seq<u8> {
    seq![104u8, 116, 116, 112]
}

/// The bytes of `https`.
pub open spec fn https_scheme() -> Seq<u8> {
    seq![104u8, 116, 116, 112, 115]
}

/// The bytes of `://`.
pub open spec fn scheme_separator() -> Seq<u8> {
    seq![58u8, 47, 47]
}

/// The port that a scheme stands for where none is written: 80 for `http`,
/// 443 for `https`, in any case of letters.
pub open spec fn default_port(scheme: Seq<u8>) -> Option<u16> {
    if lower(scheme) == http_scheme() {
        Some(80u16)
    } else if lower(scheme) == https_scheme() {
        Some(443u16)
    } else {
        None
    }
}

/// The authority line `scheme://host[:port]`.
pub open spec fn authority_line(scheme: Seq<u8>, host: Seq<u8>, port: Option<u16>) -> Seq<u8> {
    let base = scheme + scheme_separator() + lower(host);
    match port {
        Some(p) => if default_port(scheme) == Some(p) {
            base
        } else {
            base + seq![58u8] + decimal(p as nat)
        },
        None => base,
    }
}

/// The canonical text of a request with the given timestamp and nonce, for
/// the node `node_id`.
pub open spec fn canonical_text(
    r: SignedRequestView,
    timestamp: Seq<u8>,
    nonce: Seq<u8>,
    node_id: Seq<u8>,
) -> Seq<u8> {
    upper(r.method) + seq![LINE_FEED] + authority_line(r.scheme, r.host, r.port) + seq![LINE_FEED]
        + r.path_and_query + seq![LINE_FEED] + timestamp + seq![LINE_FEED] + nonce + seq![
        LINE_FEED,
    ] + node_id
}

/// Whether `s` holds no line feed.
pub open spec fn is_one_line(s: Seq<u8>) -> bool {
    forall|i: int| 0 <= i < s.len() ==> s[i] != LINE_FEED
}

/// Whether the first five lines of the canonical text of a request are one
/// line each: no signed field but the node identifier holds a line feed.
pub open spec fn has_plain_lines(r: SignedRequestView, timestamp: Seq<u8>, nonce: Seq<u8>) -> bool {
    &&& is_one_line(upper(r.method))
    &&& is_one_line(authority_line(r.scheme, r.host, r.port))
    &&& is_one_line(r.path_and_query)
    &&& is_one_line(timestamp)
    &&& is_one_line(nonce)
}

/// The HMAC-SHA256 tag of `message` under `key`.
pub uninterp spec fn hmac_sha256(key: Seq<u8>, message: Seq<u8>) -> Seq<u8>;

/// The signature that `key` gives for a request.
pub open spec fn expected_signature(
    r: SignedRequestView,
    timestamp: Seq<u8>,
    nonce: Seq<u8>,
    node_id: Seq<u8>,
    key: Seq<u8>,
) -> Seq<u8> {
    hex_lower(hmac_sha256(key, canonical_text(r, timestamp, nonce, node_id)))
}

/// Whether a request carries every credential in a usable form.
pub open spec fn has_credentials(r: SignedRequestView) -> bool {
    &&& r.timestamp is Some
    &&& r.nonce is Some
    &&& r.signature is Some
    &&& r.nonce->0.len() > 0
    &&& decimal_u64(r.timestamp->0) is Some
}

/// Whether `timestamp` lies within `tolerance` seconds of `now`.
pub open spec fn is_fresh(timestamp: u64, now: u64, tolerance: u32) -> bool {
    if now >= timestamp {
        now - timestamp <= tolerance
    } else {
        timestamp - now <= tolerance
    }
}

/// The verdict on a request whose HMAC tag is `tag`.
pub open spec fn verdict_for_tag(
    r: SignedRequestView,
    tag: Seq<u8>,
    tolerance: u32,
    now: u64,
) -> Result<(), AuthError> {
    if !has_credentials(r) {
        Err(AuthError::MissingCredentials)
    } else if !is_fresh(decimal_u64(r.timestamp->0)->0, now, tolerance) {
        Err(AuthError::TimestampSkew)
    } else if r.signature->0 != hex_lower(tag) {
        Err(AuthError::BadSignature)
    } else {
        Ok(())
    }
}

/// The verdict on a request for the node `node_id` under `key`, at the time
/// `now` in seconds since the epoch.
pub open spec fn auth_verdict(
    r: SignedRequestView,
    key: Seq<u8>,
    node_id: Seq<u8>,
    tolerance: u32,
    now: u64,
) -> Result<(), AuthError> {
    if !has_credentials(r) {
        Err(AuthError::MissingCredentials)
    } else {
        verdict_for_tag(
            r,
            hmac_sha256(key, canonical_text(r, r.timestamp->0, r.nonce->0, node_id)),
            tolerance,
            now,
        )
    }
}

/// Computes a tag with `Hmac::<Sha256>` of the crate `hmac`: a fresh MAC
/// from `new_from_slice(key)`, fed `message` by `update`, read out by
/// `finalize().into_bytes()`. The contract claims that the bytes handed back
/// are the HMAC-SHA256 tag of `message` under `key`, which depends on these
/// two alone. `new_from_slice` takes a key of any length.
#[verifier::external_body]
fn hmac_sha256_tag(key: &[u8], message: &[u8]) -> (tag: Vec<u8>)
    ensures
        tag@ == hmac_sha256(key@, message@),
{
    match Hmac::<Sha256>::new_from_slice(key) {
        Ok(mut mac) => {
            mac.update(message);
            mac.finalize().into_bytes().to_vec()
        },
        Err(_) => Vec::new(),
    }
}

/// Whether `scheme` is `word` in any case of letters.
fn scheme_is(scheme: &[u8], word: &[u8]) -> (same: bool)
    requires
        lower(word@) == word@,
    ensures
        same == (lower(scheme@) == word@),
{
    crate::bytes_text::eq_ignoring_case(scheme, word)
}

/// The port that a scheme stands for where none is written.
pub fn scheme_default_port(scheme: &[u8]) -> (port: Option<u16>)
    ensures
        port == default_port(scheme@),
{
    let http: [u8; 4] = [104, 116, 116, 112];
    let https: [u8; 5] = [104, 116, 116, 112, 115];
    assert(http@ =~= http_scheme());
    assert(https@ =~= https_scheme());
    assert(lower(http@) =~= http@);
    assert(lower(https@) =~= https@);
    if scheme_is(scheme, http.as_slice()) {
        Some(80)
    } else if scheme_is(scheme, https.as_slice()) {
        Some(443)
    } else {
        None
    }
}

/// Builds the canonical text of a request.
pub fn canonical_bytes(
    request: &SignedRequest,
    timestamp: &[u8],
    nonce: &[u8],
    node_id: &[u8],
) -> (text: Vec<u8>)
    ensures
        text@ == canonical_text(request@, timestamp@, nonce@, node_id@),
{
    let mut text: Vec<u8> = Vec::new();
    push_upper(&mut text, request.method.as_slice());
    text.push(LINE_FEED);
    let ghost head = text@;
    assert(head =~= upper(request.method@) + seq![LINE_FEED]);
    push_all(&mut text, request.scheme.as_slice());
    text.push(58);
    text.push(47);
    text.push(47);
    push_lower(&mut text, request.host.as_slice());
    let ghost base = request.scheme@ + scheme_separator() + lower(request.host@);
    assert(text@ =~= head + base);
    if let Some(p) = request.port {
        if scheme_default_port(request.scheme.as_slice()) != Some(p) {
            text.push(58);
            push_decimal(&mut text, p as u64);
            assert(text@ =~= head + (base + seq![58u8] + decimal(p as nat)));
        }
    }
    assert(text@ == head + authority_line(request.scheme@, request.host@, request.port));
    text.push(LINE_FEED);
    push_all(&mut text, request.path_and_query.as_slice());
    text.push(LINE_FEED);
    push_all(&mut text, timestamp);
    text.push(LINE_FEED);
    push_all(&mut text, nonce);
    text.push(LINE_FEED);
    push_all(&mut text, node_id);
    assert(text@ =~= canonical_text(request@, timestamp@, nonce@, node_id@));
    text
}

/// Whether `timestamp` lies within `tolerance` seconds of `now`.
pub fn check_freshness(timestamp: u64, now: u64, tolerance: u32) -> (fresh: bool)
    ensures
        fresh == is_fresh(timestamp, now, tolerance),
{
    if now >= timestamp {
        now - timestamp <= tolerance as u64
    } else {
        timestamp - now <= tolerance as u64
    }
}

/// Judges a request whose HMAC tag has been computed: credentials first,
/// then freshness, then the signature, which is compared in constant time.
pub fn judge_with_tag(request: &SignedRequest, tag: &[u8], tolerance: u32, now: u64) -> (result:
    Result<(), AuthError>)
    ensures
        result == verdict_for_tag(request@, tag@, tolerance, now),
{
    let (timestamp, nonce, signature) = match (
        &request.timestamp,
        &request.nonce,
        &request.signature,
    ) {
        (Some(t), Some(n), Some(s)) => (t, n, s),
        _ => {
            return Err(AuthError::MissingCredentials);
        },
    };
    if nonce.len() == 0 {
        return Err(AuthError::MissingCredentials);
    }
    let seconds = match parse_decimal_u64(timestamp.as_slice()) {
        Some(v) => v,
        None => {
            return Err(AuthError::MissingCredentials);
        },
    };
    if !check_freshness(seconds, now, tolerance) {
        return Err(AuthError::TimestampSkew);
    }
    let expected = to_hex_lower(tag);
    if !constant_time_eq(signature.as_slice(), expected.as_slice()) {
        return Err(AuthError::BadSignature);
    }
    Ok(())
}

/// Verifies the signature and the freshness of a request for the node
/// `node_id` under `hmac_key`, at the time `now` in seconds since the epoch.
pub fn authenticate(
    request: &SignedRequest,
    hmac_key: &[u8],
    node_id: &[u8],
    tolerance: u32,
    now: u64,
) -> (result: Result<(), AuthError>)
    ensures
        result == auth_verdict(request@, hmac_key@, node_id@, tolerance, now),
{
    let (timestamp, nonce) = match (&request.timestamp, &request.nonce, &request.signature) {
        (Some(t), Some(n), Some(_)) => (t, n),
        _ => {
            return Err(AuthError::MissingCredentials);
        },
    };
    if nonce.len() == 0 || parse_decimal_u64(timestamp.as_slice()).is_none() {
        return Err(AuthError::MissingCredentials);
    }
    let text = canonical_bytes(request, timestamp.as_slice(), nonce.as_slice(), node_id);
    let tag = hmac_sha256_tag(hmac_key, text.as_slice());
    judge_with_tag(request, tag.as_slice(), tolerance, now)
}

/// A request whose timestamp is further from the clock than the tolerance is
/// refused for its skew, whatever its signature is, provided it carries its
/// credentials.
pub proof fn stale_request_is_refused(
    r: SignedRequestView,
    key: Seq<u8>,
    node_id: Seq<u8>,
    tolerance: u32,
    now: u64,
)
    requires
        has_credentials(r),
        !is_fresh(decimal_u64(r.timestamp->0)->0, now, tolerance),
    ensures
        auth_verdict(r, key, node_id, tolerance, now) == Err::<(), AuthError>(
            AuthError::TimestampSkew,
        ),
{
}

/// A fresh request is accepted exactly if its signature is the one that the
/// key gives for its canonical text; with any other signature it is refused
/// as badly signed.
pub proof fn signature_decides(
    r: SignedRequestView,
    key: Seq<u8>,
    node_id: Seq<u8>,
    tolerance: u32,
    now: u64,
)
    requires
        has_credentials(r),
        is_fresh(decimal_u64(r.timestamp->0)->0, now, tolerance),
    ensures
        auth_verdict(r, key, node_id, tolerance, now) is Ok <==> r.signature->0
            == expected_signature(r, r.timestamp->0, r.nonce->0, node_id, key),
        auth_verdict(r, key, node_id, tolerance, now) is Err ==> auth_verdict(
            r,
            key,
            node_id,
            tolerance,
            now,
        ) == Err::<(), AuthError>(AuthError::BadSignature),
{
}

/// Of two requests that differ in their signature alone, at most one is
/// accepted.
pub proof fn changed_signature_is_refused(
    r: SignedRequestView,
    other_signature: Seq<u8>,
    key: Seq<u8>,
    node_id: Seq<u8>,
    tolerance: u32,
    now: u64,
)
    requires
        r.signature is Some,
        other_signature != r.signature->0,
        auth_verdict(r, key, node_id, tolerance, now) is Ok,
    ensures
        auth_verdict(
            SignedRequestView { signature: Some(other_signature), ..r },
            key,
            node_id,
            tolerance,
            now,
        ) == Err::<(), AuthError>(AuthError::BadSignature),
{
}

/// The signature of an accepted request is refused for any other request,
/// key or node whose canonical text has another tag under its key: a change
/// to a signed field, to the key or to the node identifier is noticed
/// unless two tags collide.
pub proof fn signature_fits_one_tag(
    accepted: SignedRequestView,
    key: Seq<u8>,
    node_id: Seq<u8>,
    other: SignedRequestView,
    other_key: Seq<u8>,
    other_node_id: Seq<u8>,
    tolerance: u32,
    now: u64,
)
    requires
        auth_verdict(accepted, key, node_id, tolerance, now) is Ok,
        has_credentials(other),
        is_fresh(decimal_u64(other.timestamp->0)->0, now, tolerance),
        other.signature == accepted.signature,
        hmac_sha256(
            other_key,
            canonical_text(other, other.timestamp->0, other.nonce->0, other_node_id),
        ) != hmac_sha256(
            key,
            canonical_text(accepted, accepted.timestamp->0, accepted.nonce->0, node_id),
        ),
    ensures
        auth_verdict(other, other_key, other_node_id, tolerance, now) == Err::<(), AuthError>(
            AuthError::BadSignature,
        ),
{
    let tag = hmac_sha256(
        key,
        canonical_text(accepted, accepted.timestamp->0, accepted.nonce->0, node_id),
    );
    let other_tag = hmac_sha256(
        other_key,
        canonical_text(other, other.timestamp->0, other.nonce->0, other_node_id),
    );
    if hex_lower(tag) == hex_lower(other_tag) {
        hex_text_tells_its_bytes(tag, other_tag);
    }
}

/// Two texts that start with a line and a line feed are equal only if the
/// lines are equal and what follows them is equal.
proof fn first_line_is_told(a: Seq<u8>, b: Seq<u8>, c: Seq<u8>, d: Seq<u8>)
    requires
        is_one_line(a),
        is_one_line(c),
        a + seq![LINE_FEED] + b == c + seq![LINE_FEED] + d,
    ensures
        a == c,
        b == d,
{
    let left = a + seq![LINE_FEED] + b;
    let right = c + seq![LINE_FEED] + d;
    assert(left[a.len() as int] == LINE_FEED);
    assert(right[c.len() as int] == LINE_FEED);
    if a.len() < c.len() {
        assert(right[a.len() as int] == c[a.len() as int]);
    }
    if c.len() < a.len() {
        assert(left[c.len() as int] == a[c.len() as int]);
    }
    assert(a.len() == c.len());
    assert forall|i: int| 0 <= i < a.len() implies a[i] == c[i] by {
        assert(left[i] == a[i]);
        assert(right[i] == c[i]);
    }
    assert(a =~= c);
    assert(left.len() == right.len());
    assert forall|i: int| 0 <= i < b.len() implies b[i] == d[i] by {
        assert(left[a.len() + 1 + i] == b[i]);
        assert(right[c.len() + 1 + i] == d[i]);
    }
    assert(b =~= d);
}

/// The canonical text tells each of its six lines: two requests with the
/// same canonical text have the same method in upper case, the same
/// authority line, the same path and query, the same timestamp, the same
/// nonce and the same node identifier, provided their first five lines hold
/// no line feed. So a change to any of these changes the text that is
/// signed.
pub proof fn canonical_text_tells_its_lines(
    r1: SignedRequestView,
    timestamp1: Seq<u8>,
    nonce1: Seq<u8>,
    node_id1: Seq<u8>,
    r2: SignedRequestView,
    timestamp2: Seq<u8>,
    nonce2: Seq<u8>,
    node_id2: Seq<u8>,
)
    requires
        has_plain_lines(r1, timestamp1, nonce1),
        has_plain_lines(r2, timestamp2, nonce2),
        canonical_text(r1, timestamp1, nonce1, node_id1) == canonical_text(
            r2,
            timestamp2,
            nonce2,
            node_id2,
        ),
    ensures
        upper(r1.method) == upper(r2.method),
        authority_line(r1.scheme, r1.host, r1.port) == authority_line(
            r2.scheme,
            r2.host,
            r2.port,
        ),
        r1.path_and_query == r2.path_and_query,
        timestamp1 == timestamp2,
        nonce1 == nonce2,
        node_id1 == node_id2,
{
    let lf = seq![LINE_FEED];
    let a1 = authority_line(r1.scheme, r1.host, r1.port);
    let a2 = authority_line(r2.scheme, r2.host, r2.port);
    let e1 = nonce1 + lf + node_id1;
    let e2 = nonce2 + lf + node_id2;
    let d1 = timestamp1 + lf + e1;
    let d2 = timestamp2 + lf + e2;
    let c1 = r1.path_and_query + lf + d1;
    let c2 = r2.path_and_query + lf + d2;
    let b1 = a1 + lf + c1;
    let b2 = a2 + lf + c2;
    assert(canonical_text(r1, timestamp1, nonce1, node_id1) =~= upper(r1.method) + lf + b1);
    assert(canonical_text(r2, timestamp2, nonce2, node_id2) =~= upper(r2.method) + lf + b2);
    first_line_is_told(upper(r1.method), b1, upper(r2.method), b2);
    first_line_is_told(a1, c1, a2, c2);
    first_line_is_told(r1.path_and_query, d1, r2.path_and_query, d2);
    first_line_is_told(timestamp1, e1, timestamp2, e2);
    first_line_is_told(nonce1, node_id1, nonce2, node_id2);
}

} // verus!
