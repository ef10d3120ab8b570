//! Which upstream targets a request may reach.
//!
//! A target is a host and a port. The port must be on the allow-list, and no
//! address that the host stands for may lie in a private or reserved range.

use std::collections::HashSet;
use vstd::prelude::*;
use vstd::arithmetic::power2::{lemma2_to64, pow2};
use vstd::utf8::encode_utf8;
use crate::chars::{decimal_text, push_number};
use crate::ip_literal::{ip_literal, parse_ip_literal};
use crate::ip_round_trip::written_address_is_read_back;
use crate::ip_text::{ip_text, ip_to_text};
use crate::net::{IpAddress, Ipv4Address, Ipv6Address, SocketAddress};

verus! {

broadcast use vstd::std_specs::hash::group_hash_axioms;

/// Whether `ip` lies in the IPv4 block `base/prefix_len`, where `base` is the
/// first address of the block as a number.
pub open spec fn in_v4_block(ip: Ipv4Address, base: nat, prefix_len: nat) -> bool
    recommends
        prefix_len <= 32,
{
    base <= ip.value() < base + pow2((32 - prefix_len) as nat)
}

/// The blocked IPv4 ranges: `10/8`, `172.16/12`, `192.168/16`, `127/8`,
/// `169.254/16` and `0/8`.
pub open spec fn ipv4_is_private(ip: Ipv4Address) -> bool {
    ||| in_v4_block(ip, 0x0a00_0000, 8)
    ||| in_v4_block(ip, 0xac10_0000, 12)
    ||| in_v4_block(ip, 0xc0a8_0000, 16)
    ||| in_v4_block(ip, 0x7f00_0000, 8)
    ||| in_v4_block(ip, 0xa9fe_0000, 16)
    ||| in_v4_block(ip, 0, 8)
}

/// Whether the first segment `head` of an IPv6 address puts it in the block
/// whose first segment starts at `base` and whose prefix has `prefix_len` bits.
pub open spec fn in_v6_head_block(head: u16, base: nat, prefix_len: nat) -> bool
    recommends
        prefix_len <= 16,
{
    base <= head < base + pow2((16 - prefix_len) as nat)
}

/// The blocked IPv6 ranges: loopback `::1`, unspecified `::`, unique local
/// `fc00::/7`, link-local `fe80::/10`, and `::ffff:a.b.c.d` where `a.b.c.d` is
/// a blocked IPv4 address.
pub open spec fn ipv6_is_private(ip: Ipv6Address) -> bool {
    ||| ip.is_loopback_spec()
    ||| ip.is_unspecified_spec()
    ||| in_v6_head_block(ip.segments[0], 0xfc00, 7)
    ||| in_v6_head_block(ip.segments[0], 0xfe80, 10)
    ||| (ip.is_ipv4_mapped() && ipv4_is_private(ip.embedded_ipv4()))
}

/// Whether an address of either family is blocked.
pub open spec fn ip_is_private(ip: IpAddress) -> bool {
    match ip {
        IpAddress::V4(v4) => ipv4_is_private(v4),
        IpAddress::V6(v6) => ipv6_is_private(v6),
    }
}

/// Decides whether an IPv4 address lies in a private or reserved range.
pub fn is_private_ipv4(ip: &Ipv4Address) -> (blocked: bool)
    ensures
        blocked == ipv4_is_private(*ip),
{
    proof {
        lemma2_to64();
    }
    let octets = &ip.octets;
    if octets[0] == 10 {
        return true;
    }
    if octets[0] == 172 && 16 <= octets[1] && octets[1] <= 31 {
        return true;
    }
    if octets[0] == 192 && octets[1] == 168 {
        return true;
    }
    if octets[0] == 127 {
        return true;
    }
    if octets[0] == 169 && octets[1] == 254 {
        return true;
    }
    if octets[0] == 0 {
        return true;
    }
    false
}

/// Decides whether an IPv6 address lies in a private or reserved range.
pub fn is_private_ipv6(ip: &Ipv6Address) -> (blocked: bool)
    ensures
        blocked == ipv6_is_private(*ip),
{
    proof {
        lemma2_to64();
    }
    if ip.is_loopback() {
        return true;
    }
    if ip.is_unspecified() {
        return true;
    }
    let head: u16 = ip.segments[0];
    assert((head & 0xfe00 == 0xfc00) <==> (0xfc00 <= head < 0xfe00)) by (bit_vector);
    assert((head & 0xffc0 == 0xfe80) <==> (0xfe80 <= head < 0xfec0)) by (bit_vector);
    if head & 0xfe00 == 0xfc00 {
        return true;
    }
    if head & 0xffc0 == 0xfe80 {
        return true;
    }
    if let Some(v4) = ip.to_ipv4_mapped() {
        return is_private_ipv4(&v4);
    }
    false
}

/// Decides whether an address of either family lies in a private or reserved
/// range.
pub fn is_private_ip(ip: &IpAddress) -> (blocked: bool)
    ensures
        blocked == ip_is_private(*ip),
{
    match ip {
        IpAddress::V4(v4) => is_private_ipv4(v4),
        IpAddress::V6(v6) => is_private_ipv6(v6),
    }
}

/// Why a target was refused.
#[derive(Debug, PartialEq, Eq)]
pub enum FilterError {
    /// The target is, or resolves to, an address in a private or reserved range.
    PrivateIp(IpAddress),
    /// The port is not on the allow-list.
    PortNotAllowed(u16),
    /// The host is no IP literal and the resolver found no address for it.
    DnsResolutionFailed(String),
}

/// A `FilterError` with its host as a sequence of characters.
pub enum FilterErrorView {
    PrivateIp(IpAddress),
    PortNotAllowed(u16),
    DnsResolutionFailed(Seq<char>),
}

impl View for FilterError {
    type V = FilterErrorView;

    open spec fn view(&self) -> FilterErrorView {
        match self {
            FilterError::PrivateIp(ip) => FilterErrorView::PrivateIp(*ip),
            FilterError::PortNotAllowed(port) => FilterErrorView::PortNotAllowed(*port),
            FilterError::DnsResolutionFailed(host) => FilterErrorView::DnsResolutionFailed(host@),
        }
    }
}

/// The words that tell of a refusal.
pub open spec fn refusal_text(e: FilterErrorView) -> Seq<char> {
    match e {
        FilterErrorView::PrivateIp(ip) => "target IP "@ + ip_text(ip)
            + " is in private/reserved range"@,
        FilterErrorView::PortNotAllowed(port) => "port "@ + decimal_text(port as nat)
            + " not in allowed list"@,
        FilterErrorView::DnsResolutionFailed(host) => "DNS resolution failed for "@ + host,
    }
}

impl FilterError {
    /// The words that tell of the refusal.
    pub fn message(&self) -> (text: String)
        ensures
            text@ == refusal_text(self@),
    {
        match self {
            FilterError::PrivateIp(ip) => {
                let mut text = "target IP ".to_owned();
                text.append(ip_to_text(ip).as_str());
                text.append(" is in private/reserved range");
                text
            },
            FilterError::PortNotAllowed(port) => {
                let mut text = "port ".to_owned();
                push_number(&mut text, *port as u64);
                text.append(" not in allowed list");
                text
            },
            FilterError::DnsResolutionFailed(host) => {
                let mut text = "DNS resolution failed for ".to_owned();
                text.append(host.as_str());
                text
            },
        }
    }
}

/// The outcome of a check, with the error by its view.
pub open spec fn outcome_view(r: Result<SocketAddress, FilterError>) -> Result<
    SocketAddress,
    FilterErrorView,
> {
    match r {
        Ok(addr) => Ok(addr),
        Err(e) => Err(e@),
    }
}

/// The first blocked address of `addrs`, if there is one.
pub open spec fn first_private(addrs: Seq<IpAddress>) -> Option<IpAddress>
    decreases addrs.len(),
{
    if addrs.len() == 0 {
        None
    } else if ip_is_private(addrs[0]) {
        Some(addrs[0])
    } else {
        first_private(addrs.drop_first())
    }
}

/// The IP address that `host` spells, if it is an IP literal.
pub open spec fn host_literal(host: Seq<char>) -> Option<IpAddress> {
    ip_literal(encode_utf8(host))
}

/// The verdict on a target. `resolved` is what the resolver answered for
/// `host`, in its order; it is looked at only where the port is allowed and
/// `host` is no IP literal.
pub open spec fn target_verdict(
    host: Seq<char>,
    port: u16,
    allowed_ports: Set<u16>,
    resolved: Seq<IpAddress>,
) -> Result<SocketAddress, FilterErrorView> {
    if !allowed_ports.contains(port) {
        Err(FilterErrorView::PortNotAllowed(port))
    } else {
        match host_literal(host) {
            Some(ip) => if ip_is_private(ip) {
                Err(FilterErrorView::PrivateIp(ip))
            } else {
                Ok(SocketAddress { ip, port })
            },
            None => if resolved.len() == 0 {
                Err(FilterErrorView::DnsResolutionFailed(host))
            } else {
                match first_private(resolved) {
                    Some(ip) => Err(FilterErrorView::PrivateIp(ip)),
                    None => Ok(SocketAddress { ip: resolved[0], port }),
                }
            },
        }
    }
}

/// Whether the verdict on a target depends on what the resolver answers: the
/// port is allowed and the host is no IP literal.
pub fn needs_resolution(host: &str, port: u16, allowed_ports: &HashSet<u16>) -> (needed: bool)
    ensures
        needed == (allowed_ports@.contains(port) && host_literal(host@) is None),
{
    allowed_ports.contains(&port) && parse_ip_literal(host.as_bytes()).is_none()
}

/// Finds the first blocked address of `addrs`.
fn find_private(addrs: &Vec<IpAddress>) -> (found: Option<IpAddress>)
    ensures
        found == first_private(addrs@),
{
    let mut i: usize = 0;
    assert(addrs@.skip(0) =~= addrs@);
    while i < addrs.len()
        invariant
            i <= addrs.len(),
            first_private(addrs@) == first_private(addrs@.skip(i as int)),
        decreases addrs.len() - i,
    {
        let ip = addrs[i];
        assert(addrs@.skip(i as int).drop_first() =~= addrs@.skip(i + 1));
        if is_private_ip(&ip) {
            return Some(ip);
        }
        i += 1;
    }
    None
}

/// Checks that a request may reach `host:port` and gives the address to
/// connect to.
///
/// The port must be on the allow-list. A host that is an IP literal must not
/// be blocked. For any other host, `resolved` holds every address that one
/// trip through the resolver gave: none of them may be blocked, and the first
/// is the one to connect to. An empty answer is a failed resolution.
pub fn validate_target(
    host: &str,
    port: u16,
    allowed_ports: &HashSet<u16>,
    resolved: &Vec<IpAddress>,
) -> (result: Result<SocketAddress, FilterError>)
    ensures
        outcome_view(result) == target_verdict(host@, port, allowed_ports@, resolved@),
{
    if !allowed_ports.contains(&port) {
        return Err(FilterError::PortNotAllowed(port));
    }
    if let Some(ip) = parse_ip_literal(host.as_bytes()) {
        if is_private_ip(&ip) {
            return Err(FilterError::PrivateIp(ip));
        }
        return Ok(SocketAddress::new(ip, port));
    }
    if resolved.len() == 0 {
        return Err(FilterError::DnsResolutionFailed(host.to_owned()));
    }
    match find_private(resolved) {
        Some(ip) => Err(FilterError::PrivateIp(ip)),
        None => Ok(SocketAddress::new(resolved[0], port)),
    }
}

/// `first_private` finds nothing exactly when no address is blocked, and what
/// it finds is blocked, stands in the list, and has no blocked address before
/// it.
pub proof fn first_private_is_first(addrs: Seq<IpAddress>)
    ensures
        first_private(addrs) is None <==> forall|i: int|
            0 <= i < addrs.len() ==> !ip_is_private(#[trigger] addrs[i]),
        first_private(addrs) is Some ==> exists|i: int|
            0 <= i < addrs.len() && #[trigger] addrs[i] == first_private(addrs)->0
                && ip_is_private(addrs[i]) && forall|j: int|
                0 <= j < i ==> !ip_is_private(#[trigger] addrs[j]),
    decreases addrs.len(),
{
    if addrs.len() > 0 {
        let rest = addrs.drop_first();
        first_private_is_first(rest);
        assert(forall|i: int| 0 <= i < rest.len() ==> rest[i] == addrs[i + 1]);
        if ip_is_private(addrs[0]) {
            assert(addrs[0] == first_private(addrs)->0);
        } else {
            if first_private(rest) is Some {
                let k = choose|i: int|
                    0 <= i < rest.len() && #[trigger] rest[i] == first_private(rest)->0
                        && ip_is_private(rest[i]) && forall|j: int|
                        0 <= j < i ==> !ip_is_private(#[trigger] rest[j]);
                assert(addrs[k + 1] == first_private(addrs)->0);
                assert forall|j: int| 0 <= j < k + 1 implies !ip_is_private(
                    #[trigger] addrs[j],
                ) by {
                    if j > 0 {
                        assert(rest[j - 1] == addrs[j]);
                    }
                }
            } else {
                assert forall|i: int| 0 <= i < addrs.len() implies !ip_is_private(
                    #[trigger] addrs[i],
                ) by {
                    if i > 0 {
                        assert(rest[i - 1] == addrs[i]);
                    }
                }
            }
        }
    }
}

/// A host that spells a blocked address is refused as private on every
/// allowed port, whatever the resolver says.
pub proof fn private_literal_is_refused(
    host: Seq<char>,
    ip: IpAddress,
    port: u16,
    allowed_ports: Set<u16>,
    resolved: Seq<IpAddress>,
)
    requires
        host_literal(host) == Some(ip),
        ip_is_private(ip),
        allowed_ports.contains(port),
    ensures
        target_verdict(host, port, allowed_ports, resolved) == Err::<
            SocketAddress,
            FilterErrorView,
        >(FilterErrorView::PrivateIp(ip)),
{
}

/// Every address in a blocked range is refused as private when it is given
/// as a host by its text, on every allowed port; and every other address is
/// accepted as it stands.
pub proof fn written_address_is_judged(
    ip: IpAddress,
    port: u16,
    allowed_ports: Set<u16>,
    resolved: Seq<IpAddress>,
)
    requires
        allowed_ports.contains(port),
    ensures
        host_literal(ip_text(ip)) == Some(ip),
        ip_is_private(ip) ==> target_verdict(ip_text(ip), port, allowed_ports, resolved) == Err::<
            SocketAddress,
            FilterErrorView,
        >(FilterErrorView::PrivateIp(ip)),
        !ip_is_private(ip) ==> target_verdict(ip_text(ip), port, allowed_ports, resolved) == Ok::<
            SocketAddress,
            FilterErrorView,
        >(SocketAddress { ip, port }),
{
    written_address_is_read_back(ip);
}

/// A port that is not on the allow-list is refused, whatever the host is and
/// whatever the resolver says.
pub proof fn unlisted_port_is_refused(
    host: Seq<char>,
    port: u16,
    allowed_ports: Set<u16>,
    resolved: Seq<IpAddress>,
)
    requires
        !allowed_ports.contains(port),
    ensures
        target_verdict(host, port, allowed_ports, resolved) == Err::<
            SocketAddress,
            FilterErrorView,
        >(FilterErrorView::PortNotAllowed(port)),
{
}

/// Where a host name resolves to several addresses and any one of them is
/// blocked, the target is refused: as private, with the first blocked
/// address, where the port is allowed.
pub proof fn blocked_answer_is_refused(
    host: Seq<char>,
    port: u16,
    allowed_ports: Set<u16>,
    resolved: Seq<IpAddress>,
    i: int,
)
    requires
        host_literal(host) is None,
        0 <= i < resolved.len(),
        ip_is_private(resolved[i]),
    ensures
        target_verdict(host, port, allowed_ports, resolved) is Err,
        allowed_ports.contains(port) ==> target_verdict(host, port, allowed_ports, resolved)
            == Err::<SocketAddress, FilterErrorView>(
            FilterErrorView::PrivateIp(first_private(resolved)->0),
        ),
        first_private(resolved) is Some,
{
    first_private_is_first(resolved);
}

/// A target is accepted only on an allowed port and only with an address
/// that is not blocked.
pub proof fn accepted_target_is_public(
    host: Seq<char>,
    port: u16,
    allowed_ports: Set<u16>,
    resolved: Seq<IpAddress>,
)
    requires
        target_verdict(host, port, allowed_ports, resolved) is Ok,
    ensures
        allowed_ports.contains(port),
        target_verdict(host, port, allowed_ports, resolved)->Ok_0.port == port,
        !ip_is_private(target_verdict(host, port, allowed_ports, resolved)->Ok_0.ip),
        host_literal(host) is None ==> forall|i: int|
            0 <= i < resolved.len() ==> !ip_is_private(#[trigger] resolved[i]),
{
    first_private_is_first(resolved);
}

} // verus!
