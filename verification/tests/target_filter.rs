use std::collections::HashSet;

use aether_proxy::net::{IpAddress, Ipv4Address, Ipv6Address, SocketAddress};
use aether_proxy::target_filter::{
    is_private_ip, needs_resolution, validate_target, FilterError,
};

fn ports() -> HashSet<u16> {
    [80, 443, 8080, 8443].into_iter().collect()
}

fn v4(a: u8, b: u8, c: u8, d: u8) -> IpAddress {
    IpAddress::V4(Ipv4Address::new(a, b, c, d))
}

#[test]
fn test_private_ipv4() {
    assert!(is_private_ip(&IpAddress::V4(Ipv4Address::new(10, 0, 0, 1))));
    assert!(is_private_ip(&IpAddress::V4(Ipv4Address::new(172, 16, 0, 1))));
    assert!(is_private_ip(&IpAddress::V4(Ipv4Address::new(192, 168, 1, 1))));
    assert!(is_private_ip(&IpAddress::V4(Ipv4Address::new(127, 0, 0, 1))));
    assert!(is_private_ip(&IpAddress::V4(Ipv4Address::new(169, 254, 1, 1))));
    assert!(is_private_ip(&IpAddress::V4(Ipv4Address::new(0, 0, 0, 0))));
    assert!(!is_private_ip(&IpAddress::V4(Ipv4Address::new(8, 8, 8, 8))));
    assert!(!is_private_ip(&IpAddress::V4(Ipv4Address::new(203, 0, 113, 1))));
}

#[test]
fn test_private_ipv6() {
    assert!(is_private_ip(&IpAddress::V6(Ipv6Address::localhost())));
    assert!(is_private_ip(&IpAddress::V6(Ipv6Address::unspecified())));
    // fc00::1 (ULA)
    assert!(is_private_ip(&IpAddress::V6(Ipv6Address::new(
        0xfc00, 0, 0, 0, 0, 0, 0, 1
    ))));
    // fe80::1 (link-local)
    assert!(is_private_ip(&IpAddress::V6(Ipv6Address::new(
        0xfe80, 0, 0, 0, 0, 0, 0, 1
    ))));
}

#[test]
fn test_port_not_allowed() {
    let result = validate_target("8.8.8.8", 22, &ports(), &Vec::new());
    assert!(matches!(result, Err(FilterError::PortNotAllowed(22))));
}

#[test]
fn test_private_ip_blocked() {
    let result = validate_target("127.0.0.1", 80, &ports(), &Vec::new());
    assert!(matches!(result, Err(FilterError::PrivateIp(_))));
}

#[test]
fn test_public_ip_allowed() {
    let result = validate_target("8.8.8.8", 443, &ports(), &Vec::new());
    assert!(result.is_ok());
}

#[test]
fn public_literal_gives_its_own_address() {
    let result = validate_target("8.8.8.8", 443, &ports(), &Vec::new());
    assert_eq!(result, Ok(SocketAddress::new(v4(8, 8, 8, 8), 443)));
}

#[test]
fn ipv6_unique_local_literal_is_blocked() {
    let only: HashSet<u16> = [443].into_iter().collect();
    let result = validate_target("fc00::1", 443, &only, &Vec::new());
    assert_eq!(
        result,
        Err(FilterError::PrivateIp(IpAddress::V6(Ipv6Address::new(
            0xfc00, 0, 0, 0, 0, 0, 0, 1
        ))))
    );
}

#[test]
fn port_is_checked_before_the_host() {
    let result = validate_target("127.0.0.1", 22, &ports(), &Vec::new());
    assert_eq!(result, Err(FilterError::PortNotAllowed(22)));
    let result = validate_target("no such host", 22, &ports(), &Vec::new());
    assert_eq!(result, Err(FilterError::PortNotAllowed(22)));
}

#[test]
fn name_without_answer_is_a_failed_resolution() {
    let result = validate_target("example.com", 443, &ports(), &Vec::new());
    assert_eq!(
        result,
        Err(FilterError::DnsResolutionFailed("example.com".to_string()))
    );
}

#[test]
fn name_resolves_to_its_first_address() {
    let answer = vec![v4(93, 184, 216, 34), v4(8, 8, 4, 4)];
    let result = validate_target("example.com", 8080, &ports(), &answer);
    assert_eq!(result, Ok(SocketAddress::new(v4(93, 184, 216, 34), 8080)));
}

#[test]
fn any_private_answer_blocks_the_name() {
    let answer = vec![v4(93, 184, 216, 34), v4(10, 1, 2, 3), v4(192, 168, 0, 1)];
    let result = validate_target("rebind.example", 443, &ports(), &answer);
    assert_eq!(result, Err(FilterError::PrivateIp(v4(10, 1, 2, 3))));
}

#[test]
fn resolution_is_needed_for_names_on_allowed_ports_only() {
    assert!(needs_resolution("example.com", 443, &ports()));
    assert!(!needs_resolution("example.com", 22, &ports()));
    assert!(!needs_resolution("8.8.8.8", 443, &ports()));
    assert!(!needs_resolution("::1", 443, &ports()));
}

#[test]
fn edges_of_the_private_ranges() {
    assert!(!is_private_ip(&v4(9, 255, 255, 255)));
    assert!(!is_private_ip(&v4(11, 0, 0, 0)));
    assert!(!is_private_ip(&v4(172, 15, 255, 255)));
    assert!(is_private_ip(&v4(172, 31, 255, 255)));
    assert!(!is_private_ip(&v4(172, 32, 0, 0)));
    assert!(!is_private_ip(&v4(192, 167, 255, 255)));
    assert!(!is_private_ip(&v4(192, 169, 0, 0)));
    assert!(!is_private_ip(&v4(169, 253, 0, 0)));
    assert!(!is_private_ip(&v4(1, 0, 0, 0)));
    let v6 = |s0: u16| IpAddress::V6(Ipv6Address::new(s0, 0, 0, 0, 0, 0, 0, 1));
    assert!(!is_private_ip(&v6(0xfbff)));
    assert!(is_private_ip(&v6(0xfdff)));
    assert!(!is_private_ip(&v6(0xfe00)));
    assert!(!is_private_ip(&v6(0xfe7f)));
    assert!(is_private_ip(&v6(0xfebf)));
    assert!(!is_private_ip(&v6(0xfec0)));
    assert!(!is_private_ip(&v6(0x2001)));
}

#[test]
fn mapped_ipv4_is_judged_by_the_address_inside() {
    let mapped = |hi: u16, lo: u16| IpAddress::V6(Ipv6Address::new(0, 0, 0, 0, 0, 0xffff, hi, lo));
    assert!(is_private_ip(&mapped(0x7f00, 0x0001)));
    assert!(is_private_ip(&mapped(0x0a00, 0x0001)));
    assert!(is_private_ip(&mapped(0xc0a8, 0x0101)));
    assert!(!is_private_ip(&mapped(0x0808, 0x0808)));
    let result = validate_target("::ffff:127.0.0.1", 443, &ports(), &Vec::new());
    assert_eq!(
        result,
        Err(FilterError::PrivateIp(mapped(0x7f00, 0x0001)))
    );
}

#[test]
fn refusals_are_told_in_words() {
    assert_eq!(
        FilterError::PrivateIp(v4(127, 0, 0, 1)).message(),
        "target IP 127.0.0.1 is in private/reserved range"
    );
    assert_eq!(
        FilterError::PrivateIp(IpAddress::V6(Ipv6Address::new(0xfc00, 0, 0, 0, 0, 0, 0, 1)))
            .message(),
        "target IP fc00::1 is in private/reserved range"
    );
    assert_eq!(
        FilterError::PrivateIp(IpAddress::V6(Ipv6Address::new(
            0, 0, 0, 0, 0, 0xffff, 0x0a00, 0x0001
        )))
        .message(),
        "target IP ::ffff:10.0.0.1 is in private/reserved range"
    );
    assert_eq!(FilterError::PortNotAllowed(22).message(), "port 22 not in allowed list");
    assert_eq!(FilterError::PortNotAllowed(0).message(), "port 0 not in allowed list");
    assert_eq!(
        FilterError::DnsResolutionFailed("example.com".to_string()).message(),
        "DNS resolution failed for example.com"
    );
}

#[test]
fn the_text_of_a_blocked_address_is_refused() {
    let blocked = [
        v4(10, 255, 0, 1),
        v4(172, 20, 1, 1),
        v4(192, 168, 255, 255),
        v4(127, 1, 2, 3),
        v4(169, 254, 0, 0),
        v4(0, 1, 2, 3),
        IpAddress::V6(Ipv6Address::localhost()),
        IpAddress::V6(Ipv6Address::unspecified()),
        IpAddress::V6(Ipv6Address::new(0xfd12, 0x3456, 0, 0, 0, 0, 0, 0x1)),
        IpAddress::V6(Ipv6Address::new(0xfe80, 0, 0, 0, 0x1, 0, 0, 0x1)),
        IpAddress::V6(Ipv6Address::new(0, 0, 0, 0, 0, 0xffff, 0xc0a8, 0x0001)),
    ];
    for ip in blocked {
        let text = aether_proxy::ip_text::ip_to_text(&ip);
        assert_eq!(
            validate_target(&text, 443, &ports(), &Vec::new()),
            Err(FilterError::PrivateIp(ip)),
            "for {}",
            text
        );
    }
    let open = [
        v4(1, 1, 1, 1),
        v4(172, 32, 0, 1),
        IpAddress::V6(Ipv6Address::new(0x2001, 0xdb8, 0, 0, 0, 0, 0, 0x1)),
        IpAddress::V6(Ipv6Address::new(0, 0, 0, 0, 0, 0xffff, 0x0808, 0x0808)),
    ];
    for ip in open {
        let text = aether_proxy::ip_text::ip_to_text(&ip);
        assert_eq!(
            validate_target(&text, 443, &ports(), &Vec::new()),
            Ok(SocketAddress::new(ip, 443)),
            "for {}",
            text
        );
    }
}
