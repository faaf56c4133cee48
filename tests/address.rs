use ruping::address::{
    check_literal_family, is_link_local_v6, is_loopback_v4, pick_source_address,
    select_resolved, IpAddress, ResolveError,
};

fn octets(s: &str) -> u32 {
    s.split('.').fold(0u32, |acc, o| (acc << 8) | o.parse::<u32>().unwrap())
}

/// A textual IPv6 address with at most one `::`.
fn segments(s: &str) -> u128 {
    let parse = |part: &str| -> Vec<u128> {
        if part.is_empty() {
            Vec::new()
        } else {
            part.split(':').map(|g| u128::from_str_radix(g, 16).unwrap()).collect()
        }
    };
    let (head, tail) = match s.find("::") {
        Some(i) => (parse(&s[..i]), parse(&s[i + 2..])),
        None => (parse(s), Vec::new()),
    };
    let mut groups = head.clone();
    groups.extend(std::iter::repeat(0).take(8 - head.len() - tail.len()));
    groups.extend(tail);
    groups.iter().fold(0u128, |acc, g| (acc << 16) | g)
}

fn v4(s: &str) -> IpAddress {
    IpAddress::V4(octets(s))
}

fn v6(s: &str) -> IpAddress {
    IpAddress::V6(segments(s))
}

#[test]
fn loopback_and_link_local() {
    assert!(is_loopback_v4(octets("127.0.0.1")));
    assert!(is_loopback_v4(octets("127.255.1.2")));
    assert!(!is_loopback_v4(octets("8.8.8.8")));
    assert_eq!(segments("fe80::1"), 0xfe80_0000_0000_0000_0000_0000_0000_0001);
    let ll = |s: &str| is_link_local_v6(segments(s));
    assert!(ll("fe80::1"));
    assert!(ll("febf:ffff::1"));
    assert!(!ll("fec0::1"));
    assert!(!ll("2001:db8::1"));
    assert!(!ll("::1"));
}

#[test]
fn literal_address_family_checks() {
    let a = v4("8.8.8.8");
    assert_eq!(check_literal_family(a, false, false), Ok(a));
    assert_eq!(check_literal_family(a, true, false), Ok(a));
    assert_eq!(check_literal_family(a, false, true), Err(ResolveError::Ipv4WhileIpv6Forced));
    let b = v6("2001:db8::1");
    assert_eq!(check_literal_family(b, false, true), Ok(b));
    assert_eq!(check_literal_family(b, true, false), Err(ResolveError::Ipv6WhileIpv4Forced));
    assert_eq!(check_literal_family(b, true, true), Ok(b));
}

#[test]
fn resolved_address_preference() {
    let list = vec![v6("2001:db8::1"), v4("10.0.0.1"), v4("10.0.0.2"), v6("2001:db8::2")];
    assert_eq!(select_resolved(&list, false, false), Ok(v4("10.0.0.1")));
    assert_eq!(select_resolved(&list, true, false), Ok(v4("10.0.0.1")));
    assert_eq!(select_resolved(&list, false, true), Ok(v6("2001:db8::1")));
    let only6 = vec![v6("2001:db8::5")];
    assert_eq!(select_resolved(&only6, false, false), Ok(v6("2001:db8::5")));
    assert_eq!(select_resolved(&only6, true, false), Err(ResolveError::NoAddressOfFamily));
    let only4 = vec![v4("1.2.3.4")];
    assert_eq!(select_resolved(&only4, false, true), Err(ResolveError::NoAddressOfFamily));
    assert_eq!(select_resolved(&Vec::new(), false, false), Err(ResolveError::NoAddresses));
}

#[test]
fn source_address_prefers_routable() {
    let addrs = vec![v4("127.0.0.1"), v6("fe80::1"), v4("192.168.1.5"), v6("2001:db8::9")];
    assert_eq!(pick_source_address(&addrs, false), Some(v4("192.168.1.5")));
    assert_eq!(pick_source_address(&addrs, true), Some(v6("2001:db8::9")));
    let local = vec![v4("127.0.0.1"), v6("fe80::1")];
    assert_eq!(pick_source_address(&local, false), Some(v4("127.0.0.1")));
    assert_eq!(pick_source_address(&local, true), Some(v6("fe80::1")));
    assert_eq!(pick_source_address(&vec![v4("10.1.1.1")], true), None);
}
