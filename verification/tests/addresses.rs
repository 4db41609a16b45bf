use mac4nick::net::{filter_stations, ip_in_any_subnet, parse_ipv4, parse_subnet, parse_subnets,
    trim_str, RawStation, Subnet};
use mac4nick::device::AliveDevice;

#[test]
fn parses_plain_addresses() {
    assert_eq!(parse_ipv4("10.0.0.5"), Some(0x0a000005));
    assert_eq!(parse_ipv4("0.0.0.0"), Some(0));
    assert_eq!(parse_ipv4("255.255.255.255"), Some(0xffffffff));
    assert_eq!(parse_ipv4("192.168.1.17"), Some(0xc0a80111));
}

#[test]
fn rejects_malformed_addresses() {
    assert_eq!(parse_ipv4(""), None);
    assert_eq!(parse_ipv4("10.0.0"), None);
    assert_eq!(parse_ipv4("10.0.0.5.6"), None);
    assert_eq!(parse_ipv4("10.0.0.256"), None);
    assert_eq!(parse_ipv4("10.0.0.05"), None);
    assert_eq!(parse_ipv4("01.0.0.5"), None);
    assert_eq!(parse_ipv4("10.0.0.5 "), None);
    assert_eq!(parse_ipv4("a.b.c.d"), None);
    assert_eq!(parse_ipv4("1234.0.0.1"), None);
    assert_eq!(parse_ipv4("fe80::1"), None);
}

#[test]
fn subnet_membership_follows_the_prefix() {
    let net = parse_subnet("10.0.0.0/24").unwrap();
    assert!(net.contains(parse_ipv4("10.0.0.5").unwrap()));
    assert!(net.contains(parse_ipv4("10.0.0.255").unwrap()));
    assert!(!net.contains(parse_ipv4("10.0.1.5").unwrap()));

    let all = parse_subnet("0.0.0.0/0").unwrap();
    assert!(all.contains(parse_ipv4("203.0.113.9").unwrap()));

    let host = parse_subnet("10.0.0.5").unwrap();
    assert_eq!(host.prefix, 32);
    assert!(host.contains(parse_ipv4("10.0.0.5").unwrap()));
    assert!(!host.contains(parse_ipv4("10.0.0.6").unwrap()));
}

#[test]
fn subnet_rejects_malformed_entries() {
    assert_eq!(parse_subnet("10.0.0.0/33"), None);
    assert_eq!(parse_subnet("10.0.0.0/24/8"), None);
    assert_eq!(parse_subnet("10.0.0.0/"), None);
    assert_eq!(parse_subnet("10.0.0/24"), None);
    assert_eq!(parse_subnet("10.0.0.0/ 24"), None);
}

#[test]
fn subnet_prefix_accepts_leading_zeros() {
    let net = parse_subnet("10.0.0.0/024").unwrap();
    assert_eq!(net.prefix, 24);
}

#[test]
fn allowlist_keeps_valid_entries_and_drops_junk() {
    let nets = parse_subnets(" 10.0.0.0/24 , bogus, 192.168.0.0/16,,10.1.2.3 ");
    assert_eq!(
        nets,
        vec![
            Subnet { addr: 0x0a000000, prefix: 24 },
            Subnet { addr: 0xc0a80000, prefix: 16 },
            Subnet { addr: 0x0a010203, prefix: 32 },
        ]
    );
    assert_eq!(parse_subnets(""), vec![]);
}

#[test]
fn trims_surrounding_whitespace() {
    assert_eq!(trim_str("  10.0.0.0/24\t"), "10.0.0.0/24");
    assert_eq!(trim_str("\r\n"), "");
    assert_eq!(trim_str("x"), "x");
}

#[test]
fn any_subnet_check_is_a_disjunction() {
    let nets = parse_subnets("10.0.0.0/24,192.168.0.0/16");
    assert!(ip_in_any_subnet(parse_ipv4("10.0.0.9").unwrap(), &nets));
    assert!(ip_in_any_subnet(parse_ipv4("192.168.3.4").unwrap(), &nets));
    assert!(!ip_in_any_subnet(parse_ipv4("172.16.0.1").unwrap(), &nets));
    assert!(!ip_in_any_subnet(parse_ipv4("10.0.0.9").unwrap(), &vec![]));
}

#[test]
fn station_filter_excludes_unassociated_and_foreign_stations() {
    let subnets = parse_subnets("10.0.0.0/24");
    let raw = vec![
        RawStation { macaddr: "AA".to_string(), ip: Some("10.0.0.5".to_string()) },
        RawStation { macaddr: "BB".to_string(), ip: None },
        RawStation { macaddr: "CC".to_string(), ip: Some("192.168.0.1".to_string()) },
        RawStation { macaddr: "DD".to_string(), ip: Some("not-an-ip".to_string()) },
        RawStation { macaddr: "EE".to_string(), ip: Some("10.0.0.77".to_string()) },
    ];
    let kept = filter_stations(&raw, &subnets);
    let macs: Vec<&str> = kept.iter().map(|s| s.macaddr.as_str()).collect();
    assert_eq!(macs, vec!["AA", "EE"]);
    assert_eq!(kept[0].ip, 0x0a000005);
    assert_eq!(kept[1].ip, 0x0a00004d);
}

#[test]
fn alive_device_round_trips_its_address() {
    let alive = AliveDevice::new(&"AA".to_string(), &"10.0.0.5".to_string()).unwrap();
    assert_eq!(alive.macaddr, "AA");
    assert_eq!(alive.iplong, 0x0a000005);
    assert_eq!(alive.ip(), (10, 0, 0, 5));

    let high = AliveDevice::new(&"BB".to_string(), &"255.1.2.3".to_string()).unwrap();
    assert!(high.iplong < 0);
    assert_eq!(high.ip(), (255, 1, 2, 3));

    assert!(AliveDevice::new(&"CC".to_string(), &"nope".to_string()).is_err());
}
